use aligntester_diag::diag::{build_standard_pass_line, build_verbose_pass_line, TrackAnalysisResult};
use aligntester_diag::drive::DriveReadStatus;
use aligntester_diag::sectors::{DecodedSector, SectorStatus};

#[test]
fn test_verbose_ribbon_format_hd_18_sectors() {
    let sectors: Vec<DecodedSector> = (1..=18).map(|id| DecodedSector::new(79, 0, id, 2, true)).collect();

    let diag = TrackAnalysisResult {
        has_disk: true,
        bitrate: 500,
        sector_count: 18,
        sectors_known: true,
        sectors,
        on_track_count: 18,
        off_track_count: 0,
        off_track_details: String::from("NONE (Perfect)"),
        crc_err_count: 0,
        index_timestamps: vec![1000, 14401000, 28802000],
        instant_rpms: vec![300],
        gap0_us: Some(1440),
        pll_quality_pct: Some(99),
        interleave: Some("1:1".to_string()),
        read_status: DriveReadStatus::Good,
    };

    let line = build_verbose_pass_line(79, 0, &diag);
    assert_eq!(
        line,
        "T:79 H:0 Rate:500k MFM [ ■ ■ ■ ■ ■ ■ ■ ■ ■ ■ ■ ■ ■ ■ ■ ■ ■ ■ ] (18/18 OK) IL:1:1 Gap0:1440µs Q:99%"
    );
}

#[test]
fn test_verbose_ribbon_format_dd_9_sectors() {
    let sectors: Vec<DecodedSector> = (1..=9).map(|id| DecodedSector::new(40, 0, id, 2, true)).collect();

    let diag = TrackAnalysisResult {
        has_disk: true,
        bitrate: 250,
        sector_count: 9,
        sectors_known: true,
        sectors,
        on_track_count: 9,
        off_track_count: 0,
        off_track_details: String::from("NONE (Perfect)"),
        crc_err_count: 0,
        index_timestamps: vec![1000, 14401000, 28802000],
        instant_rpms: vec![300],
        gap0_us: Some(2880),
        pll_quality_pct: Some(98),
        interleave: Some("1:1".to_string()),
        read_status: DriveReadStatus::Good,
    };

    let line = build_verbose_pass_line(40, 0, &diag);
    assert_eq!(
        line,
        "T:40 H:0 Rate:250k MFM [ ■ ■ ■ ■ ■ ■ ■ ■ ■ ]                   (9/9 OK)   IL:1:1 Gap0:2880µs Q:98%"
    );
}

#[test]
fn test_verbose_ribbon_format_hd_15_sectors() {
    let sectors: Vec<DecodedSector> = (1..=15).map(|id| DecodedSector::new(40, 0, id, 2, true)).collect();

    let diag = TrackAnalysisResult {
        has_disk: true,
        bitrate: 500,
        sector_count: 15,
        sectors_known: true,
        sectors,
        on_track_count: 15,
        off_track_count: 0,
        off_track_details: String::from("NONE (Perfect)"),
        crc_err_count: 0,
        index_timestamps: vec![1000, 12001000, 24002000],
        instant_rpms: vec![360],
        gap0_us: Some(1440),
        pll_quality_pct: Some(97),
        interleave: Some("1:1".to_string()),
        read_status: DriveReadStatus::Good,
    };

    let line = build_verbose_pass_line(40, 0, &diag);
    assert_eq!(
        line,
        "T:40 H:0 Rate:500k MFM [ ■ ■ ■ ■ ■ ■ ■ ■ ■ ■ ■ ■ ■ ■ ■ ]       (15/15 OK) IL:1:1 Gap0:1440µs Q:97%"
    );
}

#[test]
fn test_verbose_ribbon_format_with_crc_data_error() {
    let sectors: Vec<DecodedSector> = (1..=18)
        .map(|id| {
            if id == 15 {
                DecodedSector::with_status(35, 0, id, 2, SectorStatus::CrcData)
            } else {
                DecodedSector::new(35, 0, id, 2, true)
            }
        })
        .collect();

    let diag = TrackAnalysisResult {
        has_disk: true,
        bitrate: 500,
        sector_count: 18,
        sectors_known: true,
        sectors,
        on_track_count: 18,
        off_track_count: 0,
        off_track_details: String::from("NONE (Perfect)"),
        crc_err_count: 1,
        index_timestamps: vec![1000, 14401000],
        instant_rpms: vec![300],
        gap0_us: Some(1440),
        pll_quality_pct: Some(84),
        interleave: Some("1:1".to_string()),
        read_status: DriveReadStatus::Good,
    };

    let line = build_verbose_pass_line(35, 0, &diag);
    assert_eq!(
        line,
        "T:35 H:0 Rate:500k MFM [ ■ ■ ■ ■ ■ ■ ■ ■ ■ ■ ■ ■ ■ ■ ■ ■ ■ ■ ] (17/18 CRC-DAT: Sec 15) IL:1:1 Gap0:1440µs Q:84%"
    );
}

#[test]
fn test_verbose_ribbon_format_unformatted_track() {
    let diag = TrackAnalysisResult {
        has_disk: false,
        bitrate: 500,
        sector_count: 0,
        sectors_known: false,
        sectors: Vec::new(),
        on_track_count: 0,
        off_track_count: 0,
        off_track_details: String::from("NONE"),
        crc_err_count: 0,
        index_timestamps: vec![1000, 14401000],
        instant_rpms: vec![300],
        gap0_us: None,
        pll_quality_pct: None,
        interleave: None,
        read_status: DriveReadStatus::NoDiskOrNoIndex,
    };

    let line = build_verbose_pass_line(80, 0, &diag);
    assert_eq!(
        line,
        "T:80 H:0 Rate:---k --- [ ? ]                                   (0/0 NO DATA / NO DISK) IL:--- Gap0:---- Q:--%"
    );
}

#[test]
fn test_verbose_line_no_rpm_fields() {
    let sectors: Vec<DecodedSector> = (1..=18).map(|id| DecodedSector::new(40, 0, id, 2, true)).collect();

    let diag = TrackAnalysisResult {
        has_disk: true,
        bitrate: 500,
        sector_count: 18,
        sectors_known: true,
        sectors,
        on_track_count: 18,
        off_track_count: 0,
        off_track_details: String::from("NONE (Perfect)"),
        crc_err_count: 0,
        index_timestamps: vec![1000, 14401000],
        instant_rpms: vec![300],
        gap0_us: Some(1440),
        pll_quality_pct: Some(98),
        interleave: Some("1:1".to_string()),
        read_status: DriveReadStatus::Good,
    };

    let line = build_verbose_pass_line(40, 0, &diag);
    assert!(!line.contains("RPM"), "Verbose line must not contain RPM");
    assert!(!line.contains("ms"), "Verbose line must not contain duration in ms");
    assert!(!line.contains('±'), "Verbose line must not contain jitter +/-");
    assert!(line.contains("Gap0:1440µs"));
    assert!(line.contains("Q:98%"));
    assert!(line.contains("IL:1:1"));
}

#[test]
fn test_amstrad_cpc_data_format_recognition() {
    let diag = TrackAnalysisResult {
        has_disk: true,
        bitrate: 250,
        sector_count: 9,
        sectors_known: true,
        sectors: (0xC1..=0xC9).map(|id| DecodedSector::new(20, 0, id, 2, true)).collect(),
        on_track_count: 9,
        off_track_count: 0,
        off_track_details: String::from("NONE (Perfect)"),
        crc_err_count: 0,
        ..Default::default()
    };

    let line_std = build_standard_pass_line(20, 0, &diag);
    assert!(line_std.contains("Rate:250k MFM"));
    assert!(line_std.contains("(9/9 OK)"));

    let line_verb = build_verbose_pass_line(20, 0, &diag);
    assert!(line_verb.contains("(9/9 OK)"));
}

#[test]
fn test_atari_st_overformatting_10_and_11_sectors() {
    let sectors_10: Vec<DecodedSector> = (1..=10).map(|id| DecodedSector::new(80, 0, id, 2, true)).collect();
    let diag_10 = TrackAnalysisResult {
        has_disk: true,
        bitrate: 250,
        sector_count: 10,
        sectors_known: true,
        sectors: sectors_10,
        on_track_count: 10,
        off_track_count: 0,
        off_track_details: String::from("NONE (Perfect)"),
        crc_err_count: 0,
        ..Default::default()
    };

    let line_std_10 = build_standard_pass_line(80, 0, &diag_10);
    assert!(line_std_10.contains("(10/10 OK)"));

    let sectors_11: Vec<DecodedSector> = (1..=11).map(|id| DecodedSector::new(82, 0, id, 2, true)).collect();
    let diag_11 = TrackAnalysisResult {
        has_disk: true,
        bitrate: 250,
        sector_count: 11,
        sectors_known: true,
        sectors: sectors_11,
        on_track_count: 11,
        off_track_count: 0,
        off_track_details: String::from("NONE (Perfect)"),
        crc_err_count: 0,
        ..Default::default()
    };

    let line_std_11 = build_standard_pass_line(82, 0, &diag_11);
    assert!(line_std_11.contains("(11/11 OK)"));
}

fn diag_with(sectors: Vec<DecodedSector>, bitrate: u16, count: u8) -> TrackAnalysisResult {
    TrackAnalysisResult {
        has_disk: true,
        bitrate,
        sector_count: count,
        sectors_known: true,
        sectors,
        ..Default::default()
    }
}

#[test]
fn standard_line_exact_text_and_statuses() {
    let secs: Vec<DecodedSector> = (1..=9).map(|id| DecodedSector::new(3, 1, id, 2, true)).collect();
    let line = build_standard_pass_line(3, 1, &diag_with(secs, 250, 9));
    assert_eq!(line, "T:03 H:1 Rate:250k MFM [ ■ ■ ■ ■ ■ ■ ■ ■ ■ ]                   (9/9 OK)");

    // Sector 4 missing: empty block and a MISSING list.
    let secs: Vec<DecodedSector> = (1..=9).filter(|&id| id != 4).map(|id| DecodedSector::new(3, 0, id, 2, true)).collect();
    let line = build_standard_pass_line(3, 0, &diag_with(secs, 250, 8));
    assert_eq!(line, "T:03 H:0 Rate:250k MFM [ ■ ■ ■ ░ ■ ■ ■ ■ ■ ]                   (8/9 MISSING: Sec 4)");

    // Deleted data marks are listed.
    let secs: Vec<DecodedSector> = (1..=9)
        .map(|id| if id == 2 { DecodedSector::with_status(3, 0, id, 2, SectorStatus::DelDam) } else { DecodedSector::new(3, 0, id, 2, true) })
        .collect();
    let line = build_standard_pass_line(3, 0, &diag_with(secs, 250, 9));
    assert!(line.ends_with("(8/9 DEL-DAM: Sec 2)"));

    // A misaligned head reading another track.
    let secs: Vec<DecodedSector> = (1..=9).map(|id| DecodedSector::new(4, 0, id, 2, true)).collect();
    let mut d = diag_with(secs, 250, 9);
    d.off_track_count = 9;
    d.off_track_details = String::from("MISALIGNED T:04");
    let line = build_standard_pass_line(3, 0, &d);
    assert!(line.ends_with("(9/9 MISALIGNED T:04)"));
    assert!(line.contains("[ ■ ■ ■ ■ ■ ■ ■ ■ ■ ]"));

    let empty = TrackAnalysisResult::default();
    assert_eq!(
        build_standard_pass_line(0, 0, &empty),
        "T:00 H:0 Rate:---k --- [ ? ]                                   (0/0 NO DATA / NO DISK)"
    );
}

#[test]
fn verbose_line_detects_interleave_and_shows_hex_ids() {
    let order = [1u8, 6, 2, 7, 3, 8, 4, 9, 5];
    let secs: Vec<DecodedSector> = order.iter().map(|&id| DecodedSector::new(5, 0, id, 2, true)).collect();
    let line = build_verbose_pass_line(5, 0, &diag_with(secs, 250, 9));
    assert!(line.ends_with("(9/9 OK)   IL:1:5 Gap0:---- Q:--%"));

    let secs: Vec<DecodedSector> = (0xC1..=0xC9)
        .map(|id| if id == 0xC3 { DecodedSector::with_status(2, 0, id, 2, SectorStatus::CrcId) } else { DecodedSector::new(2, 0, id, 2, true) })
        .collect();
    let mut d = diag_with(secs, 250, 9);
    d.crc_err_count = 1;
    let line = build_standard_pass_line(2, 0, &d);
    assert!(line.ends_with("(8/9 CRC-ID: Sec C3)"));
}
