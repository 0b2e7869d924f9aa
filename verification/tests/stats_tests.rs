use aligntester_diag::crc::crc16_ccitt;
use aligntester_diag::diag::{keep_last_lines, measure_gap0, pass_verdict, record_progress_sector, revolution_progress_lines, TrackAnalysisResult};
use aligntester_diag::drive::SectorInfo;
use aligntester_diag::heads::DiagnosticPass;
use aligntester_diag::ibm::{decode_idam_sectors, header_repeat_ticks, index_revolution_ticks};
use aligntester_diag::mfm::mfm_encode_byte;
use aligntester_diag::protocol::DiskFormat;
use aligntester_diag::sectors::DecodedSector;
use aligntester_diag::stats::{both_mode_counts, count_track_sectors, detected_track_id, off_track_details};
use aligntester_diag::track::{decode_track_bits, detect_dd_format, get_status_expected_sector_ids};

fn secs(cyl: u8, ids: &[u8]) -> Vec<DecodedSector> {
    ids.iter().map(|&id| DecodedSector::new(cyl, 0, id, 2, true)).collect()
}

#[test]
fn track_counts_and_off_track_summary() {
    let mut s = secs(40, &[1, 2, 3]);
    s.push(DecodedSector::new(39, 0, 4, 2, true));
    s.push(DecodedSector::new(41, 0, 5, 2, false));
    let c = count_track_sectors(&s, 40);
    assert_eq!((c.on_track, c.off_track, c.crc_errors), (3, 2, 1));
    assert_eq!(off_track_details(&s, 40), "T39: 1 sect, T41: 1 sect");
    assert_eq!(off_track_details(&secs(40, &[1, 2]), 40), "NONE (Perfect)");
    assert_eq!(off_track_details(&secs(39, &[1, 2, 3]), 40), "MISALIGNED T:39");
    assert_eq!(detected_track_id(&s, 40), 40);
    assert_eq!(detected_track_id(&secs(39, &[1, 2]), 40), 39);
    assert_eq!(detected_track_id(&[], 12), 12);
}

#[test]
fn both_mode_counts_of_two_heads() {
    let p0 = DiagnosticPass::with_details(40, 0, 500, String::new(), String::new(), 18, 18, 0, 99, true);
    let p1 = DiagnosticPass::with_details(40, 1, 500, String::new(), String::new(), 9, 18, 9, 50, false);
    let c = both_mode_counts(Some(&p0), Some(&p1), 18);
    assert_eq!((c.total_expected, c.total_ok, c.total_off_track, c.total_crc_err), (36, 27, 9, 9));
    assert_eq!(c.off_track_details, "OFF-TRK");

    let mut p2 = p1.clone();
    p2.track_id = 41;
    let c = both_mode_counts(Some(&p0), Some(&p2), 18);
    assert_eq!(c.total_off_track, 18);
    assert_eq!(c.off_track_details, "MISMATCH: Track 41 on Head 1");

    let c = both_mode_counts(None, None, 0);
    assert_eq!((c.total_expected, c.total_ok, c.total_off_track), (36, 0, 0));
    assert_eq!(c.off_track_details, "NONE (Perfect)");
}

#[test]
fn progress_lines_start_and_update() {
    let (s0, v0) = revolution_progress_lines(5, 1, 250, 9, None);
    assert_eq!(s0, "T:05 H:1 Rate:250k MFM [ ░ ░ ░ ░ ░ ░ ░ ░ ░ ]                   ( 0/9)");
    assert_eq!(v0, "T:05 H:1 Rate:250k MFM [ ░ ░ ░ ░ ░ ░ ░ ░ ░ ]                    ( 0/9) IL:--- Gap0:---- Q:--%");
    let (s3, _) = revolution_progress_lines(5, 1, 250, 9, Some(3));
    assert_eq!(s3, "T:05 H:1 Rate:250k MFM [ ■ ■ ■ ░ ░ ░ ░ ░ ░ ]                   ( 3/9)");
    let (s9, v9) = revolution_progress_lines(5, 1, 250, 9, Some(12));
    assert!(s9.ends_with("] (9/9 OK)") || s9.ends_with(" (9/9 OK)"));
    assert!(v9.ends_with("(9/9 OK)   IL:--- Gap0:---- Q:--%"));
}

#[test]
fn history_trim_and_sector_list() {
    let mut log: Vec<String> = (0..55).map(|i| i.to_string()).collect();
    keep_last_lines(&mut log, 50);
    assert_eq!(log.len(), 50);
    assert_eq!(log[0], "5");
    let mut list: Vec<SectorInfo> = Vec::new();
    let s = DecodedSector::new(3, 0, 7, 2, false);
    record_progress_sector(&mut list, &s);
    record_progress_sector(&mut list, &s);
    assert_eq!(list.len(), 1);
    assert_eq!(list[0].status_code, 1);
}

fn push_byte(bits: &mut Vec<bool>, b: u8, prev: &mut bool) {
    let w = mfm_encode_byte(*prev, b);
    for k in (0..16).rev() {
        bits.push((w >> k) & 1 == 1);
    }
    *prev = b & 1 == 1;
}

fn push_header(bits: &mut Vec<bool>, cyl: u8, head: u8, sec: u8) {
    for _ in 0..3 {
        for k in (0..16).rev() {
            bits.push((0x4489u16 >> k) & 1 == 1);
        }
    }
    let mut hdr = vec![0xA1u8, 0xA1, 0xA1, 0xFE, cyl, head, sec, 2];
    let crc = crc16_ccitt(&hdr);
    hdr.push((crc >> 8) as u8);
    hdr.push((crc & 0xFF) as u8);
    let mut prev = true;
    for &b in &hdr[3..] {
        push_byte(bits, b, &mut prev);
    }
    for _ in 0..4 {
        push_byte(bits, 0x4E, &mut prev);
    }
}

#[test]
fn gap0_and_shift_register_headers() {
    let mut bits = Vec::new();
    let mut prev = false;
    for _ in 0..45 {
        push_byte(&mut bits, 0x4E, &mut prev);
    }
    let first = bits.len();
    push_header(&mut bits, 2, 0, 1);
    push_header(&mut bits, 2, 0, 2);
    push_header(&mut bits, 2, 0, 1);
    bits.extend(std::iter::repeat(false).take(200));
    // 720 cells at 144 ticks = 1440 µs.
    assert_eq!(first, 720);
    assert_eq!(measure_gap0(&bits, 144, 250, false), Some(1440));
    assert_eq!(measure_gap0(&bits, 144, 500, false), Some(1440));
    assert_eq!(measure_gap0(&bits, 72, 250, false), None);
    // The first two A1 sync words also form the Amiga sync longword.
    assert_eq!(measure_gap0(&bits, 144, 250, true), Some(1440));
    assert_eq!(measure_gap0(&bits[..700], 144, 250, true), None);

    let headers = decode_idam_sectors(&bits);
    assert_eq!(headers, vec![(2, 0, 1, 2, true), (2, 0, 2, 2, true)]);
}

#[test]
fn repeat_ticks_and_index_ticks() {
    let mut bits = Vec::new();
    push_header(&mut bits, 1, 0, 3);
    bits.resize(100_000, false);
    push_header(&mut bits, 1, 0, 3);
    bits.resize(200_000, false);
    push_header(&mut bits, 1, 0, 3);
    bits.resize(200_400, false);
    assert_eq!(header_repeat_ticks(&bits, 144), vec![14_400_000, 28_800_000]);
    assert_eq!(index_revolution_ticks(&[1_000_000, 15_400_000, 15_400_000, 3]), vec![14_400_000, 0x0FFF_FFFF & 3u32.wrapping_sub(15_400_000)]);
    assert!(index_revolution_ticks(&[5]).is_empty());
}

#[test]
fn pass_verdict_and_formats() {
    let d = TrackAnalysisResult {
        has_disk: true,
        bitrate: 250,
        sector_count: 9,
        sectors_known: true,
        sectors: secs(40, &[1, 2, 3, 4, 5, 6, 7, 8, 9]),
        ..Default::default()
    };
    assert_eq!(pass_verdict(&d, 40, 40), (9, true));
    assert_eq!(pass_verdict(&d, 40, 39), (9, false));
    assert_eq!(pass_verdict(&d, 41, 41), (0, false));

    assert_eq!(detect_dd_format(&secs(0, &[0xC1])), DiskFormat::AmstradCpcData);
    assert_eq!(detect_dd_format(&secs(0, &[0x41])), DiskFormat::AmstradCpcSystem);
    assert_eq!(detect_dd_format(&secs(0, &[1, 10])), DiskFormat::AtariSt);
    assert_eq!(detect_dd_format(&secs(0, &[1, 2])), DiskFormat::IbmPc);

    let empty: Vec<bool> = Vec::new();
    let (f, rate, clock, s) = decode_track_bits(DiskFormat::IbmPc, &empty, &empty, &empty);
    assert_eq!((f, rate, clock, s.len()), (DiskFormat::IbmPc, 500, 144, 0));
    let (f, rate, clock, _) = decode_track_bits(DiskFormat::AutoDetect, &empty, &empty, &empty);
    assert_eq!((f, rate, clock), (DiskFormat::AutoDetect, 500, 72));

    let list = vec![SectorInfo { track: 1, sec_id: 10, size_code: 2, status_code: 0, crc_ok: true }];
    assert_eq!(get_status_expected_sector_ids(&list, DiskFormat::AtariSt, 250, 9), (1..=10).collect::<Vec<u8>>());
    assert_eq!(get_status_expected_sector_ids(&[], DiskFormat::IbmPc, 500, 0), (1..=18).collect::<Vec<u8>>());
    assert_eq!(get_status_expected_sector_ids(&[], DiskFormat::AmigaDos, 250, 0), (0..11).collect::<Vec<u8>>());
}
