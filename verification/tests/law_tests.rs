use aligntester_diag::cli::parse_cli_args;
use aligntester_diag::heads::DiagnosticPass;
use aligntester_diag::session::App;
use aligntester_diag::synth::{MfmTrackBuffer, MfmTrackEncoder};
use aligntester_diag::protocol::{BusType, PresetProfile, StepMode};
use aligntester_diag::sectors::DecodedSector;
use aligntester_diag::track::detect_interleave;

fn args(v: &[&str]) -> Vec<String> {
    v.iter().map(|s| s.to_string()).collect()
}

#[test]
fn one_sector_gives_interleave_one() {
    let s = vec![DecodedSector::new(0, 0, 7, 2, true)];
    assert_eq!(detect_interleave(&s, 9), Some(String::from("1:1")));
}

#[test]
fn most_frequent_wrapped_step_is_the_interleave() {
    let ids = [1u8, 3, 5, 7, 9, 2, 4, 6, 8];
    let s: Vec<DecodedSector> = ids.iter().map(|&id| DecodedSector::new(0, 0, id, 2, true)).collect();
    assert_eq!(detect_interleave(&s, 9), Some(String::from("1:2")));
}

#[test]
fn command_line_defaults_and_unit_clamp() {
    let (port, unit, bus, step, preset) = parse_cli_args(&args(&["prog", "--drive", "4"]));
    assert_eq!(port, None);
    assert_eq!(unit, 1);
    assert_eq!(preset, PresetProfile::Pc35Hd);
    assert_eq!(bus, PresetProfile::Pc35Hd.default_bus());
    assert_eq!(step, PresetProfile::Pc35Hd.default_step());

    let (_, unit, bus, _, _) = parse_cli_args(&args(&["prog", "--shugart", "--drive", "9"]));
    assert_eq!(bus, BusType::Shugart);
    assert_eq!(unit, 3);

    let (_, _, bus, step, preset) = parse_cli_args(&args(&["prog", "--preset", "pc525ddonhd"]));
    assert_eq!(preset, PresetProfile::Pc525DdOnHd);
    assert_eq!(bus, PresetProfile::Pc525DdOnHd.default_bus());
    assert_eq!(step, StepMode::Double);

    assert_eq!(parse_cli_args(&args(&["--shugart", "COM4"])), parse_cli_args(&args(&["prog", "COM4"])));
    assert_eq!(parse_cli_args(&args(&["prog", "COM4"])).0, Some(String::from("COM4")));
}

#[test]
fn test_diagnostic_pass_model_and_app_integration() {
    let pct = |ok: u8, exp: u8| ((ok as f32 / exp as f32) * 100.0).round().clamp(0.0, 100.0) as u8;
    let pass_h0 = DiagnosticPass::new(
        40,
        0,
        500,
        "T:40 H:0  500k  [ ██████████████████ ]  (18/18 OK)".to_string(),
        "T:40 H:0 Rate:500k MFM [ ■■■■■■■■■■■■■■■■■■ ] (18/18 OK) IL:1:1 Gap0:1440µs Q:99%".to_string(),
        18,
        18,
        pct(18, 18),
        true,
    );
    let pass_h1 = DiagnosticPass::new(
        40,
        1,
        500,
        "T:40 H:1  500k  [ ██████████░░░░░░░░ ]  (10/18 BAD)".to_string(),
        "T:40 H:1 Rate:500k MFM [ ■■■■■■■■■■░░░░░░░░ ] (10/18 BAD) IL:1:1 Gap0:1440µs Q:70%".to_string(),
        10,
        18,
        pct(10, 18),
        false,
    );
    assert_eq!(pass_h0.quality_pct, 99);
    assert_eq!(pass_h1.quality_pct, 56);
    assert_eq!(pass_h1.crc_errors, 8);

    let mut app = App::new();
    assert!(app.last_pass_h0.is_none());
    assert!(app.last_pass_h1.is_none());

    app.record_pass(pass_h0.clone());
    assert_eq!(app.last_pass_h0, Some(pass_h0.clone()));
    assert!(app.last_pass_h1.is_none());

    app.record_pass(pass_h1.clone());
    assert_eq!(app.last_pass_h0, Some(pass_h0));
    assert_eq!(app.last_pass_h1, Some(pass_h1));

    app.clear_passes();
    assert!(app.last_pass_h0.is_none());
    assert!(app.last_pass_h1.is_none());
}

#[test]
fn synthesised_tracks_have_their_exact_cell_counts() {
    let cases = [
        (PresetProfile::Pc35Hd, 190_784usize),
        (PresetProfile::Pc525Hd, 159_200),
        (PresetProfile::Amiga35Dd, 95_424),
        (PresetProfile::Pc35Dd, 90_944),
        (PresetProfile::Pc525DdOnHd, 90_944),
        (PresetProfile::Cpc30Data, 90_944),
    ];
    for (preset, cells) in cases {
        let mut b = MfmTrackBuffer::new();
        MfmTrackEncoder::encode_track_into(preset, 41, 1, &mut b);
        assert_eq!(b.bits.len(), cells);
        assert_eq!(b.bits.len() % 16, 0);
    }
}
