use aligntester_diag::audio::{calculate_radar_pitch, evaluate_alignment_audio_event, AudioEvent};
use aligntester_diag::heads::{DiagnosticPass, HeadSelection};

#[test]
fn test_radar_pitch_calculation_bounds() {
    assert_eq!(calculate_radar_pitch(0), 250);
    assert_eq!(calculate_radar_pitch(35), 377);
    assert_eq!(calculate_radar_pitch(69), 500);

    assert_eq!(calculate_radar_pitch(70), 600);
    assert_eq!(calculate_radar_pitch(82), 1000);
    assert_eq!(calculate_radar_pitch(94), 1400);

    assert_eq!(calculate_radar_pitch(95), 1500);
    assert_eq!(calculate_radar_pitch(99), 2060);
    assert_eq!(calculate_radar_pitch(100), 2200);
    assert_eq!(calculate_radar_pitch(120), 2200);
}

#[test]
fn test_evaluate_alignment_both_mode_alternation() {
    let pass_h0 = DiagnosticPass::with_details(
        40, 0, 500,
        "T:40 H:0".into(), "T:40 H:0".into(),
        18, 18, 0, 99, true,
    );
    let pass_h1 = DiagnosticPass::with_details(
        40, 1, 500,
        "T:40 H:1".into(), "T:40 H:1".into(),
        15, 18, 3, 82, false,
    );

    let event_h0 = evaluate_alignment_audio_event(HeadSelection::Both, 40, 0, Some(&pass_h0), Some(&pass_h1), 18);
    assert_eq!(event_h0, Some(AudioEvent::AlignmentTone { pitch_hz: calculate_radar_pitch(99) }));
    assert_eq!(event_h0, Some(AudioEvent::AlignmentTone { pitch_hz: 2060 }));

    let event_h1 = evaluate_alignment_audio_event(HeadSelection::Both, 40, 1, Some(&pass_h0), Some(&pass_h1), 18);
    assert_eq!(event_h1, Some(AudioEvent::AlignmentTone { pitch_hz: calculate_radar_pitch(82) }));
    assert_eq!(event_h1, Some(AudioEvent::AlignmentTone { pitch_hz: 1000 }));
}

#[test]
fn test_evaluate_alignment_track_mismatch() {
    let pass_h0 = DiagnosticPass::with_details(
        75, 0, 500,
        "T:75 H:0".into(), "T:75 H:0".into(),
        18, 18, 0, 95, true,
    );
    let pass_h1 = DiagnosticPass::with_details(
        76, 1, 500,
        "T:76 H:1".into(), "T:76 H:1".into(),
        18, 18, 0, 95, true,
    );

    let event = evaluate_alignment_audio_event(HeadSelection::Both, 75, 1, Some(&pass_h0), Some(&pass_h1), 18);
    assert_eq!(event, Some(AudioEvent::TrackMismatch));
}

#[test]
fn test_zero_decoded_sectors_warning_hum() {
    let pass_zero = DiagnosticPass::with_details(
        40, 0, 500,
        "T:40 H:0".into(), "T:40 H:0".into(),
        0, 0, 0, 0, false,
    );

    let event = evaluate_alignment_audio_event(HeadSelection::Head0, 40, 0, Some(&pass_zero), None, 18);
    assert_eq!(event, Some(AudioEvent::ZeroDecodedSectors));

    let event_none = evaluate_alignment_audio_event(HeadSelection::Head0, 40, 0, None, None, 18);
    assert_eq!(event_none, Some(AudioEvent::ZeroDecodedSectors));
}

#[test]
fn test_severe_misalignment_continuous_tone() {
    let pass_severe = DiagnosticPass::with_details(
        40, 0, 500,
        "T:40 H:0".into(), "T:40 H:0".into(),
        6, 18, 2, 40, false,
    );

    let event = evaluate_alignment_audio_event(HeadSelection::Head0, 40, 0, Some(&pass_severe), None, 18);

    let expected_pitch = calculate_radar_pitch(40);
    assert_eq!(event, Some(AudioEvent::AlignmentTone { pitch_hz: expected_pitch }));
    assert!(expected_pitch >= 250 && expected_pitch <= 500);
}

#[test]
fn radar_pitch_is_monotone_on_all_qualities() {
    let mut last = 0;
    for q in 0..=255u8 {
        let p = calculate_radar_pitch(q);
        assert!(p >= last);
        assert!((250..=2200).contains(&p));
        last = p;
    }
    assert_eq!(calculate_radar_pitch(97), 1780);
    assert_eq!(calculate_radar_pitch(71), 633);
}

#[test]
fn head1_selection_uses_head1_pass() {
    let p1 = DiagnosticPass::with_details(12, 1, 250, String::new(), String::new(), 9, 9, 0, 70, true);
    assert_eq!(
        evaluate_alignment_audio_event(HeadSelection::Head1, 12, 0, None, Some(&p1), 9),
        Some(AudioEvent::AlignmentTone { pitch_hz: 600 })
    );
    assert_eq!(
        evaluate_alignment_audio_event(HeadSelection::Head0, 12, 0, None, Some(&p1), 9),
        Some(AudioEvent::ZeroDecodedSectors)
    );
}
