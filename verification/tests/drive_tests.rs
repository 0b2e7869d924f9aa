use aligntester_diag::drive::{
    calculate_seek_timeout_ms, format_gap0_field, get_valid_gap0, RpmMode, RpmSampler,
    DEFAULT_SERIAL_TIMEOUT_MS, DWELL_TIME_TRK0_MS, FORMAT_HEAD_SETTLE_MS,
    FORMAT_HEAD_SWITCH_SETTLE_MS, HEAD_SETTLE_TIME_MS, HEAD_SWITCH_SETTLE_MS, RECALIBRATE_WAIT_MS,
    SEEK_TRK0_TIMEOUT_MS, SPIN_UP_DELAY_MS, STEPPER_WAKEUP_DELAY_MS, SYNC_DELAY_MS,
};
use aligntester_diag::flux::decode_gw_flux_with_index;

#[test]
fn test_adaptive_seek_timeout_calculation() {
    assert!(calculate_seek_timeout_ms(0, 0) >= 1200);
    assert_eq!(calculate_seek_timeout_ms(0, 0), 1200);
    assert_eq!(calculate_seek_timeout_ms(0, 1), 1225);
    assert!(calculate_seek_timeout_ms(0, 49) >= 2400);
    assert_eq!(calculate_seek_timeout_ms(0, 49), 2425);
    assert!(calculate_seek_timeout_ms(80, 0) >= 3200);
    assert_eq!(calculate_seek_timeout_ms(80, 0), 3200);
    assert_eq!(calculate_seek_timeout_ms(0, 80), 3200);
}

#[test]
fn test_rpm_sampler_smoothing() {
    let mut sampler = RpmSampler::new(3);
    sampler.add_sample(300);
    sampler.add_sample(302);
    sampler.add_sample(298);
    assert_eq!(sampler.average(), 300);

    sampler.add_sample(306);
    assert_eq!(sampler.average(), 302);
}

#[test]
fn test_decode_gw_flux_with_index_packets() {
    let raw = vec![
        0x00, 0x01, 0x02, 0x00, 0x00, 0x00,
        100, 100,
        0x00, 0x01, 0x82, 0x00, 0x00, 0x00,
        0x00, 0x00,
    ];
    let decoded = decode_gw_flux_with_index(&raw);
    assert_eq!(decoded.index_timestamps.len(), 2);
    assert_eq!(decoded.index_timestamps[0], 1);
    assert_eq!(decoded.index_timestamps[1], 65);
    assert_eq!(decoded.index_flux_indices, vec![0, 2]);
    assert_eq!(decoded.flux.len(), 2);
    assert_eq!(decoded.flux[0], 100);
    assert_eq!(decoded.flux[1], 100);
}

#[test]
fn test_decode_gw_flux_with_space_packets() {
    let raw = vec![
        0x00, 0x02, 0x02, 0x00, 0x00, 0x00,
        50,
        0x00, 0x00,
    ];
    let decoded = decode_gw_flux_with_index(&raw);
    assert_eq!(decoded.flux.len(), 1);
    assert_eq!(decoded.flux[0], 51);
}

#[test]
fn test_electromechanical_delays_constants() {
    assert_eq!(HEAD_SWITCH_SETTLE_MS, 1);
    assert_eq!(STEPPER_WAKEUP_DELAY_MS, 15);
    assert_eq!(HEAD_SETTLE_TIME_MS, 30);
    assert_eq!(DEFAULT_SERIAL_TIMEOUT_MS, 1000);
    assert_eq!(SPIN_UP_DELAY_MS, 350);
    assert_eq!(SYNC_DELAY_MS, 30);
    assert_eq!(DWELL_TIME_TRK0_MS, 60);
    assert_eq!(SEEK_TRK0_TIMEOUT_MS, 3000);
    assert_eq!(RECALIBRATE_WAIT_MS, 200);
}

#[test]
fn test_adaptive_gap0_bounds() {
    assert_eq!(get_valid_gap0(500, 1440), Some(1440));
    assert_eq!(get_valid_gap0(500, 500), Some(500));
    assert_eq!(get_valid_gap0(500, 3000), Some(3000));
    assert_eq!(get_valid_gap0(500, 499), None);
    assert_eq!(get_valid_gap0(500, 3001), None);

    assert_eq!(get_valid_gap0(250, 2880), Some(2880));
    assert_eq!(get_valid_gap0(250, 1000), Some(1000));
    assert_eq!(get_valid_gap0(250, 6000), Some(6000));
    assert_eq!(get_valid_gap0(250, 999), None);
    assert_eq!(get_valid_gap0(250, 6001), None);

    assert_eq!(get_valid_gap0(300, 2400), Some(2400));
    assert_eq!(get_valid_gap0(300, 800), Some(800));
    assert_eq!(get_valid_gap0(300, 5000), Some(5000));
    assert_eq!(get_valid_gap0(300, 799), None);
    assert_eq!(get_valid_gap0(300, 5001), None);
}

#[test]
fn test_gap0_measurement_from_index_offset() {
    let mut raw = vec![100; 5];
    raw.extend_from_slice(&[0x00, 0x01, 0x02, 0x00, 0x00, 0x00]);
    for _ in 0..20 {
        raw.push(250);
        raw.push(39);
    }
    raw.extend_from_slice(&[0x00, 0x00]);

    let decoded = decode_gw_flux_with_index(&raw);
    assert_eq!(decoded.index_flux_indices, vec![5]);
    assert_eq!(decoded.flux.len(), 25);

    let flux_from_idx = &decoded.flux[decoded.index_flux_indices[0]..];
    assert_eq!(flux_from_idx.len(), 20);
}

#[test]
fn test_nominal_capture_timing_parameters() {
    assert_eq!(DEFAULT_SERIAL_TIMEOUT_MS, 1000);
    assert_eq!(SPIN_UP_DELAY_MS, 350);
    assert_eq!(STEPPER_WAKEUP_DELAY_MS, 15);
}

#[test]
fn test_head_switch_settle_delay_constant() {
    assert_eq!(HEAD_SWITCH_SETTLE_MS, 1);
}

#[test]
fn test_stepper_wakeup_delay_constant() {
    assert_eq!(STEPPER_WAKEUP_DELAY_MS, 15);
}

#[test]
fn test_format_timing_constants() {
    assert_eq!(FORMAT_HEAD_SETTLE_MS, 100);
    assert_eq!(FORMAT_HEAD_SWITCH_SETTLE_MS, 50);
}

#[test]
fn test_single_rev_duration_strict_extraction() {
    let idx_start: u32 = 1_000_000;
    let idx_end: u32 = 15_400_000;
    let sample_rate = 72_000_000.0;
    let delta = (idx_end.wrapping_sub(idx_start)) & 0x0FFF_FFFF;
    let rev_time_ms = (delta as f64 / sample_rate) * 1000.0;
    assert!((rev_time_ms - 200.0).abs() < 0.001);

    let rpm_instant = 60_000.0 / rev_time_ms;
    assert!((rpm_instant - 300.0).abs() < 0.001);
}

#[test]
fn test_format_total_passes_calculation() {
    let target_80 = 80u8;
    let heads = 2u8;
    let passes_80 = (target_80 as usize) * (heads as usize);
    assert_eq!(passes_80, 160);

    let target_40 = 40u8;
    let passes_40 = (target_40 as usize) * (heads as usize);
    assert_eq!(passes_40, 80);

    let target_84 = 84u8;
    let passes_84 = (target_84 as usize) * (heads as usize);
    assert_eq!(passes_84, 168);

    let target_42 = 42u8;
    let passes_42 = (target_42 as usize) * (heads as usize);
    assert_eq!(passes_42, 84);

    let pct_0 = (0_f32 / passes_80 as f32) * 100.0;
    assert_eq!(pct_0, 0.0);

    let pct_half = (40_f32 / passes_40 as f32) * 100.0;
    assert_eq!(pct_half, 50.0);

    let pct_100 = (passes_80 as f32 / passes_80 as f32) * 100.0;
    assert_eq!(pct_100, 100.0);
}

#[test]
fn gap0_window_for_other_rates_and_field_text() {
    // 720000 / 1000 = 720 nominal: window [324, 1440].
    assert_eq!(get_valid_gap0(1000, 324), Some(324));
    assert_eq!(get_valid_gap0(1000, 323), None);
    assert_eq!(get_valid_gap0(1000, 1440), Some(1440));
    assert_eq!(get_valid_gap0(1000, 1441), None);
    assert_eq!(format_gap0_field(Some(1440)), "Gap0:1440µs");
    assert_eq!(format_gap0_field(None), "Gap0:----");
}

#[test]
fn rpm_mode_cycles_through_four_sources() {
    let mut m = RpmMode::default();
    assert_eq!(m, RpmMode::Auto);
    let mut names = Vec::new();
    for _ in 0..4 {
        names.push(m.as_str());
        m = m.cycle();
    }
    assert_eq!(m, RpmMode::Auto);
    assert_eq!(names, vec!["Auto", "HW Index", "SW Sync", "Dual"]);
}

#[test]
fn rpm_sampler_empty_and_clear() {
    let mut s = RpmSampler::new(2);
    assert_eq!(s.average(), 0);
    s.add_sample(301);
    assert_eq!(s.average(), 301);
    s.clear();
    assert_eq!(s.average(), 0);
}
