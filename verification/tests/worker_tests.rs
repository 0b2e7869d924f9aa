use aligntester_diag::audio::{calculate_radar_pitch, evaluate_alignment_audio_event, AudioEvent};
use aligntester_diag::control::{
    clamp_drive_unit, is_exit, next_drive_unit, outcome_message, recalibrate_return,
    revolution_index_delta, rpm_cycle_plan, rpm_from_index_delta, rpm_tenths_display, DriveState,
    HwCmd, RecalibrateOutcome, Reply, RpmCyclePlan, TrackRange, WorkerCycle,
};
use aligntester_diag::diag::TrackAnalysisResult;
use aligntester_diag::drive::{
    calculate_seek_timeout, DisplayMode, DriveReadStatus, HwActivity, RpmMode, SectorInfo,
};
use aligntester_diag::flux::DecodedGwFlux;
use aligntester_diag::heads::{Action, DiagnosticPass, HeadSelection, ViewMode};
use aligntester_diag::process::{
    pll_clock_for_bitrate, process_track_diagnostic, read_is_blank, start_revolution_progress,
    update_revolution_progress,
};
use aligntester_diag::protocol::{ack_guard_timeout, BusType, DiskFormat, PresetProfile, StepMode};
use aligntester_diag::sectors::DecodedSector;
use aligntester_diag::stats::both_mode_counts;
use aligntester_diag::session::App;
use std::time::Duration;

fn quality_of(on: u32, expected: u8) -> u8 {
    let exp = if expected > 0 { expected } else { 18 };
    ((on as f32 / exp as f32) * 100.0).round().clamp(0.0, 100.0) as u8
}

fn on_track(diag: &TrackAnalysisResult, target: u8) -> u32 {
    diag.sectors.iter().filter(|s| s.crc_ok && s.cyl == target).count() as u32
}

fn process(status: &mut DriveState, diag: &TrackAnalysisResult) -> Option<AudioEvent> {
    let target = if status.flags.target_track > 0 { status.flags.target_track } else { status.flags.track };
    let q = quality_of(on_track(diag, target), diag.sector_count);
    process_track_diagnostic(status, diag, q)
}

/// Percentage of `ok` against `expected`, as the program displays it.
fn pct(ok: u32, expected: u32) -> f32 {
    if expected > 0 {
        (ok as f32 / expected as f32) * 100.0
    } else {
        0.0
    }
}

fn sectors_on(cyl: u8, head: u8) -> Vec<DecodedSector> {
    (1..=18).map(|id| DecodedSector::new(cyl, head, id, 2, true)).collect()
}

#[test]
fn test_write_protect_status_fields() {
    let mut status = DriveState::default();
    assert!(status.flags.write_protect);
    assert!(status.flags.write_protected);

    status.flags.write_protect = false;
    status.flags.write_protected = false;
    assert!(!status.flags.write_protect);
    assert!(!status.flags.write_protected);
}

#[test]
fn test_toggle_motor_immediate_state_transition() {
    let mut status = DriveState::default();
    status.flags.motor_on = true;
    status.flags.activity = HwActivity::Idle;

    status.flags.motor_on = !status.flags.motor_on;
    status.flags.activity = HwActivity::Stopped;
    assert!(!status.flags.motor_on);
    assert_eq!(status.flags.activity, HwActivity::Stopped);

    status.flags.motor_on = !status.flags.motor_on;
    status.flags.activity = HwActivity::Idle;
    assert!(status.flags.motor_on);
    assert_eq!(status.flags.activity, HwActivity::Idle);
}

#[test]
fn test_drive_status_stop_state() {
    let mut status = DriveState::default();
    status.flags.motor_on = true;
    status.flags.analyzing = true;
    status.flags.mode = DisplayMode::Analyze;
    status.flags.activity = HwActivity::ReadingAnalyzing;
    status.flags.rpm = 300;
    status.flags.index = true;
    status.flags.track = 40;
    status.flags.head = 1;
    status.flags.unit_id = 0;
    status.log_msg = String::from("Analyzing...");

    status.flags.motor_on = false;
    status.flags.analyzing = false;
    status.flags.mode = DisplayMode::Off;
    status.flags.activity = HwActivity::Stopped;
    status.flags.rpm = 0;
    status.flags.index = false;
    status.sectors.clear();
    status.flags.sectors_known = false;
    status.log_msg = String::from("Stop / Motor OFF (Safe to change disk)");

    assert!(!status.flags.motor_on);
    assert!(!status.flags.analyzing);
    assert_eq!(status.flags.mode, DisplayMode::Off);
    assert_eq!(status.flags.activity, HwActivity::Stopped);
    assert_eq!(status.flags.rpm, 0);
    assert!(!status.flags.index);
    assert_eq!(status.flags.track, 40);
    assert_eq!(status.flags.head, 1);
    assert_eq!(status.log_msg, "Stop / Motor OFF (Safe to change disk)");
}

#[test]
fn test_toggle_motor_non_destructive() {
    let mut status = DriveState::default();
    status.flags.motor_on = true;
    status.flags.track = 40;
    status.flags.head = 1;
    status.flags.rpm = 300;
    status.rpm_display = String::from("300.0 RPM");
    status.sectors = vec![SectorInfo { track: 40, sec_id: 1, size_code: 2, status_code: 0, crc_ok: true }];
    status.flags.sectors_known = true;

    status.flags.motor_on = false;
    status.flags.index = false;
    status.flags.analyzing = false;
    if status.flags.mode != DisplayMode::Off {
        status.flags.mode = DisplayMode::Off;
    }
    status.flags.activity = HwActivity::Stopped;

    assert!(!status.flags.motor_on);
    assert_eq!(status.flags.track, 40);
    assert_eq!(status.flags.head, 1);
    assert_eq!(status.rpm_display, "300.0 RPM");
    assert_eq!(status.sectors.len(), 1);
    assert!(status.flags.sectors_known);
}

#[test]
fn motor_off_reply_keeps_track_view() {
    let mut status = DriveState::default();
    status.flags.motor_on = true;
    status.flags.track = 40;
    status.flags.head = 1;
    status.rpm_display = String::from("300.0 RPM");
    status.sectors = vec![SectorInfo { track: 40, sec_id: 1, size_code: 2, status_code: 0, crc_ok: true }];
    status.flags.sectors_known = true;
    status.apply_motor_reply(false, true, &Reply::Ack(0));
    assert!(!status.flags.motor_on);
    assert_eq!(status.flags.activity, HwActivity::Stopped);
    assert_eq!(status.flags.track, 40);
    assert_eq!(status.rpm_display, "300.0 RPM");
    assert_eq!(status.sectors.len(), 1);
    assert!(status.flags.sectors_known);
    assert_eq!(status.log_msg, "Motor OFF (M key)");
}

#[test]
fn motor_reply_errors_only_change_the_message() {
    let mut status = DriveState::default();
    status.apply_motor_reply(true, true, &Reply::Ack(7));
    assert!(!status.flags.motor_on);
    assert_eq!(status.log_msg, "Motor Toggle Error (code 7)");
    status.apply_motor_reply(true, false, &Reply::IoError(String::from("timed out")));
    assert!(!status.flags.motor_on);
    assert_eq!(status.log_msg, "Motor I/O Error: timed out");
    status.apply_motor_reply(true, false, &Reply::Ack(0));
    assert!(status.flags.motor_on && status.flags.drive_select && status.flags.has_disk);
    assert_eq!(status.flags.activity, HwActivity::Idle);
    assert_eq!(status.log_msg, "Motor ON");
}

#[test]
fn stop_after_live_measurement_shows_average() {
    let mut status = DriveState::default();
    status.flags.motor_on = true;
    status.flags.mode = DisplayMode::RpmMeasure;
    status.flags.activity = HwActivity::MeasuringRpm;
    status.flags.rpm_samples = 1;
    status.flags.rpm_avg_tenths = 3005;
    status.apply_stop();
    assert!(!status.flags.motor_on);
    assert_eq!(status.flags.mode, DisplayMode::Off);
    assert_eq!(status.flags.activity, HwActivity::Stopped);
    assert_eq!(status.rpm_display, "300.5 RPM");
    assert_eq!(status.log_msg, "Stop / Motor OFF (Safe to change disk)");
}

#[test]
fn measure_rpm_key_starts_and_ends_measurement() {
    let mut status = DriveState::default();
    status.apply_measure_rpm();
    assert!(status.flags.motor_on);
    assert_eq!(status.flags.mode, DisplayMode::RpmMeasure);
    assert_eq!(status.flags.activity, HwActivity::MeasuringRpm);
    assert_eq!(
        status.log_msg,
        "Live RPM Test: High-precision continuous measurement for fine mechanical tuning"
    );
    status.flags.rpm_samples = 3;
    status.flags.rpm_avg_tenths = 2999;
    status.apply_measure_rpm();
    assert_eq!(status.flags.mode, DisplayMode::Off);
    assert_eq!(status.flags.activity, HwActivity::Idle);
    assert_eq!(status.rpm_display, "299.9 RPM");
    assert_eq!(status.log_msg, "Live RPM test stopped");
}

#[test]
fn rpm_mode_change_clears_measurements() {
    let mut status = DriveState::default();
    status.flags.rpm_samples = 4;
    status.flags.rpm_sw_samples = 2;
    status.apply_rpm_mode(RpmMode::Auto.cycle());
    assert_eq!(status.flags.rpm_mode, RpmMode::HwIndex);
    assert_eq!(status.flags.rpm_samples, 0);
    assert_eq!(status.flags.rpm_sw_samples, 0);
    assert_eq!(status.log_msg, "RPM Mode set to [HW Index]");
}

#[test]
fn test_panic_reset_state_transition() {
    let mut status = DriveState::default();
    status.flags.motor_on = true;
    status.flags.analyzing = true;
    status.flags.mode = DisplayMode::Analyze;
    status.flags.activity = HwActivity::ReadingAnalyzing;
    status.flags.rpm = 300;
    status.rpm_display = "300.0 RPM".to_string();
    status.flags.head = 1;

    status.flags.motor_on = false;
    status.flags.analyzing = false;
    status.flags.mode = DisplayMode::Off;
    status.flags.activity = HwActivity::Idle;
    status.flags.rpm = 0;
    status.rpm_display = String::from("--- RPM");
    status.flags.rpm_samples = 0;
    status.flags.index = false;
    status.sectors.clear();
    status.flags.sectors_known = false;
    status.flags.on_track_count = 0;
    status.flags.off_track_count = 0;
    status.flags.crc_err_count = 0;
    status.flags.head = 0;
    status.flags.head_select = HeadSelection::Head0;
    status.last_pass_h0 = None;
    status.last_pass_h1 = None;
    status.log_msg = String::from("PANIC RESET: Hardware reset & serial buffers purged successfully");

    assert!(!status.flags.motor_on);
    assert!(!status.flags.analyzing);
    assert_eq!(status.flags.mode, DisplayMode::Off);
    assert_eq!(status.flags.activity, HwActivity::Idle);
    assert_eq!(status.flags.rpm, 0);
    assert_eq!(status.rpm_display, "--- RPM");
    assert_eq!(status.flags.head, 0);
    assert_eq!(status.flags.head_select, HeadSelection::Head0);
    assert_eq!(status.flags.on_track_count, 0);
    assert_eq!(status.flags.crc_err_count, 0);
    assert_eq!(status.log_msg, "PANIC RESET: Hardware reset & serial buffers purged successfully");
}

#[test]
fn panic_reset_transition_clears_everything() {
    let mut status = DriveState::default();
    status.flags.motor_on = true;
    status.flags.analyzing = true;
    status.flags.mode = DisplayMode::Analyze;
    status.flags.rpm = 300;
    status.flags.head = 1;
    status.flags.head_select = HeadSelection::Both;
    status.flags.crc_err_count = 4;
    status.sectors = vec![SectorInfo { track: 1, sec_id: 1, size_code: 2, status_code: 0, crc_ok: true }];
    status.apply_panic_reset();
    assert!(!status.flags.motor_on && !status.flags.analyzing);
    assert_eq!(status.flags.mode, DisplayMode::Off);
    assert_eq!(status.flags.activity, HwActivity::Idle);
    assert_eq!(status.flags.rpm, 0);
    assert_eq!(status.flags.head, 0);
    assert_eq!(status.flags.head_select, HeadSelection::Head0);
    assert_eq!(status.flags.crc_err_count, 0);
    assert!(status.sectors.is_empty());
    assert_eq!(status.rpm_display, "--- RPM");
    assert_eq!(status.off_track_details, "NONE");
    assert_eq!(status.log_msg, "PANIC RESET: Hardware reset & serial buffers purged successfully");
}

#[test]
fn test_panic_reset_cmd_structure() {
    let (tx_cmd, rx_cmd) = crossbeam_channel::unbounded::<HwCmd>();
    tx_cmd.send(HwCmd::PanicReset).unwrap();
    assert!(matches!(rx_cmd.try_recv().unwrap(), HwCmd::PanicReset));
}

#[test]
fn test_motor_spin_up_initialization_delays() {
    let mut status = DriveState::default();
    status.flags.motor_on = false;
    status.flags.analyzing = false;
    status.flags.mode = DisplayMode::Off;
    status.flags.activity = HwActivity::Stopped;
    status.flags.unit_id = 0;
    status.flags.head = 0;

    status.flags.motor_on = true;
    status.flags.drive_select = true;
    assert_eq!(aligntester_diag::drive::SPIN_UP_DELAY_MS, 350);
    assert_eq!(aligntester_diag::drive::SYNC_DELAY_MS, 30);

    status.flags.analyzing = true;
    status.flags.mode = DisplayMode::Analyze;
    status.flags.activity = HwActivity::ReadingAnalyzing;

    assert!(status.flags.motor_on);
    assert!(status.flags.drive_select);
    assert!(status.flags.analyzing);
    assert_eq!(status.flags.mode, DisplayMode::Analyze);
    assert_eq!(status.display_mode(), DisplayMode::Analyze);
    assert_eq!(status.flags.activity, HwActivity::ReadingAnalyzing);
}

#[test]
fn test_start_analysis_synchronous_spinup_sequence() {
    let mut status = DriveState::default();
    status.flags.drive_unit = 0;
    status.flags.unit_id = 0;
    let was_motor_off = !status.flags.motor_on;
    assert!(was_motor_off);

    status.flags.motor_on = true;
    status.flags.drive_select = true;
    assert_eq!(aligntester_diag::drive::SPIN_UP_DELAY_MS, 350);
    status.flags.analyzing = true;
    status.flags.mode = DisplayMode::Analyze;
    status.flags.activity = HwActivity::ReadingAnalyzing;

    assert!(status.flags.motor_on);
    assert!(status.flags.analyzing);
    assert_eq!(status.flags.mode, DisplayMode::Analyze);
    assert_eq!(status.display_mode(), DisplayMode::Analyze);
    assert_eq!(status.flags.activity, HwActivity::ReadingAnalyzing);
}

#[test]
fn start_reading_from_cold_motor() {
    let mut status = DriveState::default();
    status.apply_start_reading(false, Some(false));
    assert!(status.flags.motor_on && status.flags.drive_select && status.flags.analyzing);
    assert!(!status.flags.write_protect && !status.flags.write_protected);
    assert_eq!(status.flags.mode, DisplayMode::Analyze);
    assert_eq!(status.flags.activity, HwActivity::ReadingAnalyzing);
    assert_eq!(status.log_msg, "Analyze: Starting alignment diagnostics...");
    status.apply_start_reading(true, None);
    assert_eq!(status.flags.mode, DisplayMode::ReadData);
    assert!(!status.flags.write_protect);
    assert_eq!(status.log_msg, "read Data: Starting sector read...");
}

#[test]
fn seek_clamps_and_reports() {
    let mut status = DriveState::default();
    status.flags.step_mode = StepMode::Double;
    status.flags.track = 10;
    status.last_pass_h0 = Some(DiagnosticPass::with_details(
        10, 0, 500, "a".into(), "b".into(), 18, 18, 0, 99, true,
    ));
    let plan = status.begin_seek(50);
    assert_eq!(plan.track, 41);
    assert_eq!(plan.physical_cylinder, 82);
    assert_eq!(plan.timeout_ms, 1200 + 25 * 62);
    assert_eq!(status.flags.track, 41);
    assert_eq!(status.flags.target_track, 41);
    assert_eq!(status.flags.activity, HwActivity::Seeking);
    assert!(status.last_pass_h0.is_none());
    status.finish_seek(&Reply::Ack(0), Some(true));
    assert_eq!(status.log_msg, "Seek -> Track 41");
    assert_eq!(status.flags.activity, HwActivity::Stopped);
    assert!(status.flags.write_protect);
    status.finish_seek(&Reply::Ack(11), None);
    assert_eq!(status.log_msg, "Seek Error (code 11)");
}

#[test]
fn seek_ends_live_measurement() {
    let mut status = DriveState::default();
    status.flags.motor_on = true;
    status.flags.mode = DisplayMode::RpmMeasure;
    status.flags.rpm_samples = 1;
    status.flags.rpm_avg_tenths = 3000;
    let _ = status.begin_seek(5);
    status.finish_seek(&Reply::IoError(String::from("broken pipe")), None);
    assert_eq!(status.flags.mode, DisplayMode::Off);
    assert_eq!(status.flags.activity, HwActivity::Idle);
    assert_eq!(status.rpm_display, "300.0 RPM");
    assert_eq!(status.log_msg, "Seek I/O Error: broken pipe");
}

#[test]
fn recalibration_outcomes() {
    let mut status = DriveState::default();
    status.flags.track = 12;
    status.flags.target_track = 30;
    status.begin_recalibrate();
    assert_eq!(status.flags.activity, HwActivity::Seeking);
    assert_eq!(recalibrate_return(12, StepMode::Double), Some((24, 1800)));
    assert_eq!(recalibrate_return(0, StepMode::Single), None);
    status.finish_recalibrate(&RecalibrateOutcome::Returned(Reply::Ack(0)), None);
    assert_eq!(status.flags.target_track, 12);
    assert_eq!(status.log_msg, "Recalibrate Track 0 -> Track 12");
    status.finish_recalibrate(&RecalibrateOutcome::Track0Failed(String::from("gone")), None);
    assert_eq!(status.log_msg, "Recalibrate Track 0 I/O Error: gone");
    status.finish_recalibrate(&RecalibrateOutcome::Returned(Reply::Ack(3)), None);
    assert_eq!(status.log_msg, "Recalibrate Error (code 3)");
}

#[test]
fn zero_track_outcome() {
    let mut status = DriveState::default();
    status.flags.track = 33;
    status.flags.target_track = 33;
    status.begin_zero_track();
    assert_eq!(status.flags.activity, HwActivity::Seeking);
    status.finish_zero_track(&Reply::Ack(0), Some(false));
    assert_eq!(status.flags.track, 0);
    assert!(status.flags.trk0);
    assert_eq!(status.log_msg, "Zero Track -> Track 00");
    assert_eq!(status.flags.activity, HwActivity::Stopped);
}

#[test]
fn head_commands() {
    let mut status = DriveState::default();
    status.apply_set_head(5, &Reply::Ack(0));
    assert_eq!(status.flags.head, 1);
    assert_eq!(status.flags.head_select, HeadSelection::Head1);
    assert_eq!(status.log_msg, "Head set -> 1");
    status.apply_set_head(0, &Reply::Ack(2));
    assert_eq!(status.flags.head, 1);
    assert_eq!(status.log_msg, "Head 0 Error (code 2)");
    status.apply_head_selection(HeadSelection::Both, &Reply::Ack(0));
    assert_eq!(status.flags.head, 0);
    assert_eq!(status.log_msg, "Head selection -> BOTH (0+1) [Alternating mode]");
    status.apply_head_selection(HeadSelection::Head1, &Reply::IoError(String::from("x")));
    assert_eq!(status.flags.head_select, HeadSelection::Head1);
    assert_eq!(status.flags.head, 0);
    assert_eq!(status.log_msg, "Head I/O Error: x");
}

#[test]
fn test_head_selection_transitions_and_alternation_both_mode() {
    let mut status = DriveState::default();
    status.flags.track = 20;
    status.flags.head_select = HeadSelection::Head0;
    status.flags.head = 0;

    status.flags.head_select = status.flags.head_select.toggle_next();
    assert_eq!(status.flags.head_select, HeadSelection::Head1);
    status.flags.head_select = status.flags.head_select.toggle_next();
    assert_eq!(status.flags.head_select, HeadSelection::Both);
    status.flags.head_select = status.flags.head_select.toggle_next();
    assert_eq!(status.flags.head_select, HeadSelection::Head0);

    status.flags.head_select = HeadSelection::Both;
    status.flags.head = 0;
    let next_head = if status.flags.head == 0 { 1 } else { 0 };
    status.flags.head = next_head;
    assert_eq!(status.flags.head, 1);
    let next_head = if status.flags.head == 0 { 1 } else { 0 };
    status.flags.head = next_head;
    assert_eq!(status.flags.head, 0);
}

#[test]
fn analysis_head_alternates_in_both_mode() {
    let mut status = DriveState::default();
    assert_eq!(status.next_analysis_head(), None);
    status.flags.head_select = HeadSelection::Both;
    assert_eq!(status.next_analysis_head(), Some(1));
    status.flags.head = 1;
    assert_eq!(status.next_analysis_head(), Some(0));
}

#[test]
fn settings_commands() {
    let mut status = DriveState::default();
    status.apply_verbose(true);
    assert!(status.flags.verbose_mode);
    assert_eq!(status.log_msg, "Verbose: ON");
    status.apply_beep(false);
    assert_eq!(status.log_msg, "Beep: OFF");
    status.apply_disk_format(DiskFormat::AmigaDos);
    assert_eq!(status.log_msg, "Format Profile: AmigaDOS (Paula)");
    status.flags.drive_unit = 3;
    status.apply_bus_type(BusType::IbmPc);
    assert_eq!(status.flags.drive_unit, 0);
    assert_eq!(status.log_msg, "Bus Type: IBM PC (IBM PC Standard)");
    status.flags.track = 70;
    status.flags.target_track = 60;
    status.apply_step_mode(StepMode::Double);
    assert_eq!((status.flags.track, status.flags.target_track), (41, 41));
    assert_eq!(status.log_msg, "Step Rate: 2:1 (Double)");
}

#[test]
fn verbose_switch_shows_matching_history() {
    let mut status = DriveState::default();
    status.sector_log_standard = vec![String::from("s1")];
    status.sector_log_verbose = vec![String::from("v1")];
    status.apply_verbose(true);
    assert_eq!(status.sector_log, vec![String::from("v1")]);
    status.apply_verbose(false);
    assert_eq!(status.sector_log, vec![String::from("s1")]);
    assert_eq!(status.log_msg, "Verbose: OFF");
}

#[test]
fn preset_change_sets_profile_rate_and_tracks() {
    let mut status = DriveState::default();
    status.flags.track = 70;
    status.flags.target_track = 75;
    status.apply_preset(PresetProfile::Pc525DdOnHd);
    assert_eq!(status.flags.preset, PresetProfile::Pc525DdOnHd);
    assert_eq!(status.flags.step_mode, StepMode::Double);
    assert_eq!(status.flags.bitrate, 300);
    assert!(!status.flags.density);
    assert_eq!(status.flags.disk_format, DiskFormat::IbmPc);
    assert_eq!((status.flags.track, status.flags.target_track), (39, 39));
    assert_eq!(status.log_msg, "Preset: 5.25\" DD on HD (360K) (IBM PC | 2:1 (Double) | 300k)");
    status.apply_preset(PresetProfile::Pc35Hd);
    assert!(status.flags.density);
    assert_eq!(status.flags.bitrate, 500);
}

#[test]
fn unit_selection_recalibrates_to_track_zero() {
    let mut status = DriveState::default();
    status.flags.track = 20;
    status.flags.motor_on = true;
    status.flags.mode = DisplayMode::Analyze;
    status.apply_unit_selected(next_drive_unit(BusType::IbmPc, 0), true, None);
    assert_eq!(status.flags.drive_unit, 1);
    assert_eq!(status.flags.track, 0);
    assert_eq!(status.flags.mode, DisplayMode::Off);
    assert_eq!(status.flags.activity, HwActivity::Idle);
    assert_eq!(status.log_msg, "Drive 1 (B:) selected & Recalibrated Track 0");
    status.flags.bus_type = BusType::Shugart;
    status.apply_unit_selected(clamp_drive_unit(BusType::Shugart, 9), false, None);
    assert_eq!(status.flags.drive_unit, 3);
    assert_eq!(status.log_msg, "Select Unit 3 (DS3) & Recalibrate Track 0");
}

#[test]
fn worker_start_up_sequence() {
    let mut status = DriveState::new_worker(7, BusType::IbmPc, StepMode::Single, PresetProfile::Amiga35Dd);
    assert_eq!(status.flags.drive_unit, 1);
    assert_eq!(status.flags.disk_format, DiskFormat::AmigaDos);
    assert_eq!(status.flags.bitrate, 250);
    assert!(!status.flags.density);
    assert_eq!(status.flags.activity, HwActivity::WaitingPort);
    status.apply_port_failure("COM3", false);
    assert_eq!(status.log_msg, "Port COM3 not responding to INFO");
    status.apply_connected("COM3");
    assert!(status.flags.connected);
    assert_eq!(status.log_msg, "Connected to COM3");
    status.apply_bus_enabled("COM3");
    assert_eq!(status.log_msg, "Bus enabled (IBM PC) on COM3");
    status.apply_drive_selected();
    assert_eq!(status.log_msg, "Drive 1 selected");
    status.apply_motor_started();
    assert!(status.flags.motor_on);
    assert_eq!(status.rpm_display, "... RPM");
    status.apply_ready("COM3", Some(false));
    assert_eq!(status.flags.activity, HwActivity::Idle);
    assert_eq!(status.log_msg, "Ready on COM3 - Track 0");
    assert_eq!(status.next_cycle(), WorkerCycle::Rest);
    status.flags.analyzing = true;
    assert_eq!(status.next_cycle(), WorkerCycle::ReadTrack);
    status.begin_cycle(false);
    assert_eq!(status.flags.io_cycle, 1);
}

#[test]
fn cycle_end_with_motor_off() {
    let mut status = DriveState::default();
    status.flags.index = true;
    status.flags.activity = HwActivity::Idle;
    status.settle_after_cycle();
    assert!(!status.flags.index);
    assert_eq!(status.flags.activity, HwActivity::Stopped);
    status.flags.activity = HwActivity::Seeking;
    status.settle_after_cycle();
    assert_eq!(status.flags.activity, HwActivity::Seeking);
}

#[test]
fn rpm_from_index_pulses() {
    assert_eq!(rpm_from_index_delta(14_400_000), Some(300));
    assert_eq!(rpm_from_index_delta(12_000_000), Some(360));
    assert_eq!(rpm_from_index_delta(0), None);
    assert_eq!(rpm_from_index_delta(100_000_000), None);
    let decoded = DecodedGwFlux {
        flux: vec![10, 20, 30, 40],
        index_timestamps: vec![5, 65],
        index_flux_indices: vec![1, 3],
    };
    assert_eq!(revolution_index_delta(&decoded), 50);
    let decoded = DecodedGwFlux {
        flux: vec![10],
        index_timestamps: vec![0x0FFF_FFF0, 0x10],
        index_flux_indices: vec![0],
    };
    assert_eq!(revolution_index_delta(&decoded), 0x20);
    assert_eq!(rpm_cycle_plan(RpmMode::Auto, false), RpmCyclePlan::HeaderFallback);
    assert_eq!(rpm_cycle_plan(RpmMode::HwIndex, false), RpmCyclePlan::NoReading);
    assert_eq!(rpm_cycle_plan(RpmMode::Dual, true), RpmCyclePlan::Dual);
    assert_eq!(rpm_tenths_display(3012), "301.2 RPM");
}

#[test]
fn analysis_messages() {
    let mut status = DriveState::default();
    status.flags.sectors_known = true;
    status.flags.mode = DisplayMode::ReadData;
    status.sectors = vec![SectorInfo { track: 0, sec_id: 1, size_code: 2, status_code: 0, crc_ok: true }; 9];
    status.flags.density = false;
    status.apply_analysis_message(250, true, DriveReadStatus::Good, "100.0");
    assert_eq!(status.log_msg, "read Data: 9 Sectors read (Diskette 250k 720K DD)");
    status.flags.mode = DisplayMode::Analyze;
    status.apply_analysis_message(250, true, DriveReadStatus::Good, "88.9");
    assert_eq!(status.log_msg, "Analyze: 250k (720K DD) - 9 real sectors (Alignment: 88.9%)");
    status.flags.sectors_known = false;
    status.flags.track = 4;
    status.apply_analysis_message(250, false, DriveReadStatus::Good, "0.0");
    assert_eq!(status.log_msg, "Analyze: Track 4 -> No Disk / No Index pulse");
    status.apply_analysis_message(250, true, DriveReadStatus::Good, "0.0");
    assert_eq!(status.log_msg, "Analyze: Track 4 -> ? (No valid IDAM sector found)");
    status.apply_rpm_io_error("reset");
    assert_eq!(status.log_msg, "RPM Test I/O Error: reset");
}

#[test]
fn exchange_messages_and_commands() {
    assert_eq!(outcome_message(String::from("ok"), "Seek", "Seek", &Reply::Ack(0)), "ok");
    assert_eq!(outcome_message(String::from("ok"), "Seek", "Seek", &Reply::Ack(255)), "Seek Error (code 255)");
    assert!(is_exit(&HwCmd::Exit));
    assert!(!is_exit(&HwCmd::Stop));
    assert_eq!(TrackRange::new(10, 20), TrackRange { start: 10, end: 20 });
    assert_eq!(calculate_seek_timeout(0, 10), Duration::from_millis(1450));
    assert_eq!(ack_guard_timeout(), Duration::from_millis(500));
}

#[test]
fn test_process_track_diagnostic_default_standard_mode() {
    let mut status = DriveState::default();
    status.flags.track = 10;
    status.flags.target_track = 10;
    status.flags.head = 0;
    status.flags.verbose_mode = false;
    status.flags.beep_enabled = true;
    status.flags.sector_count = 18;

    let diag = TrackAnalysisResult {
        has_disk: true,
        bitrate: 500,
        sector_count: 3,
        sectors_known: true,
        sectors: vec![
            DecodedSector::new(10, 0, 1, 2, true),
            DecodedSector::new(10, 0, 2, 2, false),
            DecodedSector::new(9, 0, 3, 2, true),
        ],
        on_track_count: 2,
        off_track_count: 1,
        off_track_details: String::from("T09: 1 sect"),
        crc_err_count: 1,
        index_timestamps: vec![1000, 14401000],
        instant_rpms: vec![300],
        ..Default::default()
    };

    let beep = process(&mut status, &diag);

    assert_eq!(status.sector_log.len(), 1);
    assert_eq!(status.sector_log_standard.len(), 1);
    assert_eq!(status.sector_log_verbose.len(), 1);
    assert_eq!(status.sector_log_standard[0], "T:10 H:0 Rate:500k MFM [ ■ ■ ■ ░ ░ ░ ░ ░ ░ ░ ░ ░ ░ ░ ░ ░ ░ ░ ] (1/18 CRC-DAT: Sec 2)");
    assert!(status.sector_log_verbose[0].contains("T:10 H:0 Rate:500k MFM [ ■ ■ ■ ░ ░ ░ ░ ░ ░ ░ ░ ░ ░ ░ ░ ░ ░ ░ ]"));
    assert!(status.sector_log_verbose[0].contains("CRC-DAT: Sec 2"));

    let beeps: Vec<AudioEvent> = beep.into_iter().collect();
    assert_eq!(beeps, vec![AudioEvent::AlignmentTone { pitch_hz: calculate_radar_pitch(33) }]);
}

#[test]
fn test_process_track_diagnostic_default_standard_mode_all_ok() {
    let mut status = DriveState::default();
    status.flags.track = 10;
    status.flags.target_track = 10;
    status.flags.beep_enabled = true;
    status.flags.sector_count = 2;

    let diag = TrackAnalysisResult {
        has_disk: true,
        bitrate: 500,
        sector_count: 2,
        sectors_known: true,
        sectors: vec![DecodedSector::new(10, 0, 1, 2, true), DecodedSector::new(10, 0, 2, 2, true)],
        on_track_count: 2,
        off_track_count: 0,
        off_track_details: String::from("NONE (Perfect)"),
        crc_err_count: 0,
        index_timestamps: vec![1000, 14401000],
        instant_rpms: vec![300],
        ..Default::default()
    };

    let beep = process(&mut status, &diag);

    assert_eq!(status.sector_log.len(), 1);
    assert_eq!(status.sector_log_standard[0], "T:10 H:0 Rate:500k MFM [ ■ ■ ░ ░ ░ ░ ░ ░ ░ ░ ░ ░ ░ ░ ░ ░ ░ ░ ] (2/18 MISSING: Sec 3, 4, 5, 6, 7, 8, 9, 10, 11, 12, 13, 14, 15, 16, 17, 18)");
    assert!(status.sector_log_verbose[0].contains("T:10 H:0 Rate:500k MFM [ ■ ■ ░ ░ ░ ░ ░ ░ ░ ░ ░ ░ ░ ░ ░ ░ ░ ░ ]"));
    assert!(!status.sector_log_verbose[0].contains("200.1ms"));
    assert!(status.sector_log_verbose[0].contains("Gap0:----"));

    let beeps: Vec<AudioEvent> = beep.into_iter().collect();
    assert_eq!(beeps, vec![AudioEvent::AlignmentTone { pitch_hz: calculate_radar_pitch(99) }]);
}

#[test]
fn test_process_track_diagnostic_verbose_mode() {
    let mut status = DriveState::default();
    status.flags.track = 10;
    status.flags.target_track = 10;
    status.flags.verbose_mode = true;
    status.flags.beep_enabled = true;
    status.flags.sector_count = 3;

    let diag = TrackAnalysisResult {
        has_disk: true,
        bitrate: 500,
        sector_count: 3,
        sectors_known: true,
        sectors: vec![
            DecodedSector::new(10, 0, 4, 2, true),
            DecodedSector::new(10, 0, 5, 2, true),
            DecodedSector::new(10, 0, 6, 2, true),
        ],
        on_track_count: 3,
        off_track_count: 0,
        off_track_details: String::from("NONE (Perfect)"),
        crc_err_count: 0,
        index_timestamps: vec![1000, 14401000],
        instant_rpms: vec![300],
        ..Default::default()
    };

    let beep = process(&mut status, &diag);

    assert_eq!(status.sector_log.len(), 1);
    assert!(status.sector_log[0].contains("T:10 H:0 Rate:500k MFM [ ░ ░ ░ ■ ■ ■ ░ ░ ░ ░ ░ ░ ░ ░ ░ ░ ░ ░ ]"));
    assert_eq!(status.sector_log_standard[0], "T:10 H:0 Rate:500k MFM [ ░ ░ ░ ■ ■ ■ ░ ░ ░ ░ ░ ░ ░ ░ ░ ░ ░ ░ ] (3/18 MISSING: Sec 1, 2, 3, 7, 8, 9, 10, 11, 12, 13, 14, 15, 16, 17, 18)");

    let beeps: Vec<AudioEvent> = beep.into_iter().collect();
    assert_eq!(beeps, vec![AudioEvent::AlignmentTone { pitch_hz: calculate_radar_pitch(99) }]);
}

#[test]
fn test_process_track_diagnostic_unknown_sectors() {
    let mut status = DriveState::default();
    status.flags.track = 5;
    status.flags.target_track = 5;
    status.flags.head = 1;
    status.flags.head_select = HeadSelection::Head1;
    status.flags.beep_enabled = true;

    let diag = TrackAnalysisResult {
        has_disk: true,
        bitrate: 500,
        sector_count: 0,
        sectors_known: false,
        sectors: Vec::new(),
        on_track_count: 0,
        off_track_count: 0,
        off_track_details: String::from("NONE"),
        crc_err_count: 0,
        index_timestamps: Vec::new(),
        instant_rpms: Vec::new(),
        ..Default::default()
    };

    let beep = process(&mut status, &diag);

    assert_eq!(status.sector_log.len(), 1);
    assert_eq!(status.sector_log_standard[0], "T:05 H:1 Rate:---k --- [ ? ]                                   (0/0 NO DATA / NO DISK)");
    assert_eq!(
        status.sector_log_verbose[0],
        "T:05 H:1 Rate:---k --- [ ? ]                                   (0/0 NO DATA / NO DISK) IL:--- Gap0:---- Q:--%"
    );

    let beeps: Vec<AudioEvent> = beep.into_iter().collect();
    assert_eq!(beeps, vec![AudioEvent::ZeroDecodedSectors]);
}

#[test]
fn test_process_track_diagnostic_verbose_with_crc_error() {
    let mut status = DriveState::default();
    status.flags.track = 10;
    status.flags.target_track = 10;
    status.flags.verbose_mode = true;
    status.flags.beep_enabled = true;
    status.flags.sector_count = 2;

    let diag = TrackAnalysisResult {
        has_disk: true,
        bitrate: 500,
        sector_count: 2,
        sectors_known: true,
        sectors: vec![DecodedSector::new(10, 0, 1, 2, false), DecodedSector::new(10, 0, 2, 2, true)],
        on_track_count: 2,
        off_track_count: 0,
        off_track_details: String::from("NONE (Perfect)"),
        crc_err_count: 1,
        index_timestamps: vec![1000, 14401000],
        instant_rpms: vec![300],
        ..Default::default()
    };

    let beep = process(&mut status, &diag);

    assert_eq!(status.sector_log.len(), 1);
    assert!(status.sector_log[0].contains("T:10 H:0 Rate:500k MFM [ ■ ■ ░ ░ ░ ░ ░ ░ ░ ░ ░ ░ ░ ░ ░ ░ ░ ░ ]"));
    assert!(status.sector_log[0].contains("CRC-DAT: Sec 1"));
    assert_eq!(status.sector_log_standard[0], "T:10 H:0 Rate:500k MFM [ ■ ■ ░ ░ ░ ░ ░ ░ ░ ░ ░ ░ ░ ░ ░ ░ ░ ░ ] (1/18 CRC-DAT: Sec 1)");

    let beeps: Vec<AudioEvent> = beep.into_iter().collect();
    assert_eq!(beeps, vec![AudioEvent::AlignmentTone { pitch_hz: calculate_radar_pitch(50) }]);
}

#[test]
fn test_process_track_diagnostic_beep_disabled() {
    let mut status = DriveState::default();
    status.flags.track = 10;
    status.flags.target_track = 10;
    status.flags.beep_enabled = false;
    status.flags.sector_count = 1;

    let diag = TrackAnalysisResult {
        has_disk: true,
        bitrate: 500,
        sector_count: 1,
        sectors_known: true,
        sectors: vec![DecodedSector::new(10, 0, 1, 2, true)],
        on_track_count: 1,
        off_track_count: 0,
        off_track_details: String::from("NONE (Perfect)"),
        crc_err_count: 0,
        index_timestamps: vec![1000, 14401000],
        instant_rpms: vec![300],
        ..Default::default()
    };

    let beep = process(&mut status, &diag);

    let beeps: Vec<AudioEvent> = beep.into_iter().collect();
    assert!(beeps.is_empty());
}

#[test]
fn test_verbose_pass_timing_formatting() {
    let mut status = DriveState::default();
    status.flags.track = 20;
    status.flags.verbose_mode = true;

    let diag = TrackAnalysisResult {
        has_disk: true,
        bitrate: 500,
        sector_count: 2,
        sectors_known: true,
        sectors: vec![DecodedSector::new(20, 0, 1, 2, true), DecodedSector::new(20, 0, 2, 2, true)],
        on_track_count: 2,
        off_track_count: 0,
        off_track_details: String::from("NONE (Perfect)"),
        crc_err_count: 0,
        index_timestamps: vec![],
        instant_rpms: vec![],
        ..Default::default()
    };

    let _ = process(&mut status, &diag);

    assert_eq!(status.sector_log_verbose.len(), 1);
    assert!(status.sector_log_verbose[0].contains("T:20 H:0 Rate:500k MFM [ ■ ■ ░ ░ ░ ░ ░ ░ ░ ░ ░ ░ ░ ░ ░ ░ ░ ░ ]"));
    assert!(!status.sector_log_verbose[0].contains("204.3ms"));
    assert!(status.sector_log_verbose[0].contains("Gap0:----"));
}

#[test]
fn test_auto_realign_track_from_sector_headers() {
    let mut status = DriveState::default();
    status.flags.track = 70;
    status.flags.target_track = 10;
    status.flags.beep_enabled = true;
    status.flags.sector_count = 18;
    let diag = TrackAnalysisResult {
        has_disk: true,
        bitrate: 500,
        sector_count: 18,
        sectors_known: true,
        sectors: sectors_on(10, 0),
        on_track_count: 0,
        off_track_count: 18,
        off_track_details: String::from("T10: 18 sect"),
        index_timestamps: vec![1000, 14401000],
        instant_rpms: vec![300],
        ..Default::default()
    };
    let beep = process(&mut status, &diag);
    assert_eq!(status.flags.track, 10);
    assert!(!status.flags.trk0);
    assert_eq!(status.flags.on_track_count, 18);
    assert_eq!(status.flags.off_track_count, 0);
    assert_eq!(status.off_track_details, "NONE (Perfect)");
    assert_eq!(pct(status.flags.on_track_count, status.flags.sector_count as u32), 100.0);
    assert_eq!(status.sector_log_standard.len(), 1);
    assert_eq!(
        status.sector_log_standard[0],
        "T:10 H:0 Rate:500k MFM [ ■ ■ ■ ■ ■ ■ ■ ■ ■ ■ ■ ■ ■ ■ ■ ■ ■ ■ ] (18/18 OK)"
    );
    assert!(status.sector_log_verbose[0].contains("T:10 H:0 Rate:500k MFM [ ■ ■ ■ ■ ■ ■ ■ ■ ■ ■ ■ ■ ■ ■ ■ ■ ■ ■ ] (18/18 OK)"));
    assert_eq!(beep, Some(AudioEvent::AlignmentTone { pitch_hz: calculate_radar_pitch(99) }));
}

#[test]
fn test_analysis_persistence_across_isolated_read_failures() {
    let mut status = DriveState::default();
    status.flags.motor_on = true;
    status.flags.analyzing = true;
    status.flags.mode = DisplayMode::Analyze;
    status.flags.activity = HwActivity::ReadingAnalyzing;
    status.flags.drive_unit = 0;
    status.flags.unit_id = 0;
    status.flags.head = 0;
    status.flags.track = 40;

    let diag_failed = TrackAnalysisResult {
        has_disk: false,
        bitrate: 500,
        sector_count: 0,
        sectors_known: false,
        sectors: Vec::new(),
        on_track_count: 0,
        off_track_count: 0,
        off_track_details: String::from("NONE"),
        crc_err_count: 0,
        index_timestamps: Vec::new(),
        instant_rpms: Vec::new(),
        gap0_us: None,
        pll_quality_pct: None,
        interleave: None,
        read_status: DriveReadStatus::NoDiskOrNoIndex,
    };

    let _ = process(&mut status, &diag_failed);

    assert!(status.flags.analyzing);
    assert_eq!(status.flags.mode, DisplayMode::Analyze);
    assert_eq!(status.display_mode(), DisplayMode::Analyze);
    assert!(status.flags.motor_on);
    assert_eq!(status.flags.activity, HwActivity::ReadingAnalyzing);
}

#[test]
fn test_process_track_diagnostic_both_mode_consolidation() {
    let mut status = DriveState::default();
    status.flags.track = 40;
    status.flags.head_select = HeadSelection::Both;
    status.flags.sector_count = 18;
    let diag_h0 = TrackAnalysisResult {
        has_disk: true,
        bitrate: 500,
        sector_count: 18,
        sectors_known: true,
        sectors: sectors_on(40, 0),
        on_track_count: 18,
        off_track_details: String::from("NONE (Perfect)"),
        ..Default::default()
    };
    let _ = process(&mut status, &diag_h0);
    assert!(status.last_pass_h0.is_some());
    status.flags.head = 1;
    let diag_h1 = TrackAnalysisResult {
        has_disk: false,
        bitrate: 500,
        off_track_details: String::from("NONE"),
        read_status: DriveReadStatus::NoDiskOrNoIndex,
        ..Default::default()
    };
    let _ = process(&mut status, &diag_h1);
    assert!(status.last_pass_h1.is_some());
    let counts = both_mode_counts(status.last_pass_h0.as_ref(), status.last_pass_h1.as_ref(), status.flags.sector_count);
    assert_eq!(pct(counts.total_ok, counts.total_expected), 50.0);
    assert_eq!(status.flags.on_track_count, 18);
}

#[test]
fn test_drive_read_status_no_disk_or_no_index_handling() {
    let mut status = DriveState::default();
    status.flags.track = 10;
    status.flags.has_disk = true;
    status.flags.analyzing = true;
    status.flags.motor_on = true;
    let diag = TrackAnalysisResult {
        has_disk: false,
        bitrate: 500,
        off_track_details: String::from("NONE"),
        read_status: DriveReadStatus::NoDiskOrNoIndex,
        ..Default::default()
    };
    let _ = process(&mut status, &diag);
    assert!(!status.flags.has_disk);
    assert!(!status.flags.sectors_known);
    assert_eq!(pct(status.flags.on_track_count, status.flags.sector_count as u32), 0.0);
    assert_eq!(status.flags.on_track_count, 0);
    assert_eq!(status.flags.read_status, DriveReadStatus::NoDiskOrNoIndex);
}

#[test]
fn test_track_conformity_single_head_misalignment() {
    let mut status = DriveState::default();
    status.flags.track = 40;
    status.flags.target_track = 40;
    status.flags.sector_count = 18;
    let diag = TrackAnalysisResult {
        has_disk: true,
        bitrate: 500,
        sector_count: 18,
        sectors_known: true,
        sectors: sectors_on(41, 0),
        off_track_count: 18,
        off_track_details: String::from("MISALIGNED T:41"),
        index_timestamps: vec![1000, 14401000],
        instant_rpms: vec![300],
        ..Default::default()
    };
    let _ = process(&mut status, &diag);
    assert_eq!(status.flags.on_track_count, 0);
    assert_eq!(status.flags.off_track_count, 18);
    assert_eq!(status.off_track_details, "MISALIGNED T:41");
    assert_eq!(pct(status.flags.on_track_count, status.flags.sector_count as u32), 0.0);
    assert_eq!(
        status.sector_log_standard[0],
        "T:40 H:0 Rate:500k MFM [ ■ ■ ■ ■ ■ ■ ■ ■ ■ ■ ■ ■ ■ ■ ■ ■ ■ ■ ] (18/18 MISALIGNED T:41)"
    );
    assert!(status.sector_log_verbose[0].contains("(18/18 MISALIGNED T:41)"));
}

#[test]
fn test_both_mode_dual_head_track_shift_alignment_50_pct() {
    let mut status = DriveState::default();
    status.flags.track = 40;
    status.flags.target_track = 40;
    status.flags.head_select = HeadSelection::Both;
    status.flags.sector_count = 18;
    let diag_h0 = TrackAnalysisResult {
        has_disk: true,
        bitrate: 500,
        sector_count: 18,
        sectors_known: true,
        sectors: sectors_on(40, 0),
        on_track_count: 18,
        off_track_details: String::from("NONE (Perfect)"),
        ..Default::default()
    };
    let _ = process(&mut status, &diag_h0);
    status.flags.head = 1;
    let diag_h1 = TrackAnalysisResult {
        has_disk: true,
        bitrate: 500,
        sector_count: 18,
        sectors_known: true,
        sectors: sectors_on(41, 1),
        off_track_count: 18,
        off_track_details: String::from("MISALIGNED T:41"),
        ..Default::default()
    };
    let _ = process(&mut status, &diag_h1);
    let counts = both_mode_counts(status.last_pass_h0.as_ref(), status.last_pass_h1.as_ref(), status.flags.sector_count);
    assert_eq!(pct(counts.total_ok, counts.total_expected), 50.0);
    assert_eq!(status.flags.on_track_count, 18);
    assert_eq!(status.flags.off_track_count, 18);
    assert_eq!(status.off_track_details, "MISMATCH: Track 41 on Head 1");
}

#[test]
fn process_replaces_unfinished_line_and_keeps_fifty() {
    let mut status = DriveState::default();
    status.flags.track = 3;
    for _ in 0..55 {
        let diag = TrackAnalysisResult { off_track_details: String::from("NONE"), ..Default::default() };
        let _ = process(&mut status, &diag);
    }
    assert_eq!(status.sector_log_standard.len(), 50);
    status.flags.in_progress_pass = true;
    let diag = TrackAnalysisResult { off_track_details: String::from("NONE"), ..Default::default() };
    let _ = process(&mut status, &diag);
    assert_eq!(status.sector_log_standard.len(), 50);
    assert!(!status.flags.in_progress_pass);
}

#[test]
fn test_bus_type_status_and_command_dispatch() {
    let mut status = DriveState::default();
    assert_eq!(status.flags.bus_type, BusType::IbmPc);
    status.flags.bus_type = BusType::Shugart;
    assert_eq!(status.flags.bus_type, BusType::Shugart);
    assert_eq!(status.flags.bus_type.opcode_val(), 0x02);
    assert_eq!(status.flags.bus_type.as_str(), "Shugart");

    let cmd_toggle = HwCmd::ToggleBusType;
    assert_eq!(cmd_toggle, HwCmd::ToggleBusType);
    let cmd_set = HwCmd::SetBusType(BusType::Shugart);
    assert_eq!(cmd_set, HwCmd::SetBusType(BusType::Shugart));
}

#[test]
fn test_drive_unit_bus_type_dispatch() {
    let mut status_pc = DriveState::default();
    status_pc.flags.bus_type = BusType::IbmPc;
    status_pc.flags.drive_unit = 0;
    let max_units_pc = if status_pc.flags.bus_type == BusType::IbmPc { 2 } else { 4 };
    status_pc.flags.drive_unit = (status_pc.flags.drive_unit + 1) % max_units_pc;
    assert_eq!(status_pc.flags.drive_unit, 1);
    status_pc.flags.drive_unit = (status_pc.flags.drive_unit + 1) % max_units_pc;
    assert_eq!(status_pc.flags.drive_unit, 0);

    let mut status_shugart = DriveState::default();
    status_shugart.flags.bus_type = BusType::Shugart;
    status_shugart.flags.drive_unit = 0;
    let max_units_sh = if status_shugart.flags.bus_type == BusType::IbmPc { 2 } else { 4 };
    for expected in [1, 2, 3, 0] {
        status_shugart.flags.drive_unit = (status_shugart.flags.drive_unit + 1) % max_units_sh;
        assert_eq!(status_shugart.flags.drive_unit, expected);
    }

    status_shugart.flags.drive_unit = 3;
    status_shugart.flags.bus_type = status_shugart.flags.bus_type.toggle();
    if status_shugart.flags.bus_type == BusType::IbmPc && status_shugart.flags.drive_unit > 1 {
        status_shugart.flags.drive_unit = 0;
        status_shugart.flags.unit_id = 0;
    }
    assert_eq!(status_shugart.flags.bus_type, BusType::IbmPc);
    assert_eq!(status_shugart.flags.drive_unit, 0);
}

#[test]
fn test_step_mode_status_and_command_dispatch() {
    let mut status = DriveState::default();
    assert_eq!(status.flags.step_mode, StepMode::Single);
    status.flags.step_mode = StepMode::Double;
    assert_eq!(status.flags.step_mode, StepMode::Double);
    assert_eq!(status.flags.step_mode.multiplier(), 2);
    assert_eq!(status.flags.step_mode.max_logical_tracks(), 41);

    let cmd_toggle = HwCmd::ToggleStepMode;
    assert_eq!(cmd_toggle, HwCmd::ToggleStepMode);
    let cmd_set = HwCmd::SetStepMode(StepMode::Double);
    assert_eq!(cmd_set, HwCmd::SetStepMode(StepMode::Double));
}

#[test]
fn test_step_mode_physical_seek_translation() {
    let mut status = DriveState::default();
    status.flags.step_mode = StepMode::Double;

    let logical_track = 20u8.min(status.flags.step_mode.max_logical_tracks());
    let physical_cylinder = (logical_track * status.flags.step_mode.multiplier()).min(83);
    assert_eq!(logical_track, 20);
    assert_eq!(physical_cylinder, 40);

    let logical_track_40 = 40u8.min(status.flags.step_mode.max_logical_tracks());
    let physical_cylinder_80 = (logical_track_40 * status.flags.step_mode.multiplier()).min(83);
    assert_eq!(logical_track_40, 40);
    assert_eq!(physical_cylinder_80, 80);

    let logical_track_41 = 41u8.min(status.flags.step_mode.max_logical_tracks());
    let physical_cylinder_82 = (logical_track_41 * status.flags.step_mode.multiplier()).min(83);
    assert_eq!(logical_track_41, 41);
    assert_eq!(physical_cylinder_82, 82);

    let logical_track_clamped = 50u8.min(status.flags.step_mode.max_logical_tracks());
    let physical_clamped = (logical_track_clamped * status.flags.step_mode.multiplier()).min(83);
    assert_eq!(logical_track_clamped, 41);
    assert_eq!(physical_clamped, 82);
}

#[test]
fn test_preset_profile_status_and_commands() {
    let mut status = DriveState::default();
    assert_eq!(status.flags.preset, PresetProfile::Pc35Hd);
    status.flags.preset = status.flags.preset.next();
    assert_eq!(status.flags.preset, PresetProfile::Pc35Dd);

    let cmd_cycle = HwCmd::CyclePreset;
    assert_eq!(cmd_cycle, HwCmd::CyclePreset);
    let cmd_set = HwCmd::SetPreset(PresetProfile::Pc525DdOnHd);
    assert_eq!(cmd_set, HwCmd::SetPreset(PresetProfile::Pc525DdOnHd));
}

#[test]
fn preset_tpi() {
    assert!(!PresetProfile::Pc35Hd.is_48_tpi());
    assert!(PresetProfile::Pc525Dd.is_48_tpi());
    assert!(PresetProfile::Pc525DdOnHd.is_48_tpi());
    assert!(PresetProfile::Cpc30Data.is_48_tpi());
    assert!(!PresetProfile::Amiga35Dd.is_48_tpi());
}

#[test]
fn test_app_handle_hw_message_sync() {
    let mut app = App::new();
    assert_eq!(app.drive_unit, 0);
    assert_eq!(app.head_selection, HeadSelection::Head0);
    assert_eq!(app.view_mode, ViewMode::Normal);

    let mut status = DriveState::default();
    status.flags.drive_unit = 1;
    status.flags.head_select = HeadSelection::Both;
    status.flags.verbose_mode = true;

    app.handle_hw_message(status);

    assert_eq!(app.drive_unit, 1);
    assert_eq!(app.head_selection, HeadSelection::Both);
    assert_eq!(app.view_mode, ViewMode::Verbose);
}

#[test]
fn test_app_handle_action_analyze() {
    let mut app = App::new();
    assert!(!app.status.flags.analyzing);
    assert_eq!(app.status.flags.mode, DisplayMode::Off);
    assert!(!app.status.flags.motor_on);

    app.handle_action(Action::Analyze);
    assert!(app.status.flags.analyzing);
    assert_eq!(app.status.flags.mode, DisplayMode::Analyze);
    assert!(app.status.flags.motor_on);
    assert_eq!(app.status.flags.activity, HwActivity::ReadingAnalyzing);

    let mut app2 = App::new();
    app2.handle_action(Action::StartAnalysis);
    assert!(app2.status.flags.analyzing);
    assert_eq!(app2.status.flags.mode, DisplayMode::Analyze);
    assert!(app2.status.flags.motor_on);
    assert_eq!(app2.status.flags.activity, HwActivity::ReadingAnalyzing);
}

#[test]
fn test_app_handle_action_stop() {
    let mut app = App::new();
    app.handle_action(Action::Analyze);
    assert!(app.status.flags.analyzing);
    assert!(app.status.flags.motor_on);
    assert_eq!(app.status.flags.activity, HwActivity::ReadingAnalyzing);

    app.handle_action(Action::Stop);
    assert!(!app.status.flags.analyzing);
    assert!(!app.status.flags.motor_on);
    assert_eq!(app.status.flags.mode, DisplayMode::Off);
    assert_eq!(app.status.flags.activity, HwActivity::Stopped);
    assert!(!app.status.flags.index);
}

#[test]
fn test_track_mismatch_triggers_warning_audio_event() {
    let mut status = DriveState::default();
    status.flags.track = 75;
    status.flags.target_track = 75;
    status.flags.head = 1;
    status.flags.head_select = HeadSelection::Both;

    let pass_h0 = DiagnosticPass::with_details(75, 0, 500, "T:75 H:0".into(), "T:75 H:0".into(), 18, 18, 0, 95, true);
    let pass_h1 = DiagnosticPass::with_details(76, 1, 500, "T:76 H:1".into(), "T:76 H:1".into(), 18, 18, 0, 95, true);

    status.last_pass_h0 = Some(pass_h0);
    status.last_pass_h1 = Some(pass_h1);

    let event = evaluate_alignment_audio_event(
        status.flags.head_select,
        status.flags.target_track,
        status.flags.head,
        status.last_pass_h0.as_ref(),
        status.last_pass_h1.as_ref(),
        status.flags.sector_count,
    );

    assert_eq!(event, Some(AudioEvent::TrackMismatch));
}

#[test]
fn test_crc_error_emits_marginal_tracking_tone() {
    let mut status = DriveState::default();
    status.flags.track = 40;
    status.flags.target_track = 40;
    status.flags.head = 0;
    status.flags.head_select = HeadSelection::Both;

    let pass_h0 = DiagnosticPass::with_details(40, 0, 500, "T:40 H:0".into(), "T:40 H:0".into(), 17, 18, 1, 90, false);
    let pass_h1 = DiagnosticPass::with_details(40, 1, 500, "T:40 H:1".into(), "T:40 H:1".into(), 18, 18, 0, 95, true);

    status.last_pass_h0 = Some(pass_h0);
    status.last_pass_h1 = Some(pass_h1);

    let event = evaluate_alignment_audio_event(
        status.flags.head_select,
        status.flags.target_track,
        status.flags.head,
        status.last_pass_h0.as_ref(),
        status.last_pass_h1.as_ref(),
        status.flags.sector_count,
    );

    let expected_pitch = calculate_radar_pitch(90);
    assert_eq!(event, Some(AudioEvent::AlignmentTone { pitch_hz: expected_pitch }));
    assert_eq!(event, Some(AudioEvent::AlignmentTone { pitch_hz: 1267 }));
}

#[test]
fn test_app_spinner_and_capture_instant_lifecycle() {
    let mut app = App::new();
    assert_eq!(app.stream_spinner_idx, 0);
    let initial_instant = app.last_capture_instant;
    app.on_sector_packet();
    assert_eq!(app.stream_spinner_idx, 1);
    assert!(app.last_capture_instant >= initial_instant);
    app.on_sector_packet();
    assert_eq!(app.stream_spinner_idx, 2);
    app.on_sector_packet();
    assert_eq!(app.stream_spinner_idx, 3);
    app.on_sector_packet();
    assert_eq!(app.stream_spinner_idx, 0);

    let mut status = DriveState::default();
    status.flags.activity = HwActivity::ReadingAnalyzing;
    status.flags.mode = DisplayMode::Analyze;
    status.sector_log.push("T:00 H:0 Rate:500k MFM [ ■ ■ ■ ] (3/3 OK)".into());
    app.handle_hw_message(status);
    assert_eq!(app.stream_spinner_idx, 1);

    let pass = DiagnosticPass::with_details(0, 0, 500, "T:00 H:0 [ ■ ] (1/1 OK)".into(), "T:00 H:0 [ ■ ] (1/1 OK)".into(), 1, 1, 0, 99, true);
    app.record_pass(pass);
    assert_eq!(app.stream_spinner_idx, 2);

    let idle = DriveState::default();
    app.handle_hw_message(idle);
    assert_eq!(app.stream_spinner_idx, 2);
}

#[test]
fn test_app_help_toggle() {
    let mut app = App::new();
    assert!(!app.show_help);
    app.toggle_help();
    assert!(app.show_help);
    app.toggle_help();
    assert!(!app.show_help);
}

#[test]
fn test_app_toggle_motor_action() {
    let mut app = App::new();
    assert!(!app.motor_on);
    assert!(!app.status.flags.motor_on);
    assert!(!app.is_motor_on());

    app.handle_action(Action::ToggleMotor);
    assert!(app.motor_on);
    assert!(app.status.flags.motor_on);
    assert!(app.is_motor_on());
    assert_eq!(app.status.flags.activity, HwActivity::Idle);
    assert!(app.status.flags.drive_select);
    assert_eq!(app.status.log_msg, "Motor ON (M key)");

    app.handle_action(Action::ToggleMotor);
    assert!(!app.motor_on);
    assert!(!app.status.flags.motor_on);
    assert!(!app.is_motor_on());
    assert_eq!(app.status.flags.activity, HwActivity::Stopped);
    assert_eq!(app.status.log_msg, "Motor OFF (M key)");

    app.handle_action(Action::SetMotor(true));
    assert!(app.motor_on);
    assert!(app.status.flags.motor_on);
    app.handle_action(Action::SetMotor(false));
    assert!(!app.motor_on);
    assert!(!app.status.flags.motor_on);
}

#[test]
fn test_app_panic_reset_action() {
    let mut app = App::new();
    app.handle_action(Action::Analyze);
    assert!(app.motor_on);
    assert!(app.status.flags.analyzing);
    assert_eq!(app.status.flags.mode, DisplayMode::Analyze);

    let pass = DiagnosticPass::with_details(40, 0, 500, "T:40 H:0".into(), "T:40 H:0".into(), 18, 18, 0, 99, true);
    app.record_pass(pass);
    assert!(app.last_pass_h0.is_some());

    app.handle_action(Action::PanicReset);
    assert!(!app.motor_on);
    assert!(!app.status.flags.motor_on);
    assert!(!app.status.flags.analyzing);
    assert_eq!(app.status.flags.mode, DisplayMode::Off);
    assert_eq!(app.status.flags.activity, HwActivity::Idle);
    assert_eq!(app.status.flags.rpm, 0);
    assert_eq!(app.status.rpm_display, "--- RPM");
    assert!(!app.status.flags.index);
    assert!(app.status.sectors.is_empty());
    assert!(!app.status.flags.sectors_known);
    assert_eq!(app.status.flags.head, 0);
    assert_eq!(app.status.flags.head_select, HeadSelection::Head0);
    assert_eq!(app.head_selection, HeadSelection::Head0);
    assert!(app.last_pass_h0.is_none());
    assert!(app.last_pass_h1.is_none());
    assert_eq!(app.status.log_msg, "PANIC RESET: Hardware reset & serial buffers purged successfully");
    assert_eq!(app.drive_status().flags.activity, HwActivity::Idle);
}

#[test]
fn test_app_bus_type_actions_and_config() {
    let mut app = App::with_config(1, BusType::Shugart);
    assert_eq!(app.drive_unit, 1);
    assert_eq!(app.bus_type(), BusType::Shugart);
    assert_eq!(app.status.flags.bus_type, BusType::Shugart);

    app.handle_action(Action::ToggleBusType);
    assert_eq!(app.bus_type(), BusType::IbmPc);
    assert_eq!(app.status.flags.bus_type, BusType::IbmPc);

    app.handle_action(Action::SetBusType(BusType::Shugart));
    assert_eq!(app.bus_type(), BusType::Shugart);
    assert_eq!(app.status.flags.bus_type, BusType::Shugart);
}

#[test]
fn test_app_drive_unit_cycling_pc_mode() {
    let mut app = App::with_config(0, BusType::IbmPc);
    assert_eq!(app.drive_unit, 0);
    assert_eq!(app.format_drive_unit_label(), "Drive 0 (A:)");
    assert_eq!(app.format_drive_unit_short(), "A:");

    app.toggle_drive_unit();
    assert_eq!(app.drive_unit, 1);
    assert_eq!(app.format_drive_unit_label(), "Drive 1 (B:)");
    assert_eq!(app.format_drive_unit_short(), "B:");

    app.toggle_drive_unit();
    assert_eq!(app.drive_unit, 0);
    assert_eq!(app.format_drive_unit_label(), "Drive 0 (A:)");
    assert_eq!(app.format_drive_unit_short(), "A:");
}

#[test]
fn test_app_drive_unit_cycling_shugart_mode() {
    let mut app = App::with_config(0, BusType::Shugart);
    assert_eq!(app.drive_unit, 0);
    assert_eq!(app.format_drive_unit_label(), "Unit 0 (DS0)");
    assert_eq!(app.format_drive_unit_short(), "DS0");

    app.toggle_drive_unit();
    assert_eq!(app.drive_unit, 1);
    assert_eq!(app.format_drive_unit_label(), "Unit 1 (DS1)");
    assert_eq!(app.format_drive_unit_short(), "DS1");

    app.toggle_drive_unit();
    assert_eq!(app.drive_unit, 2);
    assert_eq!(app.format_drive_unit_label(), "Unit 2 (DS2)");
    assert_eq!(app.format_drive_unit_short(), "DS2");

    app.toggle_drive_unit();
    assert_eq!(app.drive_unit, 3);
    assert_eq!(app.format_drive_unit_label(), "Unit 3 (DS3)");
    assert_eq!(app.format_drive_unit_short(), "DS3");

    app.toggle_drive_unit();
    assert_eq!(app.drive_unit, 0);
    assert_eq!(app.format_drive_unit_label(), "Unit 0 (DS0)");
    assert_eq!(app.format_drive_unit_short(), "DS0");
}

#[test]
fn app_format_and_view_switches() {
    let mut app = App::with_drive_unit(4);
    assert_eq!(app.drive_unit, 1);
    app.cycle_disk_format();
    assert_eq!(app.disk_format(), DiskFormat::IbmPc);
    assert_eq!(app.status.flags.disk_format, DiskFormat::IbmPc);
    app.set_disk_format(DiskFormat::AtariSt);
    assert_eq!(app.disk_format(), DiskFormat::AtariSt);
    app.toggle_verbose();
    assert!(app.is_verbose());
    assert!(app.status.flags.verbose_mode);
    app.toggle_head();
    assert_eq!(app.head_selection, HeadSelection::Head1);
    assert_eq!(app.status.flags.head_select, HeadSelection::Head1);
    app.set_drive_unit(9);
    assert_eq!(app.drive_unit, 1);
    app.clear_passes();
    assert!(app.last_pass_h0.is_none());
}

#[test]
fn test_app_bus_type_fallback_on_switch() {
    let mut app = App::with_config(3, BusType::Shugart);
    assert_eq!(app.drive_unit, 3);
    app.toggle_bus_type();
    assert_eq!(app.bus_type(), BusType::IbmPc);
    assert_eq!(app.drive_unit, 0);
    assert_eq!(app.status.flags.drive_unit, 0);

    let mut app2 = App::with_config(2, BusType::Shugart);
    assert_eq!(app2.drive_unit, 2);
    app2.set_bus_type(BusType::IbmPc);
    assert_eq!(app2.bus_type(), BusType::IbmPc);
    assert_eq!(app2.drive_unit, 0);
    assert_eq!(app2.status.flags.drive_unit, 0);

    let mut app3 = App::with_config(1, BusType::Shugart);
    assert_eq!(app3.drive_unit, 1);
    app3.toggle_bus_type();
    assert_eq!(app3.bus_type(), BusType::IbmPc);
    assert_eq!(app3.drive_unit, 1);
    assert_eq!(app3.status.flags.drive_unit, 1);
}

#[test]
fn test_progressive_revolution_initial_state() {
    let (tx_status, rx_status) = crossbeam_channel::unbounded::<DriveState>();
    let mut status = DriveState::default();
    status.flags.track = 40;
    status.flags.head = 0;
    status.flags.sector_count = 18;

    start_revolution_progress(&mut status, 40, 0, 500, 18);

    assert!(status.flags.in_progress_pass);
    assert_eq!(status.sector_log_standard.len(), 1);
    assert_eq!(
        status.sector_log_standard[0],
        "T:40 H:0 Rate:500k MFM [ ░ ░ ░ ░ ░ ░ ░ ░ ░ ░ ░ ░ ░ ░ ░ ░ ░ ░ ] ( 0/18)"
    );
    assert!(status.sectors.is_empty());
    assert_eq!(status.sector_log, status.sector_log_standard);

    tx_status.send(status.clone()).unwrap();
    let emitted = rx_status.try_recv().unwrap();
    assert_eq!(
        emitted.sector_log_standard[0],
        "T:40 H:0 Rate:500k MFM [ ░ ░ ░ ░ ░ ░ ░ ░ ░ ░ ░ ░ ░ ░ ░ ░ ░ ░ ] ( 0/18)"
    );
}

#[test]
fn test_progressive_revolution_incremental_updates() {
    let mut status = DriveState::default();
    status.flags.track = 40;
    status.flags.head = 0;
    status.flags.sector_count = 18;

    start_revolution_progress(&mut status, 40, 0, 500, 18);

    let sec1 = DecodedSector::new(40, 0, 1, 2, true);
    update_revolution_progress(&mut status, 40, 0, 500, 18, 1, Some(&sec1));
    assert_eq!(status.sector_log_standard.len(), 1);
    assert_eq!(
        status.sector_log_standard[0],
        "T:40 H:0 Rate:500k MFM [ ■ ░ ░ ░ ░ ░ ░ ░ ░ ░ ░ ░ ░ ░ ░ ░ ░ ░ ] ( 1/18)"
    );
    assert_eq!(status.sectors.len(), 1);

    let sec5 = DecodedSector::new(40, 0, 5, 2, true);
    update_revolution_progress(&mut status, 40, 0, 500, 18, 5, Some(&sec5));
    assert_eq!(status.sector_log_standard.len(), 1);
    assert_eq!(
        status.sector_log_standard[0],
        "T:40 H:0 Rate:500k MFM [ ■ ■ ■ ■ ■ ░ ░ ░ ░ ░ ░ ░ ░ ░ ░ ░ ░ ░ ] ( 5/18)"
    );
    assert_eq!(status.sectors.len(), 2);

    let sec18 = DecodedSector::new(40, 0, 18, 2, true);
    update_revolution_progress(&mut status, 40, 0, 500, 18, 18, Some(&sec18));
    assert_eq!(status.sector_log_standard.len(), 1);
    assert_eq!(
        status.sector_log_standard[0],
        "T:40 H:0 Rate:500k MFM [ ■ ■ ■ ■ ■ ■ ■ ■ ■ ■ ■ ■ ■ ■ ■ ■ ■ ■ ] (18/18 OK)"
    );
}

#[test]
fn test_progressive_revolution_finalize_and_multi_revolution_scroll() {
    let mut status = DriveState::default();
    status.flags.track = 40;
    status.flags.head = 0;
    status.flags.sector_count = 18;
    status.flags.beep_enabled = false;

    start_revolution_progress(&mut status, 40, 0, 500, 18);
    assert_eq!(status.sector_log_standard.len(), 1);

    let sectors: Vec<DecodedSector> = (1..=18).map(|id| DecodedSector::new(40, 0, id, 2, true)).collect();
    for (i, sec) in sectors.iter().enumerate() {
        update_revolution_progress(&mut status, 40, 0, 500, 18, i + 1, Some(sec));
    }
    assert_eq!(status.sector_log_standard.len(), 1);

    let diag1 = TrackAnalysisResult {
        has_disk: true,
        bitrate: 500,
        sector_count: 18,
        sectors_known: true,
        sectors: sectors.clone(),
        on_track_count: 18,
        off_track_count: 0,
        off_track_details: String::from("NONE (Perfect)"),
        crc_err_count: 0,
        index_timestamps: vec![1000, 14401000],
        instant_rpms: vec![300],
        ..Default::default()
    };
    let _ = process(&mut status, &diag1);

    assert_eq!(status.sector_log_standard.len(), 1);
    assert!(!status.flags.in_progress_pass);
    assert_eq!(
        status.sector_log_standard[0],
        "T:40 H:0 Rate:500k MFM [ ■ ■ ■ ■ ■ ■ ■ ■ ■ ■ ■ ■ ■ ■ ■ ■ ■ ■ ] (18/18 OK)"
    );

    start_revolution_progress(&mut status, 40, 0, 500, 18);
    assert_eq!(status.sector_log_standard.len(), 2);
    assert!(status.flags.in_progress_pass);
    assert_eq!(
        status.sector_log_standard[0],
        "T:40 H:0 Rate:500k MFM [ ■ ■ ■ ■ ■ ■ ■ ■ ■ ■ ■ ■ ■ ■ ■ ■ ■ ■ ] (18/18 OK)"
    );
    assert_eq!(
        status.sector_log_standard[1],
        "T:40 H:0 Rate:500k MFM [ ░ ░ ░ ░ ░ ░ ░ ░ ░ ░ ░ ░ ░ ░ ░ ░ ░ ░ ] ( 0/18)"
    );
}

#[test]
fn read_helpers() {
    assert!(read_is_blank(99, 500, 2));
    assert!(read_is_blank(500, 99, 2));
    assert!(read_is_blank(500, 500, 0));
    assert!(!read_is_blank(100, 100, 1));
    assert_eq!(pll_clock_for_bitrate(500), 72);
    assert_eq!(pll_clock_for_bitrate(300), 120);
    assert_eq!(pll_clock_for_bitrate(250), 144);
    let mut status = DriveState::default();
    status.adopt_detected_format(DiskFormat::AmigaDos);
    assert_eq!(status.flags.disk_format, DiskFormat::AmigaDos);
    status.adopt_detected_format(DiskFormat::AtariSt);
    assert_eq!(status.flags.disk_format, DiskFormat::AmigaDos);
}

#[test]
fn test_seek_dynamic_track_synchronization_in_analyze_mode() {
    let mut status = DriveState::default();
    status.flags.track = 0;
    status.flags.head = 0;
    status.flags.motor_on = true;
    status.flags.analyzing = true;
    status.flags.mode = DisplayMode::Analyze;
    status.flags.activity = HwActivity::ReadingAnalyzing;
    status.flags.sector_count = 18;

    let target_track: u8 = 70;
    status.flags.activity = HwActivity::Seeking;
    status.flags.track = target_track;
    status.flags.trk0 = target_track == 0;
    status.sectors.clear();
    status.flags.sectors_known = false;
    status.log_msg = format!("Seek -> Track {}", target_track);

    assert_eq!(status.flags.track, 70);
    assert!(!status.flags.trk0);
    assert!(status.sectors.is_empty());
    assert!(!status.flags.sectors_known);

    let diag = TrackAnalysisResult {
        has_disk: true,
        bitrate: 500,
        sector_count: 18,
        sectors_known: true,
        sectors: sectors_on(70, 0),
        on_track_count: 18,
        off_track_count: 0,
        off_track_details: String::from("NONE (Perfect)"),
        crc_err_count: 0,
        index_timestamps: vec![1000, 14401000],
        instant_rpms: vec![300],
        ..Default::default()
    };
    let _ = process(&mut status, &diag);

    assert_eq!(status.sector_log_standard.len(), 1);
    assert_eq!(
        status.sector_log_standard[0],
        "T:70 H:0 Rate:500k MFM [ ■ ■ ■ ■ ■ ■ ■ ■ ■ ■ ■ ■ ■ ■ ■ ■ ■ ■ ] (18/18 OK)"
    );
    assert_eq!(status.flags.on_track_count, 18);
    assert_eq!(status.flags.off_track_count, 0);
    assert_eq!(pct(status.flags.on_track_count, status.flags.sector_count as u32), 100.0);
}

#[test]
fn test_app_drive_unit_state_and_action_handling() {
    let mut app0 = App::new();
    assert_eq!(app0.drive_unit, 0);
    assert_eq!(app0.status.flags.drive_unit, 0);
    assert_eq!(app0.status.flags.unit_id, 0);

    let app1 = App::with_drive_unit(1);
    assert_eq!(app1.drive_unit, 1);
    assert_eq!(app1.status.flags.drive_unit, 1);
    assert_eq!(app1.status.flags.unit_id, 1);

    app0.toggle_drive_unit();
    assert_eq!(app0.drive_unit, 1);
    assert_eq!(app0.status.flags.drive_unit, 1);
    assert_eq!(app0.status.flags.unit_id, 1);

    app0.handle_action(Action::ToggleDriveUnit);
    assert_eq!(app0.drive_unit, 0);
    assert_eq!(app0.status.flags.drive_unit, 0);
    assert_eq!(app0.status.flags.unit_id, 0);

    app0.set_drive_unit(1);
    assert_eq!(app0.drive_unit, 1);
    assert_eq!(app0.status.flags.drive_unit, 1);
    assert_eq!(app0.status.flags.unit_id, 1);
}

#[test]
fn test_head_selection_model_and_ui_formatting() {
    let mut head = HeadSelection::Head0;
    assert_eq!(head.as_str(), "0");
    head = head.toggle_next();
    assert_eq!(head, HeadSelection::Head1);
    assert_eq!(head.as_str(), "1");
    head = head.toggle_next();
    assert_eq!(head, HeadSelection::Both);
    assert_eq!(head.as_str(), "BOTH (0+1)");
    head = head.toggle_next();
    assert_eq!(head, HeadSelection::Head0);

    let mut app = App::new();
    assert_eq!(app.head_selection, HeadSelection::Head0);
    assert_eq!(app.status.flags.head_select, HeadSelection::Head0);

    app.toggle_head();
    assert_eq!(app.head_selection, HeadSelection::Head1);
    assert_eq!(app.status.flags.head_select, HeadSelection::Head1);

    app.toggle_head();
    assert_eq!(app.head_selection, HeadSelection::Both);
    assert_eq!(app.status.flags.head_select, HeadSelection::Both);

    app.toggle_head();
    assert_eq!(app.head_selection, HeadSelection::Head0);
    assert_eq!(app.status.flags.head_select, HeadSelection::Head0);
}
