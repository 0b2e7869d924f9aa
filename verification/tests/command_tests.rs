use aligntester_diag::commands::{
    bus_type_message, clamp_track, format_profile_message, head_for_selection, head_from_value,
    head_selection_message, plan_seek, rpm_mode_message, seek_message, step_rate_message,
    unit_selected_message,
};
use aligntester_diag::drive::RpmMode;
use aligntester_diag::heads::HeadSelection;
use aligntester_diag::session::App;
use aligntester_diag::protocol::{BusType, DiskFormat, StepMode};

#[test]
fn seek_plans() {
    let p = plan_seek(40, 0, StepMode::Single);
    assert_eq!((p.track, p.physical_cylinder, p.timeout_ms), (40, 40, 2200));
    let p = plan_seek(0, 40, StepMode::Single);
    assert_eq!((p.track, p.physical_cylinder, p.timeout_ms), (0, 0, 3000));
    let p = plan_seek(60, 10, StepMode::Double);
    assert_eq!((p.track, p.physical_cylinder, p.timeout_ms), (41, 82, 1200 + 25 * 62));
    assert_eq!(clamp_track(90, StepMode::Single), 83);
}

#[test]
fn head_and_messages() {
    assert_eq!(head_for_selection(HeadSelection::Both), 0);
    assert_eq!(head_for_selection(HeadSelection::Head1), 1);
    assert_eq!(head_from_value(7), (HeadSelection::Head1, 1));
    assert_eq!(head_selection_message(HeadSelection::Both), "Head selection -> BOTH (0+1) [Alternating mode]");
    assert_eq!(bus_type_message(BusType::Shugart), "Bus Type: Shugart (Amiga / Shugart DS0 Pin 10)");
    assert_eq!(format_profile_message(DiskFormat::AmigaDos), "Format Profile: AmigaDOS (Paula)");
    assert_eq!(rpm_mode_message(RpmMode::SwSync), "RPM Mode set to [SW Sync]");
    assert_eq!(step_rate_message(StepMode::Double), "Step Rate: 2:1 (Double)");
    assert_eq!(unit_selected_message(BusType::IbmPc, 1, true), "Drive 1 (B:) selected & Recalibrated Track 0");
    assert_eq!(unit_selected_message(BusType::Shugart, 2, false), "Select Unit 2 (DS2) & Recalibrate Track 0");
    assert_eq!(seek_message(7), "Seek -> Track 7");
}

#[test]
fn app_unit_selection_transitions() {
    let mut u = App::with_config(5, BusType::IbmPc);
    assert_eq!(u.drive_unit, 1);
    u.toggle_drive_unit();
    assert_eq!(u.drive_unit, 0);
    u.set_bus_type(BusType::Shugart);
    u.set_drive_unit(3);
    assert_eq!(u.drive_unit, 3);
    u.toggle_drive_unit();
    assert_eq!(u.drive_unit, 0);
    u.set_drive_unit(2);
    u.toggle_bus_type();
    assert_eq!((u.bus_type, u.drive_unit), (BusType::IbmPc, 0));
    assert_eq!(u.status.flags.drive_unit, 0);
}
