use aligntester_diag::heads::{
    format_drive_unit_label, format_drive_unit_short, format_unit_menu_shortcut, DiagnosticPass,
    HeadSelection, ViewMode,
};
use aligntester_diag::protocol::BusType;

#[test]
fn test_formatting_drive_labels_and_shortcuts() {
    assert_eq!(format_drive_unit_label(BusType::IbmPc, 0), "Drive 0 (A:)");
    assert_eq!(format_drive_unit_label(BusType::IbmPc, 1), "Drive 1 (B:)");
    assert_eq!(format_drive_unit_label(BusType::Shugart, 0), "Unit 0 (DS0)");
    assert_eq!(format_drive_unit_label(BusType::Shugart, 1), "Unit 1 (DS1)");
    assert_eq!(format_drive_unit_label(BusType::Shugart, 2), "Unit 2 (DS2)");
    assert_eq!(format_drive_unit_label(BusType::Shugart, 3), "Unit 3 (DS3)");

    assert_eq!(format_drive_unit_short(BusType::IbmPc, 0), "A:");
    assert_eq!(format_drive_unit_short(BusType::IbmPc, 1), "B:");
    assert_eq!(format_drive_unit_short(BusType::Shugart, 0), "DS0");
    assert_eq!(format_drive_unit_short(BusType::Shugart, 1), "DS1");
    assert_eq!(format_drive_unit_short(BusType::Shugart, 2), "DS2");
    assert_eq!(format_drive_unit_short(BusType::Shugart, 3), "DS3");

    assert_eq!(format_unit_menu_shortcut(BusType::IbmPc), " U = Unit (A: / B:)");
    assert_eq!(format_unit_menu_shortcut(BusType::Shugart), " U = Unit (DS0..DS3)");
}

#[test]
fn head_selection_cycles_in_three_steps() {
    let h = HeadSelection::default();
    assert_eq!(h, HeadSelection::Head0);
    assert_eq!(h.toggle_next(), HeadSelection::Head1);
    assert_eq!(h.toggle_next().toggle_next(), HeadSelection::Both);
    assert_eq!(h.toggle_next().toggle_next().toggle_next(), HeadSelection::Head0);
    assert_eq!(HeadSelection::Both.as_str(), "BOTH (0+1)");
    assert_eq!(HeadSelection::Head1.as_str(), "1");
    assert_eq!(ViewMode::default(), ViewMode::Normal);
}

#[test]
fn diagnostic_pass_with_details_keeps_fields() {
    let p = DiagnosticPass::with_details(7, 1, 300, "a".into(), "b".into(), 8, 9, 1, 89, false);
    assert_eq!((p.track, p.track_id, p.head, p.bitrate), (7, 7, 1, 300));
    assert_eq!((p.ok_count, p.valid_sectors, p.expected_count, p.crc_errors, p.quality_pct, p.is_ok), (8, 8, 9, 1, 89, false));
    assert_eq!(p.line_standard, "a");
    assert_eq!(p.line_verbose, "b");
}
