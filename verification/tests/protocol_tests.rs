use aligntester_diag::protocol::{
    build_bus_type_packet, build_deselect_packet, build_get_pin_packet, build_head_packet,
    build_motor_packet, build_read_flux_packet, build_reset_packet, build_seek_packet,
    build_select_packet, BusType, DiskFormat, PresetProfile, StepMode, ACK_GUARD_TIMEOUT_MS,
    CMD_DESELECT, CMD_GET_INFO, CMD_GET_PIN, CMD_HEAD, CMD_MOTOR, CMD_READ_FLUX, CMD_RESET,
    CMD_SEEK, CMD_SELECT, CMD_SET_BUS_TYPE,
};

#[test]
fn test_protocol_opcodes_values() {
    assert_eq!(CMD_GET_INFO, 0x00);
    assert_eq!(CMD_RESET, 0x00);
    assert_eq!(CMD_SEEK, 0x02);
    assert_eq!(CMD_HEAD, 0x03);
    assert_eq!(CMD_MOTOR, 0x06);
    assert_eq!(CMD_READ_FLUX, 0x07);
    assert_eq!(CMD_SELECT, 0x0C);
    assert_eq!(CMD_DESELECT, 0x0D);
    assert_eq!(CMD_SET_BUS_TYPE, 0x0E);
    assert_eq!(CMD_GET_PIN, 0x14);
    assert_eq!(ACK_GUARD_TIMEOUT_MS, 500);
}

#[test]
fn test_bus_type_enum() {
    assert_eq!(BusType::default(), BusType::IbmPc);
    assert_eq!(BusType::IbmPc.opcode_val(), 0x01);
    assert_eq!(BusType::Shugart.opcode_val(), 0x02);
    assert_eq!(BusType::IbmPc.as_str(), "IBM PC");
    assert_eq!(BusType::Shugart.as_str(), "Shugart");
    assert_eq!(BusType::IbmPc.toggle(), BusType::Shugart);
    assert_eq!(BusType::Shugart.toggle(), BusType::IbmPc);
    assert_eq!(BusType::from_u8(1), Some(BusType::IbmPc));
    assert_eq!(BusType::from_u8(2), Some(BusType::Shugart));
    assert_eq!(BusType::from_u8(0), None);
    assert_eq!(BusType::from_u8(3), None);
}

#[test]
fn test_step_mode_enum() {
    assert_eq!(StepMode::default(), StepMode::Single);
    assert_eq!(StepMode::Single.multiplier(), 1);
    assert_eq!(StepMode::Double.multiplier(), 2);
    assert_eq!(StepMode::Single.max_logical_tracks(), 83);
    assert_eq!(StepMode::Double.max_logical_tracks(), 41);
    assert_eq!(StepMode::Single.as_str(), "1:1 (Single)");
    assert_eq!(StepMode::Double.as_str(), "2:1 (Double)");
    assert_eq!(StepMode::Single.toggle(), StepMode::Double);
    assert_eq!(StepMode::Double.toggle(), StepMode::Single);
}

#[test]
fn test_protocol_packet_builders() {
    assert_eq!(build_reset_packet(), [0x00, 0x03, 0x00]);
    assert_eq!(build_motor_packet(0, true), [0x06, 0x04, 0x00, 0x01]);
    assert_eq!(build_motor_packet(1, false), [0x06, 0x04, 0x01, 0x00]);
    assert_eq!(build_head_packet(1), [0x03, 0x03, 0x01]);
    assert_eq!(build_select_packet(0), [0x0C, 0x03, 0x00]);
    assert_eq!(build_deselect_packet(), [0x0D, 0x02]);
    assert_eq!(build_bus_type_packet(BusType::IbmPc.opcode_val()), [0x0E, 0x03, 0x01]);
    assert_eq!(build_bus_type_packet(BusType::Shugart.opcode_val()), [0x0E, 0x03, 0x02]);
    assert_eq!(build_seek_packet(40), [0x02, 0x03, 40]);
    assert_eq!(build_read_flux_packet(3), [0x07, 0x08, 0x00, 0x00, 0x00, 0x00, 0x03, 0x00]);
    assert_eq!(build_get_pin_packet(28), [0x14, 0x03, 28]);
}

#[test]
fn test_preset_profile_from_str_loose() {
    assert_eq!(PresetProfile::from_str_loose("pc35hd"), Some(PresetProfile::Pc35Hd));
    assert_eq!(PresetProfile::from_str_loose("1.44M"), Some(PresetProfile::Pc35Hd));
    assert_eq!(PresetProfile::from_str_loose("pc35dd"), Some(PresetProfile::Pc35Dd));
    assert_eq!(PresetProfile::from_str_loose("720k"), Some(PresetProfile::Pc35Dd));
    assert_eq!(PresetProfile::from_str_loose("pc525hd"), Some(PresetProfile::Pc525Hd));
    assert_eq!(PresetProfile::from_str_loose("1.2M"), Some(PresetProfile::Pc525Hd));
    assert_eq!(PresetProfile::from_str_loose("pc525ddonhd"), Some(PresetProfile::Pc525DdOnHd));
    assert_eq!(PresetProfile::from_str_loose("360k-hd"), Some(PresetProfile::Pc525DdOnHd));
    assert_eq!(PresetProfile::from_str_loose("pc525dd"), Some(PresetProfile::Pc525Dd));
    assert_eq!(PresetProfile::from_str_loose("360K"), Some(PresetProfile::Pc525Dd));
    assert_eq!(PresetProfile::from_str_loose("amiga"), Some(PresetProfile::Amiga35Dd));
    assert_eq!(PresetProfile::from_str_loose("880k"), Some(PresetProfile::Amiga35Dd));
    assert_eq!(PresetProfile::from_str_loose("atari"), Some(PresetProfile::Atari35Dd));
    assert_eq!(PresetProfile::from_str_loose("cpc"), Some(PresetProfile::Cpc30Data));
    assert_eq!(PresetProfile::from_str_loose("178k"), Some(PresetProfile::Cpc30Data));
    assert_eq!(PresetProfile::from_str_loose("invalid_preset"), None);
}

#[test]
fn test_preset_profile_cycle_sequence() {
    let mut p = PresetProfile::Pc35Hd;
    assert_eq!(p, PresetProfile::default());

    p = p.next();
    assert_eq!(p, PresetProfile::Pc35Dd);
    assert_eq!(p.target_data_rate(), 250);
    assert_eq!(p.default_bus(), BusType::IbmPc);
    assert_eq!(p.default_step(), StepMode::Single);
    assert_eq!(p.format_profile(), DiskFormat::IbmPc);
    assert_eq!(p.target_rpm_whole() as f64, 300.0);

    p = p.next();
    assert_eq!(p, PresetProfile::Pc525Hd);
    assert_eq!(p.target_data_rate(), 500);
    assert_eq!(p.default_bus(), BusType::IbmPc);
    assert_eq!(p.default_step(), StepMode::Single);
    assert_eq!(p.format_profile(), DiskFormat::IbmPc);
    assert_eq!(p.target_rpm_whole() as f64, 360.0);

    p = p.next();
    assert_eq!(p, PresetProfile::Pc525DdOnHd);
    assert_eq!(p.target_data_rate(), 300);
    assert_eq!(p.default_bus(), BusType::IbmPc);
    assert_eq!(p.default_step(), StepMode::Double);
    assert_eq!(p.format_profile(), DiskFormat::IbmPc);
    assert_eq!(p.target_rpm_whole() as f64, 360.0);

    p = p.next();
    assert_eq!(p, PresetProfile::Pc525Dd);
    assert_eq!(p.target_data_rate(), 250);
    assert_eq!(p.default_bus(), BusType::IbmPc);
    assert_eq!(p.default_step(), StepMode::Single);
    assert_eq!(p.format_profile(), DiskFormat::IbmPc);
    assert_eq!(p.target_rpm_whole() as f64, 300.0);

    p = p.next();
    assert_eq!(p, PresetProfile::Amiga35Dd);
    assert_eq!(p.target_data_rate(), 250);
    assert_eq!(p.default_bus(), BusType::Shugart);
    assert_eq!(p.default_step(), StepMode::Single);
    assert_eq!(p.format_profile(), DiskFormat::AmigaDos);
    assert_eq!(p.target_rpm_whole() as f64, 300.0);

    p = p.next();
    assert_eq!(p, PresetProfile::Atari35Dd);
    assert_eq!(p.target_data_rate(), 250);
    assert_eq!(p.default_bus(), BusType::IbmPc);
    assert_eq!(p.default_step(), StepMode::Single);
    assert_eq!(p.format_profile(), DiskFormat::AtariSt);
    assert_eq!(p.target_rpm_whole() as f64, 300.0);

    p = p.next();
    assert_eq!(p, PresetProfile::Cpc30Data);
    assert_eq!(p.target_data_rate(), 250);
    assert_eq!(p.default_bus(), BusType::Shugart);
    assert_eq!(p.default_step(), StepMode::Single);
    assert_eq!(p.format_profile(), DiskFormat::AmstradCpcData);
    assert_eq!(p.target_rpm_whole() as f64, 300.0);

    p = p.next();
    assert_eq!(p, PresetProfile::Pc35Hd);
    assert_eq!(p.target_data_rate(), 500);
    assert_eq!(p.default_bus(), BusType::IbmPc);
    assert_eq!(p.default_step(), StepMode::Single);
    assert_eq!(p.format_profile(), DiskFormat::IbmPc);
    assert_eq!(p.target_rpm_whole() as f64, 300.0);
}

#[test]
fn test_disk_format_cycling_and_expected_counts() {
    let mut fmt = DiskFormat::AutoDetect;
    assert_eq!(fmt.short_name(), "AUTO");
    fmt = fmt.cycle_next();
    assert_eq!(fmt, DiskFormat::IbmPc);
    assert_eq!(fmt.short_name(), "PC");
    fmt = fmt.cycle_next();
    assert_eq!(fmt, DiskFormat::AmigaDos);
    assert_eq!(fmt.short_name(), "AMIGA");
    assert_eq!(fmt.expected_sector_count(250, 0), 11);
    assert_eq!(fmt.expected_sector_count(500, 0), 22);
    fmt = fmt.cycle_next();
    assert_eq!(fmt, DiskFormat::AtariSt);
    assert_eq!(fmt.short_name(), "ATARI");
    assert_eq!(fmt.expected_sector_count(250, 10), 10);
    assert_eq!(fmt.expected_sector_count(250, 11), 11);
    fmt = fmt.cycle_next();
    assert_eq!(fmt, DiskFormat::AmstradCpcData);
    assert_eq!(fmt.short_name(), "CPC-DATA");
    assert_eq!(fmt.expected_sector_count(250, 9), 9);
    fmt = fmt.cycle_next();
    assert_eq!(fmt, DiskFormat::AmstradCpcSystem);
    assert_eq!(fmt.short_name(), "CPC-SYS");
    fmt = fmt.cycle_next();
    assert_eq!(fmt, DiskFormat::AutoDetect);
}

#[test]
fn test_read_flux_cmd_packet_structure() {
    let revs: u16 = 3;
    let b_revs = revs.to_le_bytes();
    let read_cmd = [0x07, 0x08, 0x00, 0x00, 0x00, 0x00, b_revs[0], b_revs[1]];
    assert_eq!(read_cmd, [0x07, 0x08, 0x00, 0x00, 0x00, 0x00, 0x03, 0x00]);

    let revs2: u16 = 2;
    let b_revs2 = revs2.to_le_bytes();
    let read_cmd2 = [0x07, 0x08, 0x00, 0x00, 0x00, 0x00, b_revs2[0], b_revs2[1]];
    assert_eq!(read_cmd2, [0x07, 0x08, 0x00, 0x00, 0x00, 0x00, 0x02, 0x00]);
    assert_eq!(build_read_flux_packet(2), read_cmd2);
}

#[test]
fn preset_toggle_laws_on_concrete_values() {
    assert_eq!(BusType::IbmPc.toggle().toggle(), BusType::IbmPc);
    let mut p = PresetProfile::Amiga35Dd;
    for _ in 0..8 {
        p = p.next();
    }
    assert_eq!(p, PresetProfile::Amiga35Dd);
    let mut f = DiskFormat::AtariSt;
    for _ in 0..6 {
        f = f.cycle_next();
    }
    assert_eq!(f, DiskFormat::AtariSt);
    assert_eq!(PresetProfile::from_str_loose("  Amiga-DOS "), Some(PresetProfile::Amiga35Dd));
}
