use aligntester_diag::cli::{format_log_line, parse_cli_args, parse_u8};
use aligntester_diag::protocol::{BusType, PresetProfile, StepMode};

#[test]
fn test_cli_argument_parsing_drive_unit() {
    let args_default = vec!["aligntester".to_string()];
    let (port, unit, bus, step, preset) = parse_cli_args(&args_default);
    assert_eq!(port, None);
    assert_eq!(unit, 0);
    assert_eq!(bus, BusType::IbmPc);
    assert_eq!(step, StepMode::Single);
    assert_eq!(preset, PresetProfile::Pc35Hd);

    let args_port_only = vec!["aligntester".to_string(), "COM3".to_string()];
    let (port, unit, bus, step, preset) = parse_cli_args(&args_port_only);
    assert_eq!(port, Some("COM3".to_string()));
    assert_eq!(unit, 0);
    assert_eq!(bus, BusType::IbmPc);
    assert_eq!(step, StepMode::Single);
    assert_eq!(preset, PresetProfile::Pc35Hd);

    let args_drive1 = vec!["aligntester".to_string(), "--drive".to_string(), "1".to_string()];
    let (port, unit, _bus, _step, _preset) = parse_cli_args(&args_drive1);
    assert_eq!(port, None);
    assert_eq!(unit, 1);

    let args_drive0 = vec!["aligntester".to_string(), "--drive".to_string(), "0".to_string()];
    let (port, unit, _bus, _step, _preset) = parse_cli_args(&args_drive0);
    assert_eq!(port, None);
    assert_eq!(unit, 0);

    let args_short_d1 = vec!["aligntester".to_string(), "-d".to_string(), "1".to_string()];
    let (port, unit, _bus, _step, _preset) = parse_cli_args(&args_short_d1);
    assert_eq!(port, None);
    assert_eq!(unit, 1);

    let args_eq_syntax = vec!["aligntester".to_string(), "--drive=1".to_string(), "COM5".to_string()];
    let (port, unit, _bus, _step, _preset) = parse_cli_args(&args_eq_syntax);
    assert_eq!(port, Some("COM5".to_string()));
    assert_eq!(unit, 1);

    let args_short_eq = vec!["aligntester".to_string(), "COM5".to_string(), "-d=1".to_string()];
    let (port, unit, _bus, _step, _preset) = parse_cli_args(&args_short_eq);
    assert_eq!(port, Some("COM5".to_string()));
    assert_eq!(unit, 1);

    // Saturation to 1 in PC mode
    let args_out_of_bounds_pc = vec!["aligntester".to_string(), "--drive".to_string(), "4".to_string()];
    let (_port, unit, bus, _step, _preset) = parse_cli_args(&args_out_of_bounds_pc);
    assert_eq!(unit, 1);
    assert_eq!(bus, BusType::IbmPc);

    // Support for units 2 and 3 in Shugart mode
    let args_shugart_unit2 = vec!["aligntester".to_string(), "--bus".to_string(), "shugart".to_string(), "--drive".to_string(), "2".to_string()];
    let (_port, unit, bus, _step, _preset) = parse_cli_args(&args_shugart_unit2);
    assert_eq!(unit, 2);
    assert_eq!(bus, BusType::Shugart);

    let args_shugart_unit3 = vec!["aligntester".to_string(), "--shugart".to_string(), "-d=3".to_string()];
    let (_port, unit, bus, _step, _preset) = parse_cli_args(&args_shugart_unit3);
    assert_eq!(unit, 3);
    assert_eq!(bus, BusType::Shugart);

    // Saturation to 3 in Shugart mode
    let args_shugart_out_of_bounds = vec!["aligntester".to_string(), "--shugart".to_string(), "--drive".to_string(), "9".to_string()];
    let (_port, unit, bus, _step, _preset) = parse_cli_args(&args_shugart_out_of_bounds);
    assert_eq!(unit, 3);
    assert_eq!(bus, BusType::Shugart);
}

#[test]
fn test_cli_argument_parsing_bus_type() {
    let args_shugart = vec!["aligntester".to_string(), "--bus".to_string(), "shugart".to_string()];
    let (_port, _unit, bus, _step, _preset) = parse_cli_args(&args_shugart);
    assert_eq!(bus, BusType::Shugart);

    let args_shugart_short = vec!["aligntester".to_string(), "-b".to_string(), "shugart".to_string()];
    let (_port, _unit, bus, _step, _preset) = parse_cli_args(&args_shugart_short);
    assert_eq!(bus, BusType::Shugart);

    let args_shugart_flag = vec!["aligntester".to_string(), "--shugart".to_string()];
    let (_port, _unit, bus, _step, _preset) = parse_cli_args(&args_shugart_flag);
    assert_eq!(bus, BusType::Shugart);

    let args_bus_eq = vec!["aligntester".to_string(), "--bus=shugart".to_string()];
    let (_port, _unit, bus, _step, _preset) = parse_cli_args(&args_bus_eq);
    assert_eq!(bus, BusType::Shugart);

    let args_b_eq = vec!["aligntester".to_string(), "-b=shugart".to_string()];
    let (_port, _unit, bus, _step, _preset) = parse_cli_args(&args_b_eq);
    assert_eq!(bus, BusType::Shugart);

    let args_amiga = vec!["aligntester".to_string(), "--bus".to_string(), "amiga".to_string()];
    let (_port, _unit, bus, _step, _preset) = parse_cli_args(&args_amiga);
    assert_eq!(bus, BusType::Shugart);

    let args_pc = vec!["aligntester".to_string(), "--bus".to_string(), "pc".to_string()];
    let (_port, _unit, bus, _step, _preset) = parse_cli_args(&args_pc);
    assert_eq!(bus, BusType::IbmPc);
}

#[test]
fn test_cli_argument_parsing_step_mode() {
    let args_double = vec!["aligntester".to_string(), "--step".to_string(), "double".to_string()];
    let (_port, _unit, _bus, step, _preset) = parse_cli_args(&args_double);
    assert_eq!(step, StepMode::Double);

    let args_short_double = vec!["aligntester".to_string(), "-s".to_string(), "double".to_string()];
    let (_port, _unit, _bus, step, _preset) = parse_cli_args(&args_short_double);
    assert_eq!(step, StepMode::Double);

    let args_flag_double = vec!["aligntester".to_string(), "--double-step".to_string()];
    let (_port, _unit, _bus, step, _preset) = parse_cli_args(&args_flag_double);
    assert_eq!(step, StepMode::Double);

    let args_eq_double = vec!["aligntester".to_string(), "--step=double".to_string()];
    let (_port, _unit, _bus, step, _preset) = parse_cli_args(&args_eq_double);
    assert_eq!(step, StepMode::Double);

    let args_short_eq_double = vec!["aligntester".to_string(), "-s=2".to_string()];
    let (_port, _unit, _bus, step, _preset) = parse_cli_args(&args_short_eq_double);
    assert_eq!(step, StepMode::Double);

    let args_single = vec!["aligntester".to_string(), "--step".to_string(), "single".to_string()];
    let (_port, _unit, _bus, step, _preset) = parse_cli_args(&args_single);
    assert_eq!(step, StepMode::Single);

    let args_flag_single = vec!["aligntester".to_string(), "--single-step".to_string()];
    let (_port, _unit, _bus, step, _preset) = parse_cli_args(&args_flag_single);
    assert_eq!(step, StepMode::Single);
}

#[test]
fn test_cli_argument_parsing_presets() {
    let args_amiga = vec!["aligntester".to_string(), "--preset".to_string(), "amiga".to_string()];
    let (_port, _unit, bus, step, preset) = parse_cli_args(&args_amiga);
    assert_eq!(preset, PresetProfile::Amiga35Dd);
    assert_eq!(bus, BusType::Shugart);
    assert_eq!(step, StepMode::Single);

    let args_360k_on_hd = vec!["aligntester".to_string(), "-p".to_string(), "pc525ddonhd".to_string()];
    let (_port, _unit, bus, step, preset) = parse_cli_args(&args_360k_on_hd);
    assert_eq!(preset, PresetProfile::Pc525DdOnHd);
    assert_eq!(bus, BusType::IbmPc);
    assert_eq!(step, StepMode::Double);

    let args_cpc = vec!["aligntester".to_string(), "--preset=cpc".to_string()];
    let (_port, _unit, bus, step, preset) = parse_cli_args(&args_cpc);
    assert_eq!(preset, PresetProfile::Cpc30Data);
    assert_eq!(bus, BusType::Shugart);
    assert_eq!(step, StepMode::Single);

    let args_atari = vec!["aligntester".to_string(), "-p=atari".to_string()];
    let (_port, _unit, bus, step, preset) = parse_cli_args(&args_atari);
    assert_eq!(preset, PresetProfile::Atari35Dd);
    assert_eq!(bus, BusType::IbmPc);
    assert_eq!(step, StepMode::Single);
}

#[test]
fn test_cli_argument_parsing_port_flags() {
    let args_p_short = vec!["aligntester".to_string(), "-p".to_string(), "COM4".to_string(), "-d".to_string(), "1".to_string()];
    let (port, unit, _bus, _step, _preset) = parse_cli_args(&args_p_short);
    assert_eq!(port, Some("COM4".to_string()));
    assert_eq!(unit, 1);

    let args_p_long = vec!["aligntester".to_string(), "--port".to_string(), "/dev/ttyACM0".to_string()];
    let (port, unit, _bus, _step, _preset) = parse_cli_args(&args_p_long);
    assert_eq!(port, Some("/dev/ttyACM0".to_string()));
    assert_eq!(unit, 0);

    let args_p_eq = vec!["aligntester".to_string(), "--port=COM7".to_string(), "--drive=1".to_string()];
    let (port, unit, _bus, _step, _preset) = parse_cli_args(&args_p_eq);
    assert_eq!(port, Some("COM7".to_string()));
    assert_eq!(unit, 1);

    let args_short_p_eq = vec!["aligntester".to_string(), "-p=COM9".to_string()];
    let (port, unit, _bus, _step, _preset) = parse_cli_args(&args_short_p_eq);
    assert_eq!(port, Some("COM9".to_string()));
    assert_eq!(unit, 0);
}

#[test]
fn cli_defaults_values_and_log_prefix() {
    let args = vec!["x".to_string(), "--preset".to_string(), "nonsense".to_string(), "--drive=+2".to_string(), "--shugart".to_string()];
    let (port, unit, bus, step, preset) = parse_cli_args(&args);
    assert_eq!(port, None);
    assert_eq!(unit, 2);
    assert_eq!(bus, BusType::Shugart);
    assert_eq!(step, StepMode::Single);
    assert_eq!(preset, PresetProfile::Pc35Hd);

    let args = vec!["x".to_string(), "-d".to_string(), "256".to_string(), "--step".to_string(), "48TPI".to_string(), "COM1".to_string(), "COM2".to_string()];
    let (port, unit, _bus, step, _preset) = parse_cli_args(&args);
    assert_eq!(port, Some("COM1".to_string()));
    assert_eq!(unit, 0);
    assert_eq!(step, StepMode::Double);

    assert_eq!(parse_u8("007"), Some(7));
    assert_eq!(parse_u8("+255"), Some(255));
    assert_eq!(parse_u8("256"), None);
    assert_eq!(parse_u8("-1"), None);
    assert_eq!(parse_u8("+"), None);
    assert_eq!(parse_u8(""), None);
    assert_eq!(parse_u8("1a"), None);

    assert_eq!(format_log_line("Log: ready"), "Log: ready");
    assert_eq!(format_log_line("ready"), "Log: ready");
}

#[test]
fn test_cli_help_and_version_flags() {
    let banner = aligntester_diag::cli::build_cli_banner();
    assert!(banner.contains("💾 AlignTesterDiag"));
    assert!(banner.contains("0.1.0"));
    assert!(banner.contains("2026 MonSieur JeAn-FReD (GPL-3.0)"));
    assert!(banner.contains("--port"));
    assert!(banner.contains("--drive"));
    assert!(banner.contains("--step"));
    assert!(banner.contains("--help"));
    assert!(banner.contains("--version"));

    let wants = aligntester_diag::cli::wants_help_or_version;
    let args_help_short = vec!["aligntester".to_string(), "-h".to_string()];
    assert!(wants(&args_help_short));
    let args_help_long = vec!["aligntester".to_string(), "--help".to_string()];
    assert!(wants(&args_help_long));
    let args_ver_short_v = vec!["aligntester".to_string(), "-v".to_string()];
    assert!(wants(&args_ver_short_v));
    let args_ver_short_cap_v = vec!["aligntester".to_string(), "-V".to_string()];
    assert!(wants(&args_ver_short_cap_v));
    let args_ver_long = vec!["aligntester".to_string(), "--version".to_string()];
    assert!(wants(&args_ver_long));
    let args_normal = vec!["aligntester".to_string(), "COM3".to_string(), "-d".to_string(), "1".to_string()];
    assert!(!wants(&args_normal));
}

#[test]
fn banner_starts_with_release() {
    let banner = aligntester_diag::cli::cli_banner("9.9.9");
    assert!(banner.starts_with("💾 AlignTesterDiag v9.9.9\nReal-time Floppy Drive Diagnostic"));
    assert!(banner.ends_with("  -v, -V, --version          Print version information\n"));
    assert!(!aligntester_diag::cli::wants_help_or_version(&["-h".to_string()]));
}
