//! Greaseweazle USB CDC protocol constants, opcodes, drive / format
//! enumerations and packet constructors.
use vstd::prelude::*;
use std::time::Duration;
use crate::drive::{duration_from_millis, millis_duration};
use crate::text::{
    all_ascii, ascii_lower, chars_eq_str, is_unicode_whitespace, leading_ws, std_str_to_lowercase,
    std_str_trim, str_to_chars, trailing_ws, trim_spec, unicode_lowercase,
};

verus! {

/// Query device information / firmware version (0x00).
pub const CMD_GET_INFO: u8 = 0x00;
/// Firmware update mode (0x01).
pub const CMD_UPDATE: u8 = 0x01;
/// Step the head carriage to a cylinder (0x02).
pub const CMD_SEEK: u8 = 0x02;
/// Select the physical head (0x03).
pub const CMD_HEAD: u8 = 0x03;
/// Set controller parameters (0x04).
pub const CMD_SET_PARAMS: u8 = 0x04;
/// Get controller parameters (0x05).
pub const CMD_GET_PARAMS: u8 = 0x05;
/// Spindle motor on / off (0x06).
pub const CMD_MOTOR: u8 = 0x06;
/// Stream raw flux from the drive (0x07).
pub const CMD_READ_FLUX: u8 = 0x07;
/// Write raw flux to the drive (0x08).
pub const CMD_WRITE_FLUX: u8 = 0x08;
/// Query flux status (0x09).
pub const CMD_GET_FLUX_STATUS: u8 = 0x09;
/// Retrieve index pulse timestamps (0x0A).
pub const CMD_GET_INDEX_TIMES: u8 = 0x0A;
/// Switch firmware operating mode (0x0B).
pub const CMD_SWITCH_FW_MODE: u8 = 0x0B;
/// Select a drive unit (0x0C).
pub const CMD_SELECT: u8 = 0x0C;
/// Deselect all drive units (0x0D).
pub const CMD_DESELECT: u8 = 0x0D;
/// Configure the bus type pinout (0x0E).
pub const CMD_SET_BUS_TYPE: u8 = 0x0E;
/// Set an output pin (0x0F).
pub const CMD_SET_PIN: u8 = 0x0F;
/// Protocol re-sync opcode (same value as CMD_GET_INFO).
pub const CMD_RESET: u8 = 0x00;
/// Direct hardware reset (0x10).
pub const CMD_HARDWARE_RESET: u8 = 0x10;
/// Erase flux on the current cylinder (0x11).
pub const CMD_ERASE_FLUX: u8 = 0x11;
/// Read the level of a connector pin (0x14).
pub const CMD_GET_PIN: u8 = 0x14;

/// Command executed successfully.
pub const ACK_OKAY: u8 = 0x00;
/// Unrecognised command.
pub const ACK_BAD_COMMAND: u8 = 0x01;
/// No index pulse detected.
pub const ACK_NO_INDEX: u8 = 0x02;
/// Track 0 not found during seek.
pub const ACK_NO_TRK0: u8 = 0x03;
/// Flux buffer overflow.
pub const ACK_FLUX_OVERFLOW: u8 = 0x04;
/// Flux stream underflow.
pub const ACK_FLUX_UNDERFLOW: u8 = 0x05;
/// Diskette is write protected.
pub const ACK_WRPROT: u8 = 0x06;
/// No unit selected / busy.
pub const ACK_NO_UNIT: u8 = 0x07;
/// Interface bus not enabled.
pub const ACK_NO_BUS: u8 = 0x08;
/// Invalid drive unit.
pub const ACK_BAD_UNIT: u8 = 0x09;
/// Invalid pin.
pub const ACK_BAD_PIN: u8 = 0x0A;
/// Invalid cylinder.
pub const ACK_BAD_CYLINDER: u8 = 0x0B;

/// Read guard timeout for ACK responses, in milliseconds.
pub const ACK_GUARD_TIMEOUT_MS: u64 = 500;

/// Floppy interface bus pinout.
#[derive(Debug, Clone, Copy, PartialEq, Eq, Structural)]
pub enum BusType {
    /// Standard IBM PC floppy bus (opcode payload 0x01).
    IbmPc,
    /// Shugart floppy bus (opcode payload 0x02).
    Shugart,
}

impl Default for BusType {
    fn default() -> (r: Self)
        ensures
            r == BusType::IbmPc,
    {
        BusType::IbmPc
    }
}

impl BusType {
    /// Payload byte of CMD_SET_BUS_TYPE for this bus.
    pub open spec fn spec_opcode(self) -> u8 {
        match self {
            BusType::IbmPc => 0x01,
            BusType::Shugart => 0x02,
        }
    }

    /// Returns the raw payload byte for CMD_SET_BUS_TYPE.
    pub fn opcode_val(self) -> (r: u8)
        ensures
            r == self.spec_opcode(),
    {
        match self {
            BusType::IbmPc => 0x01,
            BusType::Shugart => 0x02,
        }
    }

    /// Human-readable name of the bus.
    pub fn as_str(self) -> (r: &'static str)
        ensures
            r@ == (match self {
                BusType::IbmPc => "IBM PC"@,
                BusType::Shugart => "Shugart"@,
            }),
    {
        match self {
            BusType::IbmPc => "IBM PC",
            BusType::Shugart => "Shugart",
        }
    }

    /// The other bus type.
    pub open spec fn spec_toggle(self) -> Self {
        match self {
            BusType::IbmPc => BusType::Shugart,
            BusType::Shugart => BusType::IbmPc,
        }
    }

    /// Toggles between IBM PC and Shugart.
    pub fn toggle(self) -> (r: Self)
        ensures
            r == self.spec_toggle(),
    {
        match self {
            BusType::IbmPc => BusType::Shugart,
            BusType::Shugart => BusType::IbmPc,
        }
    }

    /// Converts a raw payload byte back to a bus type.
    pub fn from_u8(val: u8) -> (r: Option<Self>)
        ensures
            r == (if val == 0x01 {
                Some(BusType::IbmPc)
            } else if val == 0x02 {
                Some(BusType::Shugart)
            } else {
                None
            }),
    {
        match val {
            0x01 => Some(BusType::IbmPc),
            0x02 => Some(BusType::Shugart),
            _ => None,
        }
    }
}

/// Law: converting a bus type to its payload byte and back is the identity.
pub proof fn lemma_bus_type_opcode_roundtrip(b: BusType)
    ensures
        (if b.spec_opcode() == 0x01 {
            Some(BusType::IbmPc)
        } else if b.spec_opcode() == 0x02 {
            Some(BusType::Shugart)
        } else {
            None
        }) == Some(b),
{
}

/// Law: toggling the bus type twice gives the original.
pub proof fn lemma_bus_type_toggle_involution(b: BusType)
    ensures
        b.spec_toggle().spec_toggle() == b,
        b.spec_toggle() != b,
{
}

/// Head carriage step mode: Single (1:1) or Double (2:1, 48 TPI media).
#[derive(Debug, Clone, Copy, PartialEq, Eq, Structural)]
pub enum StepMode {
    Single,
    Double,
}

impl Default for StepMode {
    fn default() -> (r: Self)
        ensures
            r == StepMode::Single,
    {
        StepMode::Single
    }
}

impl StepMode {
    pub open spec fn spec_toggle(self) -> Self {
        match self {
            StepMode::Single => StepMode::Double,
            StepMode::Double => StepMode::Single,
        }
    }

    /// Toggles between Single and Double.
    pub fn toggle(&self) -> (r: Self)
        ensures
            r == self.spec_toggle(),
    {
        match self {
            StepMode::Single => StepMode::Double,
            StepMode::Double => StepMode::Single,
        }
    }

    pub open spec fn spec_multiplier(self) -> u8 {
        match self {
            StepMode::Single => 1,
            StepMode::Double => 2,
        }
    }

    /// Physical track multiplier (1 for Single, 2 for Double).
    pub fn multiplier(&self) -> (r: u8)
        ensures
            r == self.spec_multiplier(),
    {
        match self {
            StepMode::Single => 1,
            StepMode::Double => 2,
        }
    }

    pub open spec fn spec_max_logical_tracks(self) -> u8 {
        match self {
            StepMode::Single => 83,
            StepMode::Double => 41,
        }
    }

    /// Highest reachable logical track (83 in Single, 41 in Double).
    pub fn max_logical_tracks(&self) -> (r: u8)
        ensures
            r == self.spec_max_logical_tracks(),
    {
        match self {
            StepMode::Single => 83,
            StepMode::Double => 41,
        }
    }

    /// Human-readable label.
    pub fn as_str(&self) -> (r: &'static str)
        ensures
            r@ == (match self {
                StepMode::Single => "1:1 (Single)"@,
                StepMode::Double => "2:1 (Double)"@,
            }),
    {
        match self {
            StepMode::Single => "1:1 (Single)",
            StepMode::Double => "2:1 (Double)",
        }
    }
}

/// Law: every reachable logical track maps to a physical cylinder of at most 83.
pub proof fn lemma_step_mode_physical_bound(m: StepMode, logical: u8)
    requires
        logical <= m.spec_max_logical_tracks(),
    ensures
        logical * m.spec_multiplier() <= 83,
{
}

/// Multi-format disk profile used for decoding.
#[derive(Clone, Copy, Debug, PartialEq, Eq, Structural)]
pub enum DiskFormat {
    AutoDetect,
    IbmPc,
    AmigaDos,
    AtariSt,
    AmstradCpcData,
    AmstradCpcSystem,
}

impl Default for DiskFormat {
    fn default() -> (r: Self)
        ensures
            r == DiskFormat::AutoDetect,
    {
        DiskFormat::AutoDetect
    }
}

impl DiskFormat {
    /// Long display name.
    pub fn name(&self) -> (r: &'static str)
        ensures
            r@ == (match self {
                DiskFormat::AutoDetect => "Auto-Detect"@,
                DiskFormat::IbmPc => "IBM PC (FAT)"@,
                DiskFormat::AmigaDos => "AmigaDOS (Paula)"@,
                DiskFormat::AtariSt => "Atari ST (WD1772)"@,
                DiskFormat::AmstradCpcData => "Amstrad CPC (DATA)"@,
                DiskFormat::AmstradCpcSystem => "Amstrad CPC (SYSTEM)"@,
            }),
    {
        match self {
            DiskFormat::AutoDetect => "Auto-Detect",
            DiskFormat::IbmPc => "IBM PC (FAT)",
            DiskFormat::AmigaDos => "AmigaDOS (Paula)",
            DiskFormat::AtariSt => "Atari ST (WD1772)",
            DiskFormat::AmstradCpcData => "Amstrad CPC (DATA)",
            DiskFormat::AmstradCpcSystem => "Amstrad CPC (SYSTEM)",
        }
    }

    /// Short display name.
    pub fn short_name(&self) -> (r: &'static str)
        ensures
            r@ == (match self {
                DiskFormat::AutoDetect => "AUTO"@,
                DiskFormat::IbmPc => "PC"@,
                DiskFormat::AmigaDos => "AMIGA"@,
                DiskFormat::AtariSt => "ATARI"@,
                DiskFormat::AmstradCpcData => "CPC-DATA"@,
                DiskFormat::AmstradCpcSystem => "CPC-SYS"@,
            }),
    {
        match self {
            DiskFormat::AutoDetect => "AUTO",
            DiskFormat::IbmPc => "PC",
            DiskFormat::AmigaDos => "AMIGA",
            DiskFormat::AtariSt => "ATARI",
            DiskFormat::AmstradCpcData => "CPC-DATA",
            DiskFormat::AmstradCpcSystem => "CPC-SYS",
        }
    }

    pub open spec fn spec_cycle_next(self) -> Self {
        match self {
            DiskFormat::AutoDetect => DiskFormat::IbmPc,
            DiskFormat::IbmPc => DiskFormat::AmigaDos,
            DiskFormat::AmigaDos => DiskFormat::AtariSt,
            DiskFormat::AtariSt => DiskFormat::AmstradCpcData,
            DiskFormat::AmstradCpcData => DiskFormat::AmstradCpcSystem,
            DiskFormat::AmstradCpcSystem => DiskFormat::AutoDetect,
        }
    }

    /// Next format in the cycle Auto, PC, Amiga, Atari, CPC data, CPC system.
    pub fn cycle_next(&self) -> (r: Self)
        ensures
            r == self.spec_cycle_next(),
    {
        match self {
            DiskFormat::AutoDetect => DiskFormat::IbmPc,
            DiskFormat::IbmPc => DiskFormat::AmigaDos,
            DiskFormat::AmigaDos => DiskFormat::AtariSt,
            DiskFormat::AtariSt => DiskFormat::AmstradCpcData,
            DiskFormat::AmstradCpcData => DiskFormat::AmstradCpcSystem,
            DiskFormat::AmstradCpcSystem => DiskFormat::AutoDetect,
        }
    }

    /// Expected sectors per track for this format at a bit rate, given how
    /// many sectors were detected.
    pub open spec fn spec_expected_sector_count(self, bitrate: u16, detected_count: u8) -> u8 {
        match self {
            DiskFormat::AmigaDos => if bitrate == 500 {
                22
            } else {
                11
            },
            DiskFormat::AmstradCpcData => if detected_count >= 10 {
                10
            } else {
                9
            },
            DiskFormat::AmstradCpcSystem => 9,
            DiskFormat::AtariSt => if detected_count >= 11 {
                11
            } else if detected_count == 10 {
                10
            } else {
                9
            },
            DiskFormat::IbmPc => if bitrate == 500 {
                if detected_count == 15 {
                    15
                } else {
                    18
                }
            } else {
                9
            },
            DiskFormat::AutoDetect => if bitrate == 500 {
                if detected_count == 15 {
                    15
                } else if detected_count == 22 {
                    22
                } else if detected_count > 18 {
                    detected_count
                } else {
                    18
                }
            } else if detected_count == 11 {
                11
            } else if detected_count == 10 {
                10
            } else if detected_count > 0 {
                detected_count
            } else {
                9
            },
        }
    }

    pub fn expected_sector_count(&self, bitrate: u16, detected_count: u8) -> (r: u8)
        ensures
            r == self.spec_expected_sector_count(bitrate, detected_count),
    {
        match self {
            DiskFormat::AmigaDos => {
                if bitrate == 500 {
                    22
                } else {
                    11
                }
            },
            DiskFormat::AmstradCpcData => {
                if detected_count >= 10 {
                    10
                } else {
                    9
                }
            },
            DiskFormat::AmstradCpcSystem => 9,
            DiskFormat::AtariSt => {
                if detected_count >= 11 {
                    11
                } else if detected_count == 10 {
                    10
                } else {
                    9
                }
            },
            DiskFormat::IbmPc => {
                if bitrate == 500 {
                    if detected_count == 15 {
                        15
                    } else {
                        18
                    }
                } else {
                    9
                }
            },
            DiskFormat::AutoDetect => {
                if bitrate == 500 {
                    if detected_count == 15 {
                        15
                    } else if detected_count == 22 {
                        22
                    } else if detected_count > 18 {
                        detected_count
                    } else {
                        18
                    }
                } else if detected_count == 11 {
                    11
                } else if detected_count == 10 {
                    10
                } else if detected_count > 0 {
                    detected_count
                } else {
                    9
                }
            },
        }
    }
}

/// Law: six steps of the format cycle come back to the start, and no
/// shorter positive number of steps does.
pub proof fn lemma_disk_format_cycle_period(f: DiskFormat)
    ensures
        f.spec_cycle_next().spec_cycle_next().spec_cycle_next().spec_cycle_next().spec_cycle_next().spec_cycle_next()
            == f,
        f.spec_cycle_next() != f,
        f.spec_cycle_next().spec_cycle_next() != f,
        f.spec_cycle_next().spec_cycle_next().spec_cycle_next() != f,
{
}

/// Law: every expected sector count is a positive count.
pub proof fn lemma_expected_sector_count_positive(f: DiskFormat, bitrate: u16, detected: u8)
    ensures
        f.spec_expected_sector_count(bitrate, detected) >= 1,
{
}

/// Hardware drive and format presets.
#[derive(Debug, Clone, Copy, PartialEq, Eq, Structural)]
pub enum PresetProfile {
    /// 3.5" HD (1.44M, PC bus, 500 kbps @ 300 RPM)
    Pc35Hd,
    /// 3.5" DD (720K, PC bus, 250 kbps @ 300 RPM)
    Pc35Dd,
    /// 5.25" HD (1.2M, PC bus, 500 kbps @ 360 RPM)
    Pc525Hd,
    /// 5.25" DD on an HD drive (360K, double step, 300 kbps @ 360 RPM)
    Pc525DdOnHd,
    /// 5.25" DD on a DD drive (360K, 250 kbps @ 300 RPM)
    Pc525Dd,
    /// Amiga 3.5" (880K, Shugart bus, 250 kbps)
    Amiga35Dd,
    /// Atari 3.5" (720K, PC bus, 250 kbps)
    Atari35Dd,
    /// Amstrad CPC 3.0" (178K, Shugart bus, 250 kbps)
    Cpc30Data,
}

impl Default for PresetProfile {
    fn default() -> (r: Self)
        ensures
            r == PresetProfile::Pc35Hd,
    {
        PresetProfile::Pc35Hd
    }
}

impl PresetProfile {
    pub open spec fn spec_next(self) -> Self {
        match self {
            PresetProfile::Pc35Hd => PresetProfile::Pc35Dd,
            PresetProfile::Pc35Dd => PresetProfile::Pc525Hd,
            PresetProfile::Pc525Hd => PresetProfile::Pc525DdOnHd,
            PresetProfile::Pc525DdOnHd => PresetProfile::Pc525Dd,
            PresetProfile::Pc525Dd => PresetProfile::Amiga35Dd,
            PresetProfile::Amiga35Dd => PresetProfile::Atari35Dd,
            PresetProfile::Atari35Dd => PresetProfile::Cpc30Data,
            PresetProfile::Cpc30Data => PresetProfile::Pc35Hd,
        }
    }

    /// Next preset in the standard order.
    pub fn next(&self) -> (r: Self)
        ensures
            r == self.spec_next(),
    {
        match self {
            PresetProfile::Pc35Hd => PresetProfile::Pc35Dd,
            PresetProfile::Pc35Dd => PresetProfile::Pc525Hd,
            PresetProfile::Pc525Hd => PresetProfile::Pc525DdOnHd,
            PresetProfile::Pc525DdOnHd => PresetProfile::Pc525Dd,
            PresetProfile::Pc525Dd => PresetProfile::Amiga35Dd,
            PresetProfile::Amiga35Dd => PresetProfile::Atari35Dd,
            PresetProfile::Atari35Dd => PresetProfile::Cpc30Data,
            PresetProfile::Cpc30Data => PresetProfile::Pc35Hd,
        }
    }

    /// Same as `next`.
    pub fn cycle_next(&self) -> (r: Self)
        ensures
            r == self.spec_next(),
    {
        self.next()
    }

    pub open spec fn spec_is_48_tpi(self) -> bool {
        match self {
            PresetProfile::Pc525DdOnHd | PresetProfile::Pc525Dd | PresetProfile::Cpc30Data => true,
            _ => false,
        }
    }

    /// Whether the medium has 48 tracks per inch (40-track 5.25" DD and
    /// the Amstrad 3.0" disk).
    pub fn is_48_tpi(&self) -> (r: bool)
        ensures
            r == self.spec_is_48_tpi(),
    {
        match self {
            PresetProfile::Pc525DdOnHd | PresetProfile::Pc525Dd | PresetProfile::Cpc30Data => true,
            _ => false,
        }
    }

    /// Descriptive label.
    pub fn label(&self) -> (r: &'static str)
        ensures
            r@ == (match self {
                PresetProfile::Pc35Hd => "3.5\" HD (1.44M)"@,
                PresetProfile::Pc35Dd => "3.5\" DD (720K)"@,
                PresetProfile::Pc525Hd => "5.25\" HD (1.2M)"@,
                PresetProfile::Pc525DdOnHd => "5.25\" DD on HD (360K)"@,
                PresetProfile::Pc525Dd => "5.25\" DD (360K)"@,
                PresetProfile::Amiga35Dd => "Amiga 3.5\" DD (880K)"@,
                PresetProfile::Atari35Dd => "Atari 3.5\" DD (720K)"@,
                PresetProfile::Cpc30Data => "Amstrad CPC 3.0\" (178K)"@,
            }),
    {
        match self {
            PresetProfile::Pc35Hd => "3.5\" HD (1.44M)",
            PresetProfile::Pc35Dd => "3.5\" DD (720K)",
            PresetProfile::Pc525Hd => "5.25\" HD (1.2M)",
            PresetProfile::Pc525DdOnHd => "5.25\" DD on HD (360K)",
            PresetProfile::Pc525Dd => "5.25\" DD (360K)",
            PresetProfile::Amiga35Dd => "Amiga 3.5\" DD (880K)",
            PresetProfile::Atari35Dd => "Atari 3.5\" DD (720K)",
            PresetProfile::Cpc30Data => "Amstrad CPC 3.0\" (178K)",
        }
    }

    /// Compact label.
    pub fn short_name(&self) -> (r: &'static str)
        ensures
            r@ == (match self {
                PresetProfile::Pc35Hd => "3.5 HD"@,
                PresetProfile::Pc35Dd => "3.5 DD"@,
                PresetProfile::Pc525Hd => "5.25 HD"@,
                PresetProfile::Pc525DdOnHd => "5.25 DD@HD"@,
                PresetProfile::Pc525Dd => "5.25 DD"@,
                PresetProfile::Amiga35Dd => "Amiga 3.5"@,
                PresetProfile::Atari35Dd => "Atari 3.5"@,
                PresetProfile::Cpc30Data => "CPC 3.0"@,
            }),
    {
        match self {
            PresetProfile::Pc35Hd => "3.5 HD",
            PresetProfile::Pc35Dd => "3.5 DD",
            PresetProfile::Pc525Hd => "5.25 HD",
            PresetProfile::Pc525DdOnHd => "5.25 DD@HD",
            PresetProfile::Pc525Dd => "5.25 DD",
            PresetProfile::Amiga35Dd => "Amiga 3.5",
            PresetProfile::Atari35Dd => "Atari 3.5",
            PresetProfile::Cpc30Data => "CPC 3.0",
        }
    }

    pub open spec fn spec_target_data_rate(self) -> u16 {
        match self {
            PresetProfile::Pc35Hd => 500,
            PresetProfile::Pc525Hd => 500,
            PresetProfile::Pc525DdOnHd => 300,
            _ => 250,
        }
    }

    /// Nominal data rate in kbps (500, 300 or 250).
    pub fn target_data_rate(&self) -> (r: u16)
        ensures
            r == self.spec_target_data_rate(),
    {
        match self {
            PresetProfile::Pc35Hd => 500,
            PresetProfile::Pc35Dd => 250,
            PresetProfile::Pc525Hd => 500,
            PresetProfile::Pc525DdOnHd => 300,
            PresetProfile::Pc525Dd => 250,
            PresetProfile::Amiga35Dd => 250,
            PresetProfile::Atari35Dd => 250,
            PresetProfile::Cpc30Data => 250,
        }
    }

    pub open spec fn spec_target_rpm(self) -> u32 {
        match self {
            PresetProfile::Pc525Hd | PresetProfile::Pc525DdOnHd => 360,
            _ => 300,
        }
    }

    /// Nominal spindle speed in RPM (360 for the 5.25" HD drive presets, else 300).
    pub fn target_rpm_whole(&self) -> (r: u32)
        ensures
            r == self.spec_target_rpm(),
    {
        match self {
            PresetProfile::Pc525Hd | PresetProfile::Pc525DdOnHd => 360,
            _ => 300,
        }
    }

    pub open spec fn spec_default_bus(self) -> BusType {
        match self {
            PresetProfile::Amiga35Dd | PresetProfile::Cpc30Data => BusType::Shugart,
            _ => BusType::IbmPc,
        }
    }

    /// Default interface bus.
    pub fn default_bus(&self) -> (r: BusType)
        ensures
            r == self.spec_default_bus(),
    {
        match self {
            PresetProfile::Amiga35Dd | PresetProfile::Cpc30Data => BusType::Shugart,
            _ => BusType::IbmPc,
        }
    }

    pub open spec fn spec_default_step(self) -> StepMode {
        match self {
            PresetProfile::Pc525DdOnHd => StepMode::Double,
            _ => StepMode::Single,
        }
    }

    /// Default step mode.
    pub fn default_step(&self) -> (r: StepMode)
        ensures
            r == self.spec_default_step(),
    {
        match self {
            PresetProfile::Pc525DdOnHd => StepMode::Double,
            _ => StepMode::Single,
        }
    }

    pub open spec fn spec_format_profile(self) -> DiskFormat {
        match self {
            PresetProfile::Amiga35Dd => DiskFormat::AmigaDos,
            PresetProfile::Atari35Dd => DiskFormat::AtariSt,
            PresetProfile::Cpc30Data => DiskFormat::AmstradCpcData,
            _ => DiskFormat::IbmPc,
        }
    }

    /// Default decoding profile.
    pub fn format_profile(&self) -> (r: DiskFormat)
        ensures
            r == self.spec_format_profile(),
    {
        match self {
            PresetProfile::Pc35Hd | PresetProfile::Pc35Dd | PresetProfile::Pc525Hd
            | PresetProfile::Pc525DdOnHd | PresetProfile::Pc525Dd => DiskFormat::IbmPc,
            PresetProfile::Amiga35Dd => DiskFormat::AmigaDos,
            PresetProfile::Atari35Dd => DiskFormat::AtariSt,
            PresetProfile::Cpc30Data => DiskFormat::AmstradCpcData,
        }
    }
}

/// Law: eight steps of the preset cycle come back to the start.
pub proof fn lemma_preset_cycle_period(p: PresetProfile)
    ensures
        p.spec_next().spec_next().spec_next().spec_next().spec_next().spec_next().spec_next().spec_next()
            == p,
        p.spec_next() != p,
{
}

/// The standard ACK guard timeout (500 ms).
pub fn ack_guard_timeout() -> (d: Duration)
    ensures
        d == millis_duration(500),
{
    duration_from_millis(ACK_GUARD_TIMEOUT_MS)
}

/// `[0x00, 0x03, 0x00]`: CMD_RESET / CMD_GET_INFO synchronisation packet.
pub fn build_reset_packet() -> (p: [u8; 3])
    ensures
        p@ == seq![0x00u8, 0x03, 0x00],
{
    let p = [CMD_RESET, 0x03, 0x00];
    assert(p@ =~= seq![0x00u8, 0x03, 0x00]);
    p
}

/// `[0x06, 0x04, unit, state]`: CMD_MOTOR packet.
pub fn build_motor_packet(unit: u8, state: bool) -> (p: [u8; 4])
    ensures
        p@ == seq![0x06u8, 0x04, unit, if state { 0x01u8 } else { 0x00u8 }],
{
    let p = [CMD_MOTOR, 0x04, unit, if state { 0x01 } else { 0x00 }];
    assert(p@ =~= seq![0x06u8, 0x04, unit, if state { 0x01u8 } else { 0x00u8 }]);
    p
}

/// `[0x03, 0x03, head]`: CMD_HEAD packet.
pub fn build_head_packet(head: u8) -> (p: [u8; 3])
    ensures
        p@ == seq![0x03u8, 0x03, head],
{
    let p = [CMD_HEAD, 0x03, head];
    assert(p@ =~= seq![0x03u8, 0x03, head]);
    p
}

/// `[0x0C, 0x03, unit]`: CMD_SELECT packet.
pub fn build_select_packet(unit: u8) -> (p: [u8; 3])
    ensures
        p@ == seq![0x0Cu8, 0x03, unit],
{
    let p = [CMD_SELECT, 0x03, unit];
    assert(p@ =~= seq![0x0Cu8, 0x03, unit]);
    p
}

/// `[0x0D, 0x02]`: CMD_DESELECT packet.
pub fn build_deselect_packet() -> (p: [u8; 2])
    ensures
        p@ == seq![0x0Du8, 0x02],
{
    let p = [CMD_DESELECT, 0x02];
    assert(p@ =~= seq![0x0Du8, 0x02]);
    p
}

/// `[0x0E, 0x03, bus_type]`: CMD_SET_BUS_TYPE packet.
pub fn build_bus_type_packet(bus_type: u8) -> (p: [u8; 3])
    ensures
        p@ == seq![0x0Eu8, 0x03, bus_type],
{
    let p = [CMD_SET_BUS_TYPE, 0x03, bus_type];
    assert(p@ =~= seq![0x0Eu8, 0x03, bus_type]);
    p
}

/// `[0x02, 0x03, cyl]`: CMD_SEEK packet.
pub fn build_seek_packet(cyl: u8) -> (p: [u8; 3])
    ensures
        p@ == seq![0x02u8, 0x03, cyl],
{
    let p = [CMD_SEEK, 0x03, cyl];
    assert(p@ =~= seq![0x02u8, 0x03, cyl]);
    p
}

/// `[0x07, 0x08, 0, 0, 0, 0, revs_lo, revs_hi]`: CMD_READ_FLUX packet.
pub fn build_read_flux_packet(revs: u16) -> (p: [u8; 8])
    ensures
        p@ == seq![0x07u8, 0x08, 0x00, 0x00, 0x00, 0x00, (revs & 0xFF) as u8, (revs >> 8u16) as u8],
{
    let lo: u8 = (revs & 0xFF) as u8;
    let hi: u8 = (revs >> 8u16) as u8;
    let p = [CMD_READ_FLUX, 0x08, 0x00, 0x00, 0x00, 0x00, lo, hi];
    assert(p@ =~= seq![0x07u8, 0x08, 0x00, 0x00, 0x00, 0x00, lo, hi]);
    p
}

/// `[0x08, 0x04, cue_at_index, terminate_at_index]`: CMD_WRITE_FLUX packet.
pub fn build_write_flux_packet(cue_at_index: bool, terminate_at_index: bool) -> (p: [u8; 4])
    ensures
        p@ == seq![0x08u8, 0x04, (if cue_at_index { 1u8 } else { 0u8 }), (if terminate_at_index { 1u8 } else { 0u8 })],
{
    let c: u8 = if cue_at_index { 1 } else { 0 };
    let t: u8 = if terminate_at_index { 1 } else { 0 };
    let p = [0x08u8, 0x04, c, t];
    assert(p@ =~= seq![0x08u8, 0x04, c, t]);
    p
}

/// `[0x11, 0x06, ticks (little-endian)]`: CMD_ERASE_FLUX packet.
pub fn build_erase_flux_packet(ticks: u32) -> (p: [u8; 6])
    ensures
        p@ == seq![
            0x11u8,
            0x06,
            (ticks & 0xFF) as u8,
            ((ticks >> 8u32) & 0xFF) as u8,
            ((ticks >> 16u32) & 0xFF) as u8,
            (ticks >> 24u32) as u8,
        ],
{
    let b0: u8 = (ticks & 0xFF) as u8;
    let b1: u8 = ((ticks >> 8u32) & 0xFF) as u8;
    let b2: u8 = ((ticks >> 16u32) & 0xFF) as u8;
    let b3: u8 = (ticks >> 24u32) as u8;
    let p = [0x11u8, 0x06, b0, b1, b2, b3];
    assert(p@ =~= seq![0x11u8, 0x06, b0, b1, b2, b3]);
    p
}

/// `[0x14, 0x03, pin]`: CMD_GET_PIN packet.
pub fn build_get_pin_packet(pin_num: u8) -> (p: [u8; 3])
    ensures
        p@ == seq![0x14u8, 0x03, pin_num],
{
    let p = [CMD_GET_PIN, 0x03, pin_num];
    assert(p@ =~= seq![0x14u8, 0x03, pin_num]);
    p
}

/// Whether a character is removed when a preset name is normalised.
pub open spec fn is_name_separator(c: char) -> bool {
    c == '-' || c == '_' || c == '.' || c == ' ' || c == '"' || c == '\''
}

/// A name with the separator characters removed.
pub open spec fn strip_separators(s: Seq<char>) -> Seq<char>
    decreases s.len(),
{
    if s.len() == 0 {
        s
    } else if is_name_separator(s.last()) {
        strip_separators(s.drop_last())
    } else {
        strip_separators(s.drop_last()).push(s.last())
    }
}

/// The preset named by a normalised (lower-case, separator-free) name.
pub open spec fn preset_for_clean_name(n: Seq<char>) -> Option<PresetProfile> {
    if n == "pc35hd"@ || n == "35hd"@ || n == "144m"@ || n == "144"@ || n == "hd35"@ || n == "pchd"@ {
        Some(PresetProfile::Pc35Hd)
    } else if n == "pc35dd"@ || n == "35dd"@ || n == "720k"@ || n == "720"@ || n == "dd35"@ || n
        == "pcdd"@ {
        Some(PresetProfile::Pc35Dd)
    } else if n == "pc525hd"@ || n == "525hd"@ || n == "12m"@ || n == "12"@ || n == "hd525"@ {
        Some(PresetProfile::Pc525Hd)
    } else if n == "pc525ddonhd"@ || n == "525ddonhd"@ || n == "525ddhd"@ || n == "360khd"@ || n
        == "360onhd"@ || n == "360khigh"@ || n == "360k360rpm"@ {
        Some(PresetProfile::Pc525DdOnHd)
    } else if n == "pc525dd"@ || n == "525dd"@ || n == "360k"@ || n == "360"@ || n == "dd525"@ {
        Some(PresetProfile::Pc525Dd)
    } else if n == "amiga35dd"@ || n == "amiga35"@ || n == "amigadd"@ || n == "amiga"@ || n
        == "880k"@ || n == "880"@ || n == "amigados"@ {
        Some(PresetProfile::Amiga35Dd)
    } else if n == "atari35dd"@ || n == "atari35"@ || n == "ataridd"@ || n == "atari"@ || n
        == "atarist"@ {
        Some(PresetProfile::Atari35Dd)
    } else if n == "cpc30data"@ || n == "cpc30"@ || n == "cpcdata"@ || n == "cpc"@ || n == "178k"@
        || n == "178"@ || n == "amstradcpc"@ {
        Some(PresetProfile::Cpc30Data)
    } else {
        None
    }
}

impl PresetProfile {
    /// Matches a lower-cased name against the preset aliases, ignoring the
    /// separator characters `- _ . space " '`.
    pub fn from_lowercase_name(lowered: &str) -> (r: Option<Self>)
        ensures
            r == preset_for_clean_name(strip_separators(lowered@)),
    {
        let chars = str_to_chars(lowered);
        let mut clean: Vec<char> = Vec::new();
        let mut i: usize = 0;
        while i < chars.len()
            invariant
                i <= chars@.len(),
                clean@ == strip_separators(chars@.subrange(0, i as int)),
            decreases chars@.len() - i,
        {
            let c = chars[i];
            assert(chars@.subrange(0, i + 1).drop_last() =~= chars@.subrange(0, i as int));
            if !(c == '-' || c == '_' || c == '.' || c == ' ' || c == '"' || c == '\'') {
                clean.push(c);
            }
            i = i + 1;
        }
        assert(chars@.subrange(0, chars@.len() as int) =~= chars@);
        let v = clean.as_slice();
        if chars_eq_str(v, "pc35hd") || chars_eq_str(v, "35hd") || chars_eq_str(v, "144m") || chars_eq_str(v, "144") || chars_eq_str(v, "hd35") || chars_eq_str(v, "pchd") {
            return Some(PresetProfile::Pc35Hd);
        }
        if chars_eq_str(v, "pc35dd") || chars_eq_str(v, "35dd") || chars_eq_str(v, "720k") || chars_eq_str(v, "720") || chars_eq_str(v, "dd35") || chars_eq_str(v, "pcdd") {
            return Some(PresetProfile::Pc35Dd);
        }
        if chars_eq_str(v, "pc525hd") || chars_eq_str(v, "525hd") || chars_eq_str(v, "12m") || chars_eq_str(v, "12") || chars_eq_str(v, "hd525") {
            return Some(PresetProfile::Pc525Hd);
        }
        if chars_eq_str(v, "pc525ddonhd") || chars_eq_str(v, "525ddonhd") || chars_eq_str(v, "525ddhd") || chars_eq_str(v, "360khd") || chars_eq_str(v, "360onhd") || chars_eq_str(v, "360khigh") || chars_eq_str(v, "360k360rpm") {
            return Some(PresetProfile::Pc525DdOnHd);
        }
        if chars_eq_str(v, "pc525dd") || chars_eq_str(v, "525dd") || chars_eq_str(v, "360k") || chars_eq_str(v, "360") || chars_eq_str(v, "dd525") {
            return Some(PresetProfile::Pc525Dd);
        }
        if chars_eq_str(v, "amiga35dd") || chars_eq_str(v, "amiga35") || chars_eq_str(v, "amigadd") || chars_eq_str(v, "amiga") || chars_eq_str(v, "880k") || chars_eq_str(v, "880") || chars_eq_str(v, "amigados") {
            return Some(PresetProfile::Amiga35Dd);
        }
        if chars_eq_str(v, "atari35dd") || chars_eq_str(v, "atari35") || chars_eq_str(v, "ataridd") || chars_eq_str(v, "atari") || chars_eq_str(v, "atarist") {
            return Some(PresetProfile::Atari35Dd);
        }
        if chars_eq_str(v, "cpc30data") || chars_eq_str(v, "cpc30") || chars_eq_str(v, "cpcdata") || chars_eq_str(v, "cpc") || chars_eq_str(v, "178k") || chars_eq_str(v, "178") || chars_eq_str(v, "amstradcpc") {
            return Some(PresetProfile::Cpc30Data);
        }
        None
    }

    /// Case-insensitive preset parser accepting the CLI aliases: trims the
    /// input, lower-cases it, drops separators and matches the aliases.
    pub fn from_str_loose(s: &str) -> (r: Option<Self>)
        ensures
            r == preset_for_clean_name(strip_separators(unicode_lowercase(trim_spec(s@)))),
            all_ascii(s@) ==> r == preset_for_clean_name(strip_separators(ascii_lower(trim_spec(s@)))),
            all_ascii(trim_spec(s@)) ==> r == preset_for_clean_name(strip_separators(ascii_lower(trim_spec(s@)))),
    {
        let trimmed = std_str_trim(s);
        let lowered = std_str_to_lowercase(trimmed);
        proof {
            if all_ascii(s@) {
                lemma_trim_keeps_ascii(s@);
            }
        }
        Self::from_lowercase_name(lowered.as_str())
    }
}

/// Trimming an ASCII string leaves an ASCII string.
pub proof fn lemma_trim_keeps_ascii(s: Seq<char>)
    requires
        all_ascii(s),
    ensures
        all_ascii(trim_spec(s)),
{
    lemma_leading_ws_bound(s);
    let a = leading_ws(s);
    let rest = s.subrange(a as int, s.len() as int);
    lemma_trailing_ws_bound(rest);
    assert forall|i: int| 0 <= i < trim_spec(s).len() implies (#[trigger] trim_spec(s)[i] as u32) < 128 by {
        assert(trim_spec(s)[i] == s[a + i]);
    }
}

proof fn lemma_leading_ws_bound(s: Seq<char>)
    ensures
        leading_ws(s) <= s.len(),
    decreases s.len(),
{
    if s.len() > 0 && is_unicode_whitespace(s[0]) {
        lemma_leading_ws_bound(s.drop_first());
    }
}

proof fn lemma_trailing_ws_bound(s: Seq<char>)
    ensures
        trailing_ws(s) <= s.len(),
    decreases s.len(),
{
    if s.len() > 0 && is_unicode_whitespace(s.last()) {
        lemma_trailing_ws_bound(s.drop_last());
    }
}

} // verus!
