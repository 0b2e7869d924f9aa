//! Head selection, view mode, the record of a finished diagnostic pass,
//! user actions, and the drive-unit labels of the two bus types.
use vstd::prelude::*;
use vstd::string::*;
use crate::protocol::{BusType, DiskFormat};

verus! {

/// Which head(s) a diagnostic reads.
#[derive(Debug, Clone, Copy, PartialEq, Eq, Structural)]
pub enum HeadSelection {
    Head0,
    Head1,
    Both,
}

impl Default for HeadSelection {
    fn default() -> (r: Self)
        ensures
            r == HeadSelection::Head0,
    {
        HeadSelection::Head0
    }
}

impl HeadSelection {
    pub open spec fn spec_toggle_next(self) -> Self {
        match self {
            HeadSelection::Head0 => HeadSelection::Head1,
            HeadSelection::Head1 => HeadSelection::Both,
            HeadSelection::Both => HeadSelection::Head0,
        }
    }

    /// Next selection: head 0, head 1, both, then head 0 again.
    pub fn toggle_next(&self) -> (r: Self)
        ensures
            r == self.spec_toggle_next(),
    {
        match self {
            HeadSelection::Head0 => HeadSelection::Head1,
            HeadSelection::Head1 => HeadSelection::Both,
            HeadSelection::Both => HeadSelection::Head0,
        }
    }

    /// Label of the selection.
    pub fn as_str(&self) -> (r: &'static str)
        ensures
            r@ == (match *self {
                HeadSelection::Head0 => "0"@,
                HeadSelection::Head1 => "1"@,
                HeadSelection::Both => "BOTH (0+1)"@,
            }),
    {
        match self {
            HeadSelection::Head0 => "0",
            HeadSelection::Head1 => "1",
            HeadSelection::Both => "BOTH (0+1)",
        }
    }
}

/// Toggling the head selection three times comes back to the start, and
/// every selection is reached.
pub proof fn lemma_head_selection_cycle(h: HeadSelection)
    ensures
        h.spec_toggle_next().spec_toggle_next().spec_toggle_next() == h,
        h.spec_toggle_next() != h,
{
}

/// How the history is shown.
#[derive(Clone, Copy, Debug, PartialEq, Eq, Structural)]
pub enum ViewMode {
    Normal,
    Verbose,
}

impl Default for ViewMode {
    fn default() -> (r: Self)
        ensures
            r == ViewMode::Normal,
    {
        ViewMode::Normal
    }
}

/// The result of a finished diagnostic pass on one head.
#[derive(Clone, Debug, PartialEq)]
pub struct DiagnosticPass {
    pub track: u8,
    pub track_id: u8,
    pub head: u8,
    pub bitrate: u16,
    pub line_standard: String,
    pub line_verbose: String,
    pub ok_count: u8,
    pub valid_sectors: u8,
    pub expected_count: u8,
    pub crc_errors: u8,
    pub quality_pct: u8,
    pub is_ok: bool,
}

impl DiagnosticPass {
    /// A pass record with explicit CRC error count and quality; the read
    /// track id is the track and the valid count is the good count.
    pub fn with_details(
        track: u8,
        head: u8,
        bitrate: u16,
        line_standard: String,
        line_verbose: String,
        ok_count: u8,
        expected_count: u8,
        crc_errors: u8,
        quality_pct: u8,
        is_ok: bool,
    ) -> (r: Self)
        ensures
            r.track == track,
            r.track_id == track,
            r.head == head,
            r.bitrate == bitrate,
            r.line_standard@ == line_standard@,
            r.line_verbose@ == line_verbose@,
            r.ok_count == ok_count,
            r.valid_sectors == ok_count,
            r.expected_count == expected_count,
            r.crc_errors == crc_errors,
            r.quality_pct == quality_pct,
            r.is_ok == is_ok,
    {
        DiagnosticPass {
            track,
            track_id: track,
            head,
            bitrate,
            line_standard,
            line_verbose,
            ok_count,
            valid_sectors: ok_count,
            expected_count,
            crc_errors,
            quality_pct,
            is_ok,
        }
    }

    /// The record of a finished pass from its counts: a good pass has no
    /// CRC errors and quality 99; otherwise the missing sectors count as
    /// CRC errors and the quality is `rounded_pct` (the share of good
    /// sectors in percent, rounded by the caller), or 50 when no sector was
    /// expected.
    pub fn new(
        track: u8,
        head: u8,
        bitrate: u16,
        line_standard: String,
        line_verbose: String,
        ok_count: u8,
        expected_count: u8,
        rounded_pct: u8,
        is_ok: bool,
    ) -> (r: Self)
        ensures
            r.track == track,
            r.track_id == track,
            r.head == head,
            r.bitrate == bitrate,
            r.line_standard@ == line_standard@,
            r.line_verbose@ == line_verbose@,
            r.ok_count == ok_count,
            r.valid_sectors == ok_count,
            r.expected_count == expected_count,
            r.crc_errors == (if is_ok {
                0
            } else if expected_count >= ok_count {
                (expected_count - ok_count) as u8
            } else {
                0
            }),
            r.quality_pct == (if is_ok {
                99
            } else if expected_count > 0 {
                rounded_pct
            } else {
                50
            }),
            r.is_ok == is_ok,
    {
        let crc_errors: u8 = if is_ok {
            0
        } else if expected_count >= ok_count {
            expected_count - ok_count
        } else {
            0
        };
        let quality_pct: u8 = if is_ok {
            99
        } else if expected_count > 0 {
            rounded_pct
        } else {
            50
        };
        Self::with_details(
            track,
            head,
            bitrate,
            line_standard,
            line_verbose,
            ok_count,
            expected_count,
            crc_errors,
            quality_pct,
            is_ok,
        )
    }
}

/// A user action on the main screen.
#[derive(Clone, Copy, Debug, PartialEq, Eq, Structural)]
pub enum Action {
    ToggleDriveUnit,
    Analyze,
    StartAnalysis,
    Stop,
    ToggleMotor,
    SetMotor(bool),
    PanicReset,
    CycleDiskFormat,
    SetDiskFormat(DiskFormat),
    ToggleBusType,
    SetBusType(BusType),
}

/// Long label of a drive unit: PC drives 0/1 are A:/B:, Shugart units
/// DS0..DS3 (larger unit numbers show as the last one).
pub open spec fn drive_unit_label(bus_type: BusType, unit: u8) -> Seq<char> {
    match bus_type {
        BusType::IbmPc => if unit == 0 {
            "Drive 0 (A:)"@
        } else {
            "Drive 1 (B:)"@
        },
        BusType::Shugart => if unit == 0 {
            "Unit 0 (DS0)"@
        } else if unit == 1 {
            "Unit 1 (DS1)"@
        } else if unit == 2 {
            "Unit 2 (DS2)"@
        } else {
            "Unit 3 (DS3)"@
        },
    }
}

/// Long label of a drive unit (see `drive_unit_label`).
pub fn format_drive_unit_label(bus_type: BusType, drive_unit: u8) -> (r: String)
    ensures
        r@ == drive_unit_label(bus_type, drive_unit),
{
    match bus_type {
        BusType::IbmPc => match drive_unit {
            0 => String::from_str("Drive 0 (A:)"),
            _ => String::from_str("Drive 1 (B:)"),
        },
        BusType::Shugart => match drive_unit {
            0 => String::from_str("Unit 0 (DS0)"),
            1 => String::from_str("Unit 1 (DS1)"),
            2 => String::from_str("Unit 2 (DS2)"),
            _ => String::from_str("Unit 3 (DS3)"),
        },
    }
}

/// Short label of a drive unit: A:/B: on the PC bus, DS0..DS3 on Shugart.
pub open spec fn drive_unit_short(bus_type: BusType, drive_unit: u8) -> Seq<char> {
    (match bus_type {
            BusType::IbmPc => if drive_unit == 0 {
                "A:"@
            } else {
                "B:"@
            },
            BusType::Shugart => if drive_unit == 0 {
                "DS0"@
            } else if drive_unit == 1 {
                "DS1"@
            } else if drive_unit == 2 {
                "DS2"@
            } else {
                "DS3"@
            },
        })
}

/// Short code of a drive unit for the header: A:/B: or DS0..DS3.
pub fn format_drive_unit_short(bus_type: BusType, drive_unit: u8) -> (r: &'static str)
    ensures
        r@ == drive_unit_short(bus_type, drive_unit),
{
    match bus_type {
        BusType::IbmPc => match drive_unit {
            0 => "A:",
            _ => "B:",
        },
        BusType::Shugart => match drive_unit {
            0 => "DS0",
            1 => "DS1",
            2 => "DS2",
            _ => "DS3",
        },
    }
}

/// Menu shortcut text of the unit key for a bus type.
pub fn format_unit_menu_shortcut(bus_type: BusType) -> (r: &'static str)
    ensures
        r@ == (match bus_type {
            BusType::IbmPc => " U = Unit (A: / B:)"@,
            BusType::Shugart => " U = Unit (DS0..DS3)"@,
        }),
{
    match bus_type {
        BusType::IbmPc => " U = Unit (A: / B:)",
        BusType::Shugart => " U = Unit (DS0..DS3)",
    }
}


/// Highest drive unit on a bus: 1 on the PC bus (A:/B:), 3 on Shugart.
pub open spec fn max_unit(bus_type: BusType) -> u8 {
    match bus_type {
        BusType::IbmPc => 1,
        BusType::Shugart => 3,
    }
}

} // verus!
