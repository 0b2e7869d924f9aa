//! Decisions the hardware worker takes on user commands before talking to
//! the controller: where a seek goes and how long it may take, which
//! physical head a selection reads, and the status messages of settings.
use vstd::prelude::*;
use vstd::string::*;
use crate::drive::{calculate_seek_timeout_ms, RpmMode, SEEK_TRK0_TIMEOUT_MS};
use crate::fmt::{dec, push_dec};
use crate::heads::{format_drive_unit_label, drive_unit_label, HeadSelection};
use crate::protocol::{BusType, DiskFormat, StepMode};

verus! {

/// Where a seek goes: the logical track (clamped to the step mode), the
/// physical cylinder (at most 83) and the timeout to wait for it.
#[derive(Clone, Copy, Debug, PartialEq, Eq, Structural)]
pub struct SeekPlan {
    pub track: u8,
    pub physical_cylinder: u8,
    pub timeout_ms: u64,
}

/// Physical cylinder of a logical track, at most 83.
pub open spec fn physical_of(track: int, mult: int) -> int {
    if track * mult > 83 {
        83
    } else {
        track * mult
    }
}

/// The seek plan for a target track from the current one.
pub open spec fn seek_plan_spec(target: u8, current: u8, step: StepMode) -> SeekPlan {
    let max = step.spec_max_logical_tracks();
    let track: u8 = if target > max { max } else { target };
    let mult = step.spec_multiplier() as int;
    let phys = physical_of(track as int, mult);
    let old_phys = physical_of(current as int, mult);
    let dist: int = if phys >= old_phys { phys - old_phys } else { old_phys - phys };
    SeekPlan {
        track,
        physical_cylinder: phys as u8,
        timeout_ms: if phys == 0 { 3000 } else { (1200 + 25 * dist) as u64 },
    }
}

/// Plans a seek (see `seek_plan_spec`): a seek to cylinder 0 waits for the
/// track-0 timeout, any other grows with the distance.
pub fn plan_seek(target_track: u8, current_track: u8, step_mode: StepMode) -> (p: SeekPlan)
    requires
        current_track as int * step_mode.spec_multiplier() as int <= 255,
    ensures
        p == seek_plan_spec(target_track, current_track, step_mode),
{
    let max = step_mode.max_logical_tracks();
    let track = if target_track > max {
        max
    } else {
        target_track
    };
    let mult = step_mode.multiplier();
    assert(track <= 83);
    let raw = track * mult;
    let phys: u8 = if raw > 83 {
        83
    } else {
        raw
    };
    let old_raw = current_track * mult;
    let old_phys: u8 = if old_raw > 83 {
        83
    } else {
        old_raw
    };
    let timeout_ms = if phys == 0 {
        SEEK_TRK0_TIMEOUT_MS
    } else {
        calculate_seek_timeout_ms(old_phys, phys)
    };
    SeekPlan { track, physical_cylinder: phys, timeout_ms }
}

/// The physical head a selection reads first (both-heads mode starts on
/// head 0).
pub open spec fn physical_head(sel: HeadSelection) -> u8 {
    match sel {
        HeadSelection::Head0 => 0,
        HeadSelection::Head1 => 1,
        HeadSelection::Both => 0,
    }
}

/// The physical head a selection reads first.
pub fn head_for_selection(sel: HeadSelection) -> (h: u8)
    ensures
        h == physical_head(sel),
{
    match sel {
        HeadSelection::Head0 => 0,
        HeadSelection::Head1 => 1,
        HeadSelection::Both => 0,
    }
}

/// The selection and head of a direct head command: any non-zero value
/// means head 1.
pub fn head_from_value(head_val: u8) -> (r: (HeadSelection, u8))
    ensures
        head_val > 0 ==> r == (HeadSelection::Head1, 1u8),
        head_val == 0 ==> r == (HeadSelection::Head0, 0u8),
{
    if head_val > 0 {
        (HeadSelection::Head1, 1)
    } else {
        (HeadSelection::Head0, 0)
    }
}

/// Message after a head selection.
pub fn head_selection_message(sel: HeadSelection) -> (r: &'static str)
    ensures
        r@ == (match sel {
            HeadSelection::Head0 => "Head selection -> Head 0"@,
            HeadSelection::Head1 => "Head selection -> Head 1"@,
            HeadSelection::Both => "Head selection -> BOTH (0+1) [Alternating mode]"@,
        }),
{
    match sel {
        HeadSelection::Head0 => "Head selection -> Head 0",
        HeadSelection::Head1 => "Head selection -> Head 1",
        HeadSelection::Both => "Head selection -> BOTH (0+1) [Alternating mode]",
    }
}

/// A track clamped to the step mode's last logical track.
pub fn clamp_track(track: u8, step_mode: StepMode) -> (r: u8)
    ensures
        r == (if track > step_mode.spec_max_logical_tracks() { step_mode.spec_max_logical_tracks() } else { track }),
{
    let max = step_mode.max_logical_tracks();
    if track > max {
        max
    } else {
        track
    }
}

/// Message after a bus change.
pub fn bus_type_message(bus: BusType) -> (r: String)
    ensures
        r@ == (match bus {
            BusType::IbmPc => "Bus Type: IBM PC (IBM PC Standard)"@,
            BusType::Shugart => "Bus Type: Shugart (Amiga / Shugart DS0 Pin 10)"@,
        }),
{
    match bus {
        BusType::IbmPc => String::from_str("Bus Type: IBM PC (IBM PC Standard)"),
        BusType::Shugart => String::from_str("Bus Type: Shugart (Amiga / Shugart DS0 Pin 10)"),
    }
}

/// Message after a format profile change.
pub fn format_profile_message(format: DiskFormat) -> (r: String)
    ensures
        r@ == "Format Profile: "@ + (match format {
            DiskFormat::AutoDetect => "Auto-Detect"@,
            DiskFormat::IbmPc => "IBM PC (FAT)"@,
            DiskFormat::AmigaDos => "AmigaDOS (Paula)"@,
            DiskFormat::AtariSt => "Atari ST (WD1772)"@,
            DiskFormat::AmstradCpcData => "Amstrad CPC (DATA)"@,
            DiskFormat::AmstradCpcSystem => "Amstrad CPC (SYSTEM)"@,
        }),
{
    let mut out = String::from_str("Format Profile: ");
    out.append(format.name());
    out
}

/// Message after an RPM source change.
pub fn rpm_mode_message(mode: RpmMode) -> (r: String)
    ensures
        r@ == "RPM Mode set to ["@ + (match mode {
            RpmMode::Auto => "Auto"@,
            RpmMode::HwIndex => "HW Index"@,
            RpmMode::SwSync => "SW Sync"@,
            RpmMode::Dual => "Dual"@,
        }) + "]"@,
{
    let mut out = String::from_str("RPM Mode set to [");
    out.append(mode.as_str());
    out.append("]");
    out
}

/// Message after a step mode change.
pub fn step_rate_message(step: StepMode) -> (r: String)
    ensures
        r@ == "Step Rate: "@ + (match step {
            StepMode::Single => "1:1 (Single)"@,
            StepMode::Double => "2:1 (Double)"@,
        }),
{
    let mut out = String::from_str("Step Rate: ");
    out.append(step.as_str());
    out
}

/// Message after selecting a drive unit and recalibrating.
pub fn unit_selected_message(bus: BusType, unit: u8, toggled: bool) -> (r: String)
    ensures
        toggled ==> r@ == drive_unit_label(bus, unit) + " selected & Recalibrated Track 0"@,
        !toggled ==> r@ == "Select "@ + drive_unit_label(bus, unit) + " & Recalibrate Track 0"@,
{
    let label = format_drive_unit_label(bus, unit);
    if toggled {
        let mut out = label;
        out.append(" selected & Recalibrated Track 0");
        out
    } else {
        let mut out = String::from_str("Select ");
        out.append(label.as_str());
        out.append(" & Recalibrate Track 0");
        out
    }
}

/// Message after a seek: `Seek -> Track <n>`.
pub fn seek_message(track: u8) -> (r: String)
    ensures
        r@ == "Seek -> Track "@ + dec(track as nat),
{
    let mut out = String::from_str("Seek -> Track ");
    push_dec(&mut out, track as u64);
    out
}

} // verus!
