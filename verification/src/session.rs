//! The front end's state: the worker status it last received, the view
//! it shows, the head and unit selection, the last pass of each head, and
//! the effect of a user action on all of them.
use vstd::prelude::*;
use vstd::string::*;
use std::time::Instant;
use crate::control::{
    keeps,
    default_flags, display_after_measure, next_drive_unit, next_unit, DriveFlags, DriveState, Reply,
};
use crate::drive::{DisplayMode, DriveReadStatus, HwActivity};
use crate::heads::{
    drive_unit_label, format_drive_unit_label, format_drive_unit_short, max_unit, Action,
    DiagnosticPass, HeadSelection, ViewMode,
};
use crate::protocol::{BusType, DiskFormat};

verus! {

#[verifier::external_type_specification]
#[verifier::external_body]
pub struct ExInstant(std::time::Instant);

/// Calls `Instant::now`. Nothing is stated of the time it gives.
#[verifier::external_body]
fn instant_now() -> Instant {
    Instant::now()
}

/// Whether two optional passes are the same, their lines compared as text.
pub open spec fn same_pass(a: Option<DiagnosticPass>, b: Option<DiagnosticPass>) -> bool {
    match (a, b) {
        (None, None) => true,
        (Some(p), Some(q)) => {
            &&& p.track == q.track
            &&& p.track_id == q.track_id
            &&& p.head == q.head
            &&& p.bitrate == q.bitrate
            &&& p.line_standard@ == q.line_standard@
            &&& p.line_verbose@ == q.line_verbose@
            &&& p.ok_count == q.ok_count
            &&& p.valid_sectors == q.valid_sectors
            &&& p.expected_count == q.expected_count
            &&& p.crc_errors == q.crc_errors
            &&& p.quality_pct == q.quality_pct
            &&& p.is_ok == q.is_ok
        },
        _ => false,
    }
}

fn passes_equal(a: &Option<DiagnosticPass>, b: &Option<DiagnosticPass>) -> (r: bool)
    ensures
        r == same_pass(*a, *b),
{
    match (a, b) {
        (None, None) => true,
        (Some(p), Some(q)) => p.track == q.track && p.track_id == q.track_id && p.head == q.head
            && p.bitrate == q.bitrate && p.line_standard == q.line_standard && p.line_verbose
            == q.line_verbose && p.ok_count == q.ok_count && p.valid_sectors == q.valid_sectors
            && p.expected_count == q.expected_count && p.crc_errors == q.crc_errors
            && p.quality_pct == q.quality_pct && p.is_ok == q.is_ok,
        _ => false,
    }
}

/// The texts of a list of lines.
pub open spec fn line_texts(v: Seq<String>) -> Seq<Seq<char>> {
    v.map_values(|s: String| s@)
}

fn lines_equal(a: &Vec<String>, b: &Vec<String>) -> (r: bool)
    ensures
        r == (line_texts(a@) == line_texts(b@)),
{
    if a.len() != b.len() {
        assert(line_texts(a@).len() != line_texts(b@).len());
        return false;
    }
    let mut i: usize = 0;
    while i < a.len()
        invariant
            i <= a.len(),
            a.len() == b.len(),
            forall|k: int| 0 <= k < i ==> a@[k]@ == b@[k]@,
        decreases a.len() - i,
    {
        if a[i] != b[i] {
            assert(line_texts(a@)[i as int] != line_texts(b@)[i as int]);
            return false;
        }
        i = i + 1;
    }
    assert(line_texts(a@) =~= line_texts(b@));
    true
}

/// Whether a status looks like it carries sector data: a read running, a
/// pass in progress, or a changed history, cycle count or pass.
pub open spec fn is_sector_packet(new: DriveState, cur: DriveState) -> bool {
    ||| new.flags.activity == HwActivity::ReadingAnalyzing
    ||| new.flags.mode == DisplayMode::Analyze
    ||| new.flags.mode == DisplayMode::ReadData
    ||| new.flags.analyzing
    ||| new.flags.in_progress_pass
    ||| line_texts(new.sector_log@) != line_texts(cur.sector_log@)
    ||| new.flags.io_cycle != cur.flags.io_cycle
    ||| !same_pass(new.last_pass_h0, cur.last_pass_h0)
    ||| !same_pass(new.last_pass_h1, cur.last_pass_h1)
}

/// Whether a received status advances the capture spinner: it carries
/// sector data and a read runs or there is history to show.
pub open spec fn advances_spinner(new: DriveState, cur: DriveState) -> bool {
    is_sector_packet(new, cur) && (new.flags.activity == HwActivity::ReadingAnalyzing
        || new.flags.mode == DisplayMode::Analyze || new.flags.mode == DisplayMode::ReadData
        || new.flags.analyzing || new.sector_log@.len() > 0)
}

/// The front end's state.
pub struct App {
    pub status: DriveState,
    pub motor_on: bool,
    pub view_mode: ViewMode,
    pub head_selection: HeadSelection,
    pub drive_unit: u8,
    pub last_pass_h0: Option<DiagnosticPass>,
    pub last_pass_h1: Option<DiagnosticPass>,
    pub last_capture_instant: Instant,
    pub stream_spinner_idx: usize,
    pub show_help: bool,
    pub disk_format: DiskFormat,
    pub bus_type: BusType,
}

/// A unit clamped to the bus's highest unit.
pub open spec fn clamped_unit(bus: BusType, unit: u8) -> u8 {
    if unit > max_unit(bus) {
        max_unit(bus)
    } else {
        unit
    }
}

/// The front end after a user action: the unit, profile and bus actions
/// as their methods; an analysis starts with the motor on and the passes
/// forgotten; a stop switches everything off; the motor keys follow
/// `motor_switched`; a panic reset clears the status and the passes.
pub open spec fn action_applied(a: &App, b: &App, action: Action) -> bool {
    match action {
        Action::ToggleDriveUnit => unit_toggled(a, b),
        Action::CycleDiskFormat => format_selected(a, b, a.disk_format.spec_cycle_next()),
        Action::SetDiskFormat(fmt) => format_selected(a, b, fmt),
        Action::ToggleBusType => bus_selected(a, b, a.bus_type.spec_toggle()),
        Action::SetBusType(bus) => bus_selected(a, b, bus),
        Action::Analyze | Action::StartAnalysis => analysis_started(a, b),
        Action::Stop => stopped(a, b),
        Action::ToggleMotor => motor_switched(a, b, !a.motor_on),
        Action::SetMotor(on) => motor_switched(a, b, on),
        Action::PanicReset => panic_reset_applied(a, b),
    }
}

/// The view, head selection, capture time, spinner and help are as before.
pub open spec fn front_kept(a: &App, b: &App) -> bool {
    &&& b.view_mode == a.view_mode
    &&& b.head_selection == a.head_selection
    &&& b.last_capture_instant == a.last_capture_instant
    &&& b.stream_spinner_idx == a.stream_spinner_idx
    &&& b.show_help == a.show_help
}

/// The front end's own recorded passes are as before.
pub open spec fn passes_kept(a: &App, b: &App) -> bool {
    &&& b.last_pass_h0 == a.last_pass_h0
    &&& b.last_pass_h1 == a.last_pass_h1
}

/// Everything of the status but its plain fields is as before.
pub open spec fn status_rest_kept(a: DriveState, b: DriveState) -> bool {
    &&& keeps(a, b, false, false)
    &&& b.log_msg@ == a.log_msg@
    &&& b.rpm_display@ == a.rpm_display@
}

/// The front end after the unit key: the next unit of the bus.
#[verifier::opaque]
pub open spec fn unit_toggled(a: &App, b: &App) -> bool {
    &&& b.drive_unit == next_unit(a.bus_type, a.drive_unit)
    &&& b.bus_type == a.bus_type
    &&& b.status.flags == (DriveFlags {
        drive_unit: b.drive_unit,
        unit_id: b.drive_unit,
        ..a.status.flags
    })
    &&& b.motor_on == a.motor_on
    &&& b.disk_format == a.disk_format
    &&& front_kept(a, b)
    &&& passes_kept(a, b)
    &&& status_rest_kept(a.status, b.status)
}

/// The front end after a decoding profile was selected.
#[verifier::opaque]
pub open spec fn format_selected(a: &App, b: &App, fmt: DiskFormat) -> bool {
    &&& b.disk_format == fmt
    &&& b.status.flags == (DriveFlags { disk_format: fmt, ..a.status.flags })
    &&& b.motor_on == a.motor_on
    &&& b.drive_unit == a.drive_unit
    &&& b.bus_type == a.bus_type
    &&& front_kept(a, b)
    &&& passes_kept(a, b)
    &&& status_rest_kept(a.status, b.status)
}

/// The front end after an analysis started: motor on, passes forgotten.
#[verifier::opaque]
pub open spec fn analysis_started(a: &App, b: &App) -> bool {
    &&& b.motor_on
    &&& b.last_pass_h0 is None
    &&& b.last_pass_h1 is None
    &&& b.status.flags == (DriveFlags {
        analyzing: true,
        mode: DisplayMode::Analyze,
        motor_on: true,
        activity: HwActivity::ReadingAnalyzing,
        ..a.status.flags
    })
    &&& b.drive_unit == a.drive_unit
    &&& b.bus_type == a.bus_type
    &&& b.disk_format == a.disk_format
    &&& front_kept(a, b)
    &&& status_rest_kept(a.status, b.status)
}

/// The front end after a stop: motor off, nothing running.
#[verifier::opaque]
pub open spec fn stopped(a: &App, b: &App) -> bool {
    &&& !b.motor_on
    &&& b.status.flags == (DriveFlags {
        analyzing: false,
        motor_on: false,
        mode: DisplayMode::Off,
        activity: HwActivity::Stopped,
        index: false,
        ..a.status.flags
    })
    &&& b.status.log_msg@ == "Stop / Motor OFF (Safe to change disk)"@
    &&& b.drive_unit == a.drive_unit
    &&& b.bus_type == a.bus_type
    &&& b.disk_format == a.disk_format
    &&& front_kept(a, b)
    &&& passes_kept(a, b)
    &&& keeps(a.status, b.status, false, false)
    &&& b.status.rpm_display@ == a.status.rpm_display@
}

/// The front end after a bus was selected: on the PC bus a unit above 1
/// falls back to 0.
#[verifier::opaque]
pub open spec fn bus_selected(a: &App, b: &App, bus: BusType) -> bool {
    &&& b.bus_type == bus
    &&& b.drive_unit == (if bus == BusType::IbmPc && a.drive_unit > 1 {
        0
    } else {
        a.drive_unit
    })
    &&& b.status.flags == (DriveFlags {
        bus_type: bus,
        drive_unit: b.drive_unit,
        unit_id: b.drive_unit,
        ..a.status.flags
    })
    &&& b.motor_on == a.motor_on
    &&& b.disk_format == a.disk_format
    &&& front_kept(a, b)
    &&& passes_kept(a, b)
    &&& status_rest_kept(a.status, b.status)
}

/// The front end after a panic reset: motor off, nothing running, head 0,
/// counters, sectors and passes cleared.
#[verifier::opaque]
pub open spec fn panic_reset_applied(a: &App, b: &App) -> bool {
    &&& !b.motor_on
    &&& b.last_pass_h0 is None
    &&& b.last_pass_h1 is None
    &&& b.status.flags == (DriveFlags {
        motor_on: false,
        analyzing: false,
        mode: DisplayMode::Off,
        activity: HwActivity::Idle,
        rpm: 0,
        rpm_samples: 0,
        rpm_avg_tenths: 0,
        index: false,
        sectors_known: false,
        on_track_count: 0,
        off_track_count: 0,
        crc_err_count: 0,
        head_select: HeadSelection::Head0,
        head: 0,
        in_progress_pass: false,
        read_status: DriveReadStatus::Good,
        ..a.status.flags
    })
    &&& b.status.rpm_display@ == "--- RPM"@
    &&& b.status.off_track_details@ == "NONE"@
    &&& b.status.sectors@.len() == 0
    &&& b.status.last_pass_h0 is None
    &&& b.status.last_pass_h1 is None
    &&& b.status.log_msg@ == "PANIC RESET: Hardware reset & serial buffers purged successfully"@
    &&& b.status.sector_log@ == a.status.sector_log@
    &&& b.status.sector_log_standard@ == a.status.sector_log_standard@
    &&& b.status.sector_log_verbose@ == a.status.sector_log_verbose@
    &&& b.drive_unit == a.drive_unit
    &&& b.bus_type == a.bus_type
    &&& b.disk_format == a.disk_format
    &&& front_kept(a, b)
}

/// The front end after the motor was switched to `on` by a key: the status
/// follows as after a motor reply of status 0.
#[verifier::opaque]
pub open spec fn motor_switched(a: &App, b: &App, on: bool) -> bool {
    &&& b.motor_on == on
    &&& !on ==> b.status.flags == (DriveFlags {
        motor_on: false,
        index: false,
        analyzing: false,
        mode: DisplayMode::Off,
        activity: HwActivity::Stopped,
        ..a.status.flags
    })
    &&& !on ==> b.status.rpm_display@ == display_after_measure(a.status)
    &&& !on ==> b.status.log_msg@ == "Motor OFF (M key)"@
    &&& on ==> b.status.flags == (DriveFlags {
        motor_on: true,
        drive_select: true,
        has_disk: true,
        activity: HwActivity::Idle,
        ..a.status.flags
    })
    &&& on ==> b.status.log_msg@ == "Motor ON (M key)"@
    &&& on ==> b.status.rpm_display@ == a.status.rpm_display@
    &&& b.drive_unit == a.drive_unit
    &&& b.bus_type == a.bus_type
    &&& b.disk_format == a.disk_format
    &&& front_kept(a, b)
    &&& passes_kept(a, b)
    &&& keeps(a.status, b.status, false, false)
}


/// Law: stepping the drive unit stays on the bus's units, never stays
/// put, and comes back after two steps on the PC bus and four on Shugart.
pub proof fn lemma_unit_toggle_period(bus: BusType, unit: u8)
    requires
        unit <= max_unit(bus),
    ensures
        next_unit(bus, unit) <= max_unit(bus),
        next_unit(bus, unit) != unit,
        bus == BusType::IbmPc ==> next_unit(bus, next_unit(bus, unit)) == unit,
        bus == BusType::Shugart ==> next_unit(
            bus,
            next_unit(bus, next_unit(bus, next_unit(bus, unit))),
        ) == unit,
{
}


impl App {
    /// Drive 0 on the PC bus.
    pub fn new() -> (r: Self)
        ensures
            r.drive_unit == 0,
            r.bus_type == BusType::IbmPc,
            r.status.flags == (DriveFlags { drive_unit: 0, unit_id: 0, ..default_flags() }),
            !r.motor_on,
            r.view_mode == ViewMode::Normal,
            r.head_selection == HeadSelection::Head0,
            r.last_pass_h0 is None,
            r.last_pass_h1 is None,
            r.stream_spinner_idx == 0,
            !r.show_help,
            r.disk_format == DiskFormat::AutoDetect,
    {
        Self::with_config(0, BusType::IbmPc)
    }

    /// The given drive on the PC bus (clamped to B:).
    pub fn with_drive_unit(drive_unit: u8) -> (r: Self)
        ensures
            r.drive_unit == clamped_unit(BusType::IbmPc, drive_unit),
            r.bus_type == BusType::IbmPc,
            r.status.flags == (DriveFlags {
                drive_unit: r.drive_unit,
                unit_id: r.drive_unit,
                ..default_flags()
            }),
            !r.motor_on,
            r.stream_spinner_idx == 0,
    {
        Self::with_config(drive_unit, BusType::IbmPc)
    }

    /// The given drive (clamped to the bus's highest unit) on the given
    /// bus, motor off, normal view, head 0, no passes.
    pub fn with_config(drive_unit: u8, bus_type: BusType) -> (r: Self)
        ensures
            r.drive_unit == clamped_unit(bus_type, drive_unit),
            r.bus_type == bus_type,
            r.status.flags == (DriveFlags {
                drive_unit: r.drive_unit,
                unit_id: r.drive_unit,
                bus_type,
                ..default_flags()
            }),
            r.status.log_msg@ == "Connecting to Greaseweazle..."@,
            r.status.rpm_display@ == "... RPM"@,
            r.status.sectors@.len() == 0,
            r.status.last_pass_h0 is None,
            r.status.last_pass_h1 is None,
            r.status.sector_log@.len() == 0,
            !r.motor_on,
            r.view_mode == ViewMode::Normal,
            r.head_selection == HeadSelection::Head0,
            r.last_pass_h0 is None,
            r.last_pass_h1 is None,
            r.stream_spinner_idx == 0,
            !r.show_help,
            r.disk_format == DiskFormat::AutoDetect,
    {
        let max: u8 = match bus_type {
            BusType::IbmPc => 1,
            BusType::Shugart => 3,
        };
        let unit = if drive_unit > max {
            max
        } else {
            drive_unit
        };
        let mut status = DriveState::default();
        status.flags = DriveFlags { drive_unit: unit, unit_id: unit, bus_type, ..status.flags };
        App {
            status,
            motor_on: false,
            view_mode: ViewMode::Normal,
            head_selection: HeadSelection::Head0,
            drive_unit: unit,
            last_pass_h0: None,
            last_pass_h1: None,
            last_capture_instant: instant_now(),
            stream_spinner_idx: 0,
            show_help: false,
            disk_format: DiskFormat::AutoDetect,
            bus_type,
        }
    }

    /// The worker status last received.
    pub fn drive_status(&self) -> (r: &DriveState)
        ensures
            *r == self.status,
    {
        &self.status
    }

    /// Whether the motor runs.
    pub fn is_motor_on(&self) -> (r: bool)
        ensures
            r == self.motor_on,
    {
        self.motor_on
    }

    /// Shows or hides the help.
    pub fn toggle_help(&mut self)
        ensures
            final(self).show_help == !old(self).show_help,
            final(self).status == old(self).status,
            final(self).stream_spinner_idx == old(self).stream_spinner_idx,
            final(self).motor_on == old(self).motor_on,
            final(self).view_mode == old(self).view_mode,
            final(self).head_selection == old(self).head_selection,
            final(self).drive_unit == old(self).drive_unit,
            passes_kept(old(self), final(self)),
            final(self).last_capture_instant == old(self).last_capture_instant,
            final(self).disk_format == old(self).disk_format,
            final(self).bus_type == old(self).bus_type,
    {
        self.show_help = !self.show_help;
    }

    /// A sector packet arrived: the capture time is now and the spinner
    /// advances (four positions).
    pub fn on_sector_packet(&mut self)
        requires
            old(self).stream_spinner_idx < usize::MAX,
        ensures
            final(self).stream_spinner_idx == (old(self).stream_spinner_idx + 1) % 4,
            final(self).status == old(self).status,
            final(self).motor_on == old(self).motor_on,
            final(self).view_mode == old(self).view_mode,
            final(self).head_selection == old(self).head_selection,
            final(self).drive_unit == old(self).drive_unit,
            passes_kept(old(self), final(self)),
            final(self).show_help == old(self).show_help,
            final(self).disk_format == old(self).disk_format,
            final(self).bus_type == old(self).bus_type,
    {
        self.last_capture_instant = instant_now();
        self.stream_spinner_idx = (self.stream_spinner_idx + 1) % 4;
    }

    /// Takes a status from the worker: the spinner advances when it
    /// carries sector data (see `advances_spinner`), and the motor, format,
    /// bus, unit, head selection and view follow it.
    pub fn handle_hw_message(&mut self, status: DriveState)
        requires
            old(self).stream_spinner_idx < usize::MAX,
        ensures
            final(self).stream_spinner_idx == (if advances_spinner(status, old(self).status) {
                ((old(self).stream_spinner_idx + 1) % 4) as usize
            } else {
                old(self).stream_spinner_idx
            }),
            final(self).motor_on == status.flags.motor_on,
            final(self).disk_format == status.flags.disk_format,
            final(self).bus_type == status.flags.bus_type,
            final(self).drive_unit == status.flags.drive_unit,
            final(self).head_selection == status.flags.head_select,
            final(self).view_mode == (if status.flags.verbose_mode {
                ViewMode::Verbose
            } else {
                ViewMode::Normal
            }),
            final(self).status == status,
            final(self).last_pass_h0 == old(self).last_pass_h0,
            final(self).last_pass_h1 == old(self).last_pass_h1,
            final(self).show_help == old(self).show_help,
    {
        let f = status.flags;
        let reading = f.activity == HwActivity::ReadingAnalyzing || f.mode == DisplayMode::Analyze
            || f.mode == DisplayMode::ReadData || f.analyzing;
        let packet = reading || f.in_progress_pass || !lines_equal(
            &status.sector_log,
            &self.status.sector_log,
        ) || f.io_cycle != self.status.flags.io_cycle || !passes_equal(
            &status.last_pass_h0,
            &self.status.last_pass_h0,
        ) || !passes_equal(&status.last_pass_h1, &self.status.last_pass_h1);
        if packet && (reading || status.sector_log.len() > 0) {
            self.last_capture_instant = instant_now();
            self.stream_spinner_idx = (self.stream_spinner_idx + 1) % 4;
        }
        self.motor_on = f.motor_on;
        self.disk_format = f.disk_format;
        self.bus_type = f.bus_type;
        self.drive_unit = f.drive_unit;
        self.head_selection = f.head_select;
        self.view_mode = if f.verbose_mode {
            ViewMode::Verbose
        } else {
            ViewMode::Normal
        };
        self.status = status;
    }

    /// Switches between the normal and the verbose view.
    pub fn toggle_verbose(&mut self)
        ensures
            final(self).view_mode == (match old(self).view_mode {
                ViewMode::Normal => ViewMode::Verbose,
                ViewMode::Verbose => ViewMode::Normal,
            }),
            final(self).status.flags == (DriveFlags {
                verbose_mode: final(self).view_mode == ViewMode::Verbose,
                ..old(self).status.flags
            }),
    {
        self.view_mode = match self.view_mode {
            ViewMode::Normal => ViewMode::Verbose,
            ViewMode::Verbose => ViewMode::Normal,
        };
        let v = self.view_mode == ViewMode::Verbose;
        self.status.flags = DriveFlags { verbose_mode: v, ..self.status.flags };
    }

    /// Whether the verbose view is shown.
    pub fn is_verbose(&self) -> (r: bool)
        ensures
            r == (self.view_mode == ViewMode::Verbose),
    {
        self.view_mode == ViewMode::Verbose
    }

    /// Next head selection (0, 1, both).
    pub fn toggle_head(&mut self)
        ensures
            final(self).head_selection == old(self).head_selection.spec_toggle_next(),
            final(self).status.flags == (DriveFlags {
                head_select: final(self).head_selection,
                ..old(self).status.flags
            }),
    {
        self.head_selection = self.head_selection.toggle_next();
        self.status.flags = DriveFlags { head_select: self.head_selection, ..self.status.flags };
    }

    /// Next drive unit of the bus, wrapping to 0.
    pub fn toggle_drive_unit(&mut self)
        requires
            old(self).drive_unit < 255,
        ensures
            unit_toggled(old(self), final(self)),
            final(self).drive_unit == next_unit(old(self).bus_type, old(self).drive_unit),
            final(self).bus_type == old(self).bus_type,
            final(self).status.flags == (DriveFlags {
                drive_unit: final(self).drive_unit,
                unit_id: final(self).drive_unit,
                ..old(self).status.flags
            }),
    {
        let u = next_drive_unit(self.bus_type, self.drive_unit);
        self.drive_unit = u;
        let f = self.status.flags;
        self.status.flags = DriveFlags { drive_unit: u, unit_id: u, ..f };
        proof {
            reveal(unit_toggled);
        }
    }

    /// Selects a unit, clamped to the bus's highest unit.
    pub fn set_drive_unit(&mut self, unit: u8)
        ensures
            final(self).drive_unit == clamped_unit(old(self).bus_type, unit),
            final(self).bus_type == old(self).bus_type,
            final(self).status.flags == (DriveFlags {
                drive_unit: final(self).drive_unit,
                unit_id: final(self).drive_unit,
                ..old(self).status.flags
            }),
    {
        let max: u8 = match self.bus_type {
            BusType::IbmPc => 1,
            BusType::Shugart => 3,
        };
        let u = if unit > max {
            max
        } else {
            unit
        };
        self.drive_unit = u;
        let f = self.status.flags;
        self.status.flags = DriveFlags { drive_unit: u, unit_id: u, ..f };
    }

    /// Long label of the selected unit.
    pub fn format_drive_unit_label(&self) -> (r: String)
        ensures
            r@ == drive_unit_label(self.bus_type, self.drive_unit),
    {
        format_drive_unit_label(self.bus_type, self.drive_unit)
    }

    /// Short label of the selected unit.
    pub fn format_drive_unit_short(&self) -> (r: &'static str)
        ensures
            r@ == crate::heads::drive_unit_short(self.bus_type, self.drive_unit),
    {
        format_drive_unit_short(self.bus_type, self.drive_unit)
    }

    /// Next decoding profile.
    pub fn cycle_disk_format(&mut self)
        ensures
            format_selected(old(self), final(self), old(self).disk_format.spec_cycle_next()),
            final(self).disk_format == old(self).disk_format.spec_cycle_next(),
            final(self).status.flags == (DriveFlags {
                disk_format: final(self).disk_format,
                ..old(self).status.flags
            }),
    {
        self.disk_format = self.disk_format.cycle_next();
        self.status.flags = DriveFlags { disk_format: self.disk_format, ..self.status.flags };
        proof {
            reveal(format_selected);
        }
    }

    /// Selects a decoding profile.
    pub fn set_disk_format(&mut self, format: DiskFormat)
        ensures
            format_selected(old(self), final(self), format),
            final(self).disk_format == format,
            final(self).status.flags == (DriveFlags { disk_format: format, ..old(self).status.flags }),
    {
        self.disk_format = format;
        self.status.flags = DriveFlags { disk_format: format, ..self.status.flags };
        proof {
            reveal(format_selected);
        }
    }

    /// The selected decoding profile.
    pub fn disk_format(&self) -> (r: DiskFormat)
        ensures
            r == self.disk_format,
    {
        self.disk_format
    }

    /// Switches to the other bus; on the PC bus a unit above 1 falls back
    /// to 0.
    pub fn toggle_bus_type(&mut self)
        ensures
            bus_selected(old(self), final(self), old(self).bus_type.spec_toggle()),
            final(self).bus_type == old(self).bus_type.spec_toggle(),
            final(self).drive_unit == (if final(self).bus_type == BusType::IbmPc && old(
                self,
            ).drive_unit > 1 {
                0
            } else {
                old(self).drive_unit
            }),
            final(self).status.flags == (DriveFlags {
                bus_type: final(self).bus_type,
                drive_unit: final(self).drive_unit,
                unit_id: final(self).drive_unit,
                ..old(self).status.flags
            }),
    {
        let b = self.bus_type.toggle();
        self.set_bus_type(b);
    }

    /// Selects a bus; on the PC bus a unit above 1 falls back to 0.
    pub fn set_bus_type(&mut self, bus: BusType)
        ensures
            bus_selected(old(self), final(self), bus),
            final(self).bus_type == bus,
            final(self).drive_unit == (if bus == BusType::IbmPc && old(self).drive_unit > 1 {
                0
            } else {
                old(self).drive_unit
            }),
            final(self).status.flags == (DriveFlags {
                bus_type: bus,
                drive_unit: final(self).drive_unit,
                unit_id: final(self).drive_unit,
                ..old(self).status.flags
            }),
    {
        let u: u8 = if bus == BusType::IbmPc && self.drive_unit > 1 {
            0
        } else {
            self.drive_unit
        };
        self.bus_type = bus;
        self.drive_unit = u;
        let f = self.status.flags;
        self.status.flags = DriveFlags { bus_type: bus, drive_unit: u, unit_id: u, ..f };
        proof {
            reveal(bus_selected);
        }
    }

    /// The selected bus.
    pub fn bus_type(&self) -> (r: BusType)
        ensures
            r == self.bus_type,
    {
        self.bus_type
    }

    /// Records a pass for its head; the capture time is now and the
    /// spinner advances.
    pub fn record_pass(&mut self, pass: DiagnosticPass)
        requires
            old(self).stream_spinner_idx < usize::MAX,
        ensures
            final(self).stream_spinner_idx == (old(self).stream_spinner_idx + 1) % 4,
            pass.head == 0 ==> final(self).last_pass_h0 == Some(pass) && final(self).last_pass_h1
                == old(self).last_pass_h1,
            pass.head != 0 ==> final(self).last_pass_h1 == Some(pass) && final(self).last_pass_h0
                == old(self).last_pass_h0,
            final(self).status == old(self).status,
            final(self).motor_on == old(self).motor_on,
            final(self).view_mode == old(self).view_mode,
            final(self).head_selection == old(self).head_selection,
            final(self).drive_unit == old(self).drive_unit,
            final(self).show_help == old(self).show_help,
            final(self).disk_format == old(self).disk_format,
            final(self).bus_type == old(self).bus_type,
    {
        self.last_capture_instant = instant_now();
        self.stream_spinner_idx = (self.stream_spinner_idx + 1) % 4;
        if pass.head == 0 {
            self.last_pass_h0 = Some(pass);
        } else {
            self.last_pass_h1 = Some(pass);
        }
    }

    /// Forgets the passes of both heads.
    pub fn clear_passes(&mut self)
        ensures
            final(self).last_pass_h0 is None,
            final(self).last_pass_h1 is None,
            final(self).status == old(self).status,
            final(self).motor_on == old(self).motor_on,
            front_kept(old(self), final(self)),
            final(self).drive_unit == old(self).drive_unit,
            final(self).disk_format == old(self).disk_format,
            final(self).bus_type == old(self).bus_type,
    {
        self.last_pass_h0 = None;
        self.last_pass_h1 = None;
    }

    /// Applies a user action to the front end's state.
    /// Applies a user action to the front end's state (see `action_applied`).
    pub fn handle_action(&mut self, action: Action)
        requires
            action == Action::ToggleDriveUnit ==> old(self).drive_unit < 255,
        ensures
            action_applied(old(self), final(self), action),
    {
        match action {
            Action::ToggleDriveUnit => self.toggle_drive_unit(),
            Action::CycleDiskFormat => self.cycle_disk_format(),
            Action::SetDiskFormat(fmt) => self.set_disk_format(fmt),
            Action::ToggleBusType => self.toggle_bus_type(),
            Action::SetBusType(bus) => self.set_bus_type(bus),
            Action::Analyze | Action::StartAnalysis => self.start_analysis(),
            Action::Stop => self.stop(),
            Action::ToggleMotor => {
                let on = !self.motor_on;
                self.switch_motor(on);
            },
            Action::SetMotor(on) => self.switch_motor(on),
            Action::PanicReset => self.panic_reset(),
        }
    }

    fn start_analysis(&mut self)
        ensures
            analysis_started(old(self), final(self)),
            final(self).motor_on,
            final(self).last_pass_h0 is None,
            final(self).last_pass_h1 is None,
            final(self).status.flags == (DriveFlags {
                analyzing: true,
                mode: DisplayMode::Analyze,
                motor_on: true,
                activity: HwActivity::ReadingAnalyzing,
                ..old(self).status.flags
            }),
    {
        self.motor_on = true;
        let f = self.status.flags;
        self.status.flags = DriveFlags {
            analyzing: true,
            mode: DisplayMode::Analyze,
            motor_on: true,
            activity: HwActivity::ReadingAnalyzing,
            ..f
        };
        self.last_pass_h0 = None;
        self.last_pass_h1 = None;
        proof {
            reveal(analysis_started);
        }
    }

    fn stop(&mut self)
        ensures
            stopped(old(self), final(self)),
            !final(self).motor_on,
            final(self).status.flags == (DriveFlags {
                analyzing: false,
                motor_on: false,
                mode: DisplayMode::Off,
                activity: HwActivity::Stopped,
                index: false,
                ..old(self).status.flags
            }),
            final(self).status.log_msg@ == "Stop / Motor OFF (Safe to change disk)"@,
    {
        self.motor_on = false;
        let f = self.status.flags;
        self.status.flags = DriveFlags {
            analyzing: false,
            motor_on: false,
            mode: DisplayMode::Off,
            activity: HwActivity::Stopped,
            index: false,
            ..f
        };
        self.status.log_msg = String::from_str("Stop / Motor OFF (Safe to change disk)");
        proof {
            reveal(stopped);
        }
    }

    fn switch_motor(&mut self, on: bool)
        ensures
            motor_switched(old(self), final(self), on),
    {
        self.motor_on = on;
        self.status.apply_motor_reply(on, true, &Reply::Ack(0));
        proof {
            reveal(motor_switched);
        }
    }

    fn panic_reset(&mut self)
        ensures
            panic_reset_applied(old(self), final(self)),
    {
        self.motor_on = false;
        self.last_pass_h0 = None;
        self.last_pass_h1 = None;
        let f = self.status.flags;
        self.status.flags = DriveFlags {
            motor_on: false,
            analyzing: false,
            mode: DisplayMode::Off,
            activity: HwActivity::Idle,
            rpm: 0,
            rpm_samples: 0,
            rpm_avg_tenths: 0,
            index: false,
            sectors_known: false,
            on_track_count: 0,
            off_track_count: 0,
            crc_err_count: 0,
            head_select: HeadSelection::Head0,
            head: 0,
            in_progress_pass: false,
            read_status: DriveReadStatus::Good,
            ..f
        };
        self.status.rpm_display = String::from_str("--- RPM");
        self.status.off_track_details = String::from_str("NONE");
        self.status.sectors.clear();
        self.status.last_pass_h0 = None;
        self.status.last_pass_h1 = None;
        self.status.log_msg = String::from_str(
            "PANIC RESET: Hardware reset & serial buffers purged successfully",
        );
        proof {
            reveal(panic_reset_applied);
        }
    }
}

} // verus!
