//! The hardware worker as a state machine: the commands it takes, the
//! state it keeps, and for each command the next state given what the
//! controller answered. Talking to the controller is left to the caller,
//! which performs the exchange a command asks for and hands back the reply.
use vstd::prelude::*;
use vstd::string::*;
use crate::commands::{
    bus_type_message, format_profile_message, head_for_selection, head_selection_message,
    physical_head, physical_of, plan_seek, rpm_mode_message, seek_plan_spec, step_rate_message,
    SeekPlan,
};
use crate::drive::{DisplayMode, DriveReadStatus, HwActivity, RpmMode, SectorInfo};
use crate::flux::DecodedGwFlux;
use crate::fmt::{dec, push_dec};
use crate::ibm::rpm_round;
use crate::fs::FsInitMode;
use crate::heads::{max_unit, DiagnosticPass, HeadSelection};
use crate::protocol::{BusType, DiskFormat, PresetProfile, StepMode};

verus! {

/// A range of logical tracks, both ends included.
#[derive(Clone, Copy, Debug, PartialEq, Eq, Structural)]
pub struct TrackRange {
    pub start: u8,
    pub end: u8,
}

impl TrackRange {
    /// The tracks from `start` to `end`.
    pub fn new(start: u8, end: u8) -> (r: Self)
        ensures
            r.start == start,
            r.end == end,
    {
        TrackRange { start, end }
    }
}

/// A command to the hardware worker.
#[derive(Clone, Copy, Debug, PartialEq, Eq, Structural)]
pub enum HwCmd {
    SelectUnit(u8),
    SelectDrive(u8),
    ToggleDriveUnit,
    SetMotor(bool),
    ToggleMotor,
    MeasureRpm,
    CycleRpmMode,
    SetRpmMode(RpmMode),
    Seek(u8),
    RecalibrateSeek,
    ZeroTrack,
    SetHead(u8),
    SetHeadSelection(HeadSelection),
    ToggleHead,
    Analyze,
    StartAnalysis,
    ReadData,
    ToggleVerbose,
    ToggleBeep,
    SetVerbose(bool),
    SetBeep(bool),
    FormatTrack { track: u8, head_sel: HeadSelection, verify: bool, fs_mode: FsInitMode },
    FormatDisk { range: TrackRange, head_sel: HeadSelection, verify: bool, fs_mode: FsInitMode },
    EraseTrack { track: u8, head_sel: HeadSelection },
    EraseDisk { range: TrackRange, head_sel: HeadSelection },
    Stop,
    PanicReset,
    SetDiskFormat(DiskFormat),
    CycleDiskFormat,
    SetBusType(BusType),
    ToggleBusType,
    SetStepMode(StepMode),
    ToggleStepMode,
    CyclePreset,
    SetPreset(PresetProfile),
    Exit,
}

/// What the controller answered to an exchange: its status byte, or the
/// text of the transport error.
#[derive(Clone, Debug)]
pub enum Reply {
    Ack(u8),
    IoError(String),
}

/// The plain fields of the worker's status.
#[derive(Clone, Copy, Debug, PartialEq, Eq, Structural)]
pub struct DriveFlags {
    pub trk0: bool,
    pub index: bool,
    pub rpm: u32,
    pub rpm_mode: RpmMode,
    /// Samples in the hardware-index RPM measurement.
    pub rpm_samples: u32,
    /// Rolling average of that measurement, in tenths of an RPM.
    pub rpm_avg_tenths: u32,
    /// Samples in the software-sync RPM measurement.
    pub rpm_sw_samples: u32,
    pub track: u8,
    pub target_track: u8,
    pub head_select: HeadSelection,
    pub head: u8,
    pub motor_on: bool,
    pub drive_select: bool,
    pub drive_unit: u8,
    pub unit_id: u8,
    pub write_protect: bool,
    pub write_protected: bool,
    pub density: bool,
    pub bitrate: u16,
    pub sector_count: u8,
    pub sectors_known: bool,
    pub has_disk: bool,
    pub connected: bool,
    pub analyzing: bool,
    pub verbose_mode: bool,
    pub beep_enabled: bool,
    pub mode: DisplayMode,
    pub activity: HwActivity,
    pub on_track_count: u32,
    pub off_track_count: u32,
    pub crc_err_count: u32,
    pub in_progress_pass: bool,
    /// Read cycles started so far (wrapping).
    pub io_cycle: u64,
    pub read_status: DriveReadStatus,
    pub disk_format: DiskFormat,
    pub bus_type: BusType,
    pub step_mode: StepMode,
    pub preset: PresetProfile,
}

impl DriveFlags {
    /// The current and target tracks are reachable in the step mode.
    pub open spec fn tracks_in_range(self) -> bool {
        self.track <= self.step_mode.spec_max_logical_tracks() && self.target_track
            <= self.step_mode.spec_max_logical_tracks()
    }
}

/// The worker's status: the plain fields, the texts it shows, the sectors
/// of the current pass, the last pass of each head and the pass history.
#[derive(Clone, Debug)]
pub struct DriveState {
    pub flags: DriveFlags,
    pub log_msg: String,
    pub rpm_display: String,
    pub off_track_details: String,
    pub sectors: Vec<SectorInfo>,
    pub last_pass_h0: Option<DiagnosticPass>,
    pub last_pass_h1: Option<DiagnosticPass>,
    pub sector_log: Vec<String>,
    pub sector_log_standard: Vec<String>,
    pub sector_log_verbose: Vec<String>,
}

/// `<whole>.<tenth> RPM`.
pub open spec fn rpm_tenths_text(t: u32) -> Seq<char> {
    dec((t / 10) as nat) + "."@ + dec((t % 10) as nat) + " RPM"@
}

/// The RPM shown once a live measurement ends: its average when it has
/// samples, else what was shown before.
pub open spec fn display_after_measure(s: DriveState) -> Seq<char> {
    if s.flags.mode == DisplayMode::RpmMeasure && s.flags.rpm_samples > 0 {
        rpm_tenths_text(s.flags.rpm_avg_tenths)
    } else {
        s.rpm_display@
    }
}

/// What a transition keeps of the non-plain fields: the sectors (or none
/// of them), the last passes (or none), the details text and the history.
pub open spec fn keeps(a: DriveState, b: DriveState, clear_sectors: bool, clear_passes: bool) -> bool {
    &&& (if clear_sectors {
        b.sectors@.len() == 0
    } else {
        b.sectors@ == a.sectors@
    })
    &&& (if clear_passes {
        b.last_pass_h0 is None && b.last_pass_h1 is None
    } else {
        b.last_pass_h0 == a.last_pass_h0 && b.last_pass_h1 == a.last_pass_h1
    })
    &&& b.off_track_details@ == a.off_track_details@
    &&& b.sector_log@ == a.sector_log@
    &&& b.sector_log_standard@ == a.sector_log_standard@
    &&& b.sector_log_verbose@ == a.sector_log_verbose@
}

/// Activity once a command leaves the drive to itself: reading when an
/// analysis runs, idle when the motor turns, else stopped.
pub open spec fn resting_activity(f: DriveFlags) -> HwActivity {
    if f.analyzing {
        HwActivity::ReadingAnalyzing
    } else if f.motor_on {
        HwActivity::Idle
    } else {
        HwActivity::Stopped
    }
}

/// Message of an exchange: `ok` on status 0, else `<label> Error (code n)`,
/// or `<io_label> I/O Error: <text>` on a transport error.
pub open spec fn outcome_text(ok: Seq<char>, label: Seq<char>, io_label: Seq<char>, r: Reply) -> Seq<char> {
    match r {
        Reply::Ack(st) => if st == 0 {
            ok
        } else {
            label + " Error (code "@ + dec(st as nat) + ")"@
        },
        Reply::IoError(e) => io_label + " I/O Error: "@ + e@,
    }
}

/// Builds the message of an exchange (see `outcome_text`).
pub fn outcome_message(ok: String, label: &str, io_label: &str, reply: &Reply) -> (r: String)
    ensures
        r@ == outcome_text(ok@, label@, io_label@, *reply),
{
    match reply {
        Reply::Ack(st) => {
            if *st == 0 {
                ok
            } else {
                let mut out = label.to_string();
                out.append(" Error (code ");
                push_dec(&mut out, *st as u64);
                out.append(")");
                out
            }
        },
        Reply::IoError(e) => {
            let mut out = io_label.to_string();
            out.append(" I/O Error: ");
            out.append(e.as_str());
            out
        },
    }
}

/// Builds `rpm_tenths_text`.
pub fn rpm_tenths_display(t: u32) -> (r: String)
    ensures
        r@ == rpm_tenths_text(t),
{
    let mut out = String::new();
    push_dec(&mut out, (t / 10) as u64);
    out.append(".");
    push_dec(&mut out, (t % 10) as u64);
    out.append(" RPM");
    out
}

impl DriveState {
    /// What the main panel shows.
    pub fn display_mode(&self) -> (r: DisplayMode)
        ensures
            r == self.flags.mode,
    {
        self.flags.mode
    }

    /// Shows the average of the live measurement when it ends with samples.
    pub(crate) fn freeze_rpm_display(&mut self)
        ensures
            final(self).rpm_display@ == display_after_measure(*old(self)),
            final(self).flags == old(self).flags,
            final(self).log_msg@ == old(self).log_msg@,
            keeps(*old(self), *final(self), false, false),
    {
        if self.flags.mode == DisplayMode::RpmMeasure && self.flags.rpm_samples > 0 {
            self.rpm_display = rpm_tenths_display(self.flags.rpm_avg_tenths);
        }
    }

    /// After a command that changes the RPM source: the new source, both
    /// measurements cleared.
    pub fn apply_rpm_mode(&mut self, mode: RpmMode)
        ensures
            final(self).flags == (DriveFlags {
                rpm_mode: mode,
                rpm_samples: 0,
                rpm_avg_tenths: 0,
                rpm_sw_samples: 0,
                ..old(self).flags
            }),
            final(self).log_msg@ == "RPM Mode set to ["@ + (match mode {
                RpmMode::Auto => "Auto"@,
                RpmMode::HwIndex => "HW Index"@,
                RpmMode::SwSync => "SW Sync"@,
                RpmMode::Dual => "Dual"@,
            }) + "]"@,
            final(self).rpm_display@ == old(self).rpm_display@,
            keeps(*old(self), *final(self), false, false),
    {
        self.flags = DriveFlags {
            rpm_mode: mode,
            rpm_samples: 0,
            rpm_avg_tenths: 0,
            rpm_sw_samples: 0,
            ..self.flags
        };
        self.log_msg = rpm_mode_message(mode);
    }
}


impl DriveState {
    /// After a panic reset: motor off, nothing running, measurements,
    /// counters, sectors and passes cleared, head 0 selected.
    pub fn apply_panic_reset(&mut self)
        ensures
            final(self).flags == (DriveFlags {
                motor_on: false,
                analyzing: false,
                mode: DisplayMode::Off,
                activity: HwActivity::Idle,
                rpm: 0,
                rpm_samples: 0,
                rpm_avg_tenths: 0,
                rpm_sw_samples: 0,
                index: false,
                sectors_known: false,
                on_track_count: 0,
                off_track_count: 0,
                crc_err_count: 0,
                head_select: HeadSelection::Head0,
                head: 0,
                in_progress_pass: false,
                read_status: DriveReadStatus::Good,
                ..old(self).flags
            }),
            final(self).rpm_display@ == "--- RPM"@,
            final(self).off_track_details@ == "NONE"@,
            final(self).sectors@.len() == 0,
            final(self).last_pass_h0 is None,
            final(self).last_pass_h1 is None,
            final(self).sector_log@ == old(self).sector_log@,
            final(self).sector_log_standard@ == old(self).sector_log_standard@,
            final(self).sector_log_verbose@ == old(self).sector_log_verbose@,
            final(self).log_msg@ == "PANIC RESET: Hardware reset & serial buffers purged successfully"@,
    {
        self.flags = DriveFlags {
            motor_on: false,
            analyzing: false,
            mode: DisplayMode::Off,
            activity: HwActivity::Idle,
            rpm: 0,
            rpm_samples: 0,
            rpm_avg_tenths: 0,
            rpm_sw_samples: 0,
            index: false,
            sectors_known: false,
            on_track_count: 0,
            off_track_count: 0,
            crc_err_count: 0,
            head_select: HeadSelection::Head0,
            head: 0,
            in_progress_pass: false,
            read_status: DriveReadStatus::Good,
            ..self.flags
        };
        self.rpm_display = String::from_str("--- RPM");
        self.off_track_details = String::from_str("NONE");
        self.sectors.clear();
        self.last_pass_h0 = None;
        self.last_pass_h1 = None;
        self.log_msg = String::from_str("PANIC RESET: Hardware reset & serial buffers purged successfully");
    }

    /// After a stop: motor off, nothing running; a live measurement leaves
    /// its average on display.
    pub fn apply_stop(&mut self)
        ensures
            final(self).flags == (DriveFlags {
                motor_on: false,
                analyzing: false,
                mode: DisplayMode::Off,
                activity: HwActivity::Stopped,
                index: false,
                ..old(self).flags
            }),
            final(self).rpm_display@ == display_after_measure(*old(self)),
            final(self).log_msg@ == "Stop / Motor OFF (Safe to change disk)"@,
            keeps(*old(self), *final(self), false, false),
    {
        self.freeze_rpm_display();
        self.flags = DriveFlags {
            motor_on: false,
            analyzing: false,
            mode: DisplayMode::Off,
            activity: HwActivity::Stopped,
            index: false,
            ..self.flags
        };
        self.log_msg = String::from_str("Stop / Motor OFF (Safe to change disk)");
    }

    /// After the live RPM key: a running measurement ends (its average
    /// stays on display); otherwise one starts, with the motor on and both
    /// measurements cleared.
    pub fn apply_measure_rpm(&mut self)
        ensures
            old(self).flags.mode == DisplayMode::RpmMeasure ==> {
                &&& final(self).flags == (DriveFlags {
                    mode: DisplayMode::Off,
                    activity: if old(self).flags.motor_on {
                        HwActivity::Idle
                    } else {
                        HwActivity::Stopped
                    },
                    ..old(self).flags
                })
                &&& final(self).rpm_display@ == display_after_measure(*old(self))
                &&& final(self).log_msg@ == "Live RPM test stopped"@
            },
            old(self).flags.mode != DisplayMode::RpmMeasure ==> {
                &&& final(self).flags == (DriveFlags {
                    motor_on: true,
                    analyzing: false,
                    mode: DisplayMode::RpmMeasure,
                    activity: HwActivity::MeasuringRpm,
                    rpm_samples: 0,
                    rpm_avg_tenths: 0,
                    rpm_sw_samples: 0,
                    ..old(self).flags
                })
                &&& final(self).rpm_display@ == old(self).rpm_display@
                &&& final(self).log_msg@
                    == "Live RPM Test: High-precision continuous measurement for fine mechanical tuning"@
            },
            keeps(*old(self), *final(self), false, false),
    {
        if self.flags.mode == DisplayMode::RpmMeasure {
            self.freeze_rpm_display();
            let activity = if self.flags.motor_on {
                HwActivity::Idle
            } else {
                HwActivity::Stopped
            };
            self.flags = DriveFlags { mode: DisplayMode::Off, activity, ..self.flags };
            self.log_msg = String::from_str("Live RPM test stopped");
        } else {
            self.flags = DriveFlags {
                motor_on: true,
                analyzing: false,
                mode: DisplayMode::RpmMeasure,
                activity: HwActivity::MeasuringRpm,
                rpm_samples: 0,
                rpm_avg_tenths: 0,
                rpm_sw_samples: 0,
                ..self.flags
            };
            self.log_msg = String::from_str(
                "Live RPM Test: High-precision continuous measurement for fine mechanical tuning",
            );
        }
    }

    /// After the controller answered a motor switch to `on` (`from_key`:
    /// the motor key, whose messages say so). On status 0 the motor state
    /// follows; switching off ends any running mode (a live measurement
    /// leaves its average on display). Otherwise only the message changes.
    pub fn apply_motor_reply(&mut self, on: bool, from_key: bool, reply: &Reply)
        ensures
            (reply matches Reply::Ack(st) && st == 0) ==> {
                &&& !on ==> final(self).flags == (DriveFlags {
                    motor_on: false,
                    index: false,
                    analyzing: false,
                    mode: DisplayMode::Off,
                    activity: HwActivity::Stopped,
                    ..old(self).flags
                })
                &&& !on ==> final(self).rpm_display@ == display_after_measure(*old(self))
                &&& !on ==> final(self).log_msg@ == (if from_key {
                    "Motor OFF (M key)"@
                } else {
                    "Motor OFF"@
                })
                &&& on ==> final(self).flags == (DriveFlags {
                    motor_on: true,
                    drive_select: true,
                    has_disk: true,
                    activity: HwActivity::Idle,
                    ..old(self).flags
                })
                &&& on ==> final(self).rpm_display@ == old(self).rpm_display@
                &&& on ==> final(self).log_msg@ == (if from_key {
                    "Motor ON (M key)"@
                } else {
                    "Motor ON"@
                })
            },
            !(reply matches Reply::Ack(st) && st == 0) ==> {
                let label = if from_key {
                    "Motor Toggle"@
                } else {
                    "Motor"@
                };
                &&& final(self).flags == old(self).flags
                &&& final(self).rpm_display@ == old(self).rpm_display@
                &&& final(self).log_msg@ == outcome_text(Seq::empty(), label, label, *reply)
            },
            keeps(*old(self), *final(self), false, false),
    {
        let label = if from_key {
            "Motor Toggle"
        } else {
            "Motor"
        };
        let ok = match reply {
            Reply::Ack(st) => *st == 0,
            Reply::IoError(_) => false,
        };
        if ok {
            if !on {
                self.freeze_rpm_display();
                self.flags = DriveFlags {
                    motor_on: false,
                    index: false,
                    analyzing: false,
                    mode: DisplayMode::Off,
                    activity: HwActivity::Stopped,
                    ..self.flags
                };
                self.log_msg = if from_key {
                    String::from_str("Motor OFF (M key)")
                } else {
                    String::from_str("Motor OFF")
                };
            } else {
                self.flags = DriveFlags {
                    motor_on: true,
                    drive_select: true,
                    has_disk: true,
                    activity: HwActivity::Idle,
                    ..self.flags
                };
                self.log_msg = if from_key {
                    String::from_str("Motor ON (M key)")
                } else {
                    String::from_str("Motor ON")
                };
            }
        } else {
            self.log_msg = outcome_message(String::new(), label, label, reply);
        }
    }
}


/// The write-protect flags after a query: the answer when there is one.
pub open spec fn with_wp(f: DriveFlags, wp: Option<bool>) -> DriveFlags {
    match wp {
        Some(w) => DriveFlags { write_protect: w, write_protected: w, ..f },
        None => f,
    }
}

/// Mode and activity once a head movement is done: a live measurement
/// ends (activity idle or stopped by the motor), else the resting activity.
pub open spec fn after_move(f: DriveFlags) -> DriveFlags {
    if f.mode == DisplayMode::RpmMeasure {
        DriveFlags {
            mode: DisplayMode::Off,
            activity: if f.motor_on {
                HwActivity::Idle
            } else {
                HwActivity::Stopped
            },
            ..f
        }
    } else {
        DriveFlags { activity: resting_activity(f), ..f }
    }
}

/// How a recalibration went: the seek to track 0 failed in transport, or
/// it went through and the way back (to the starting track, or the
/// step-out cycle at track 0) answered.
#[derive(Clone, Debug)]
pub enum RecalibrateOutcome {
    Track0Failed(String),
    Returned(Reply),
}

/// Where a recalibration returns after track 0: the starting track's
/// cylinder and its timeout (1200 ms + 25 ms per cylinder), or nothing when
/// it started at track 0 (then a step-out cycle follows).
pub fn recalibrate_return(origin: u8, step_mode: StepMode) -> (r: Option<(u8, u64)>)
    requires
        origin as int * step_mode.spec_multiplier() as int <= 255,
    ensures
        origin == 0 ==> r is None,
        origin > 0 ==> r == Some(
            (
                physical_of(origin as int, step_mode.spec_multiplier() as int) as u8,
                (1200 + 25 * physical_of(origin as int, step_mode.spec_multiplier() as int)) as u64,
            ),
        ),
{
    if origin == 0 {
        None
    } else {
        let raw = origin * step_mode.multiplier();
        let phys: u8 = if raw > 83 {
            83
        } else {
            raw
        };
        Some((phys, 1200 + (phys as u64) * 25))
    }
}

/// Whether the way back of a recalibration answered status 0.
pub open spec fn recalibrate_succeeded(o: RecalibrateOutcome) -> bool {
    o matches RecalibrateOutcome::Returned(Reply::Ack(st)) && st == 0
}

/// The flags once a recalibration came back: the current track is the
/// target again.
pub open spec fn recalibrated_flags(f: DriveFlags, success: bool) -> DriveFlags {
    if success {
        DriveFlags { target_track: f.track, trk0: f.track == 0, ..f }
    } else {
        f
    }
}

/// Mode and activity after a recalibration: a live measurement ends, else
/// the resting activity.
pub open spec fn after_recalibrate(f: DriveFlags) -> DriveFlags {
    if f.mode == DisplayMode::RpmMeasure {
        DriveFlags {
            mode: DisplayMode::Off,
            activity: if f.motor_on {
                HwActivity::Idle
            } else {
                HwActivity::Stopped
            },
            ..f
        }
    } else {
        DriveFlags { activity: resting_activity(f), ..f }
    }
}

/// Message after a recalibration from `origin`.
pub open spec fn recalibrate_text(origin: u8, o: RecalibrateOutcome) -> Seq<char> {
    match o {
        RecalibrateOutcome::Track0Failed(e) => "Recalibrate Track 0 I/O Error: "@ + e@,
        RecalibrateOutcome::Returned(r) => outcome_text(
            "Recalibrate Track 0 -> Track "@ + dec(origin as nat),
            "Recalibrate"@,
            "Recalibrate"@,
            r,
        ),
    }
}

impl DriveState {
    fn clear_track_view(&mut self)
        ensures
            final(self).flags == (DriveFlags { sectors_known: false, ..old(self).flags }),
            final(self).log_msg@ == old(self).log_msg@,
            final(self).rpm_display@ == old(self).rpm_display@,
            keeps(*old(self), *final(self), true, false),
    {
        self.sectors.clear();
        self.flags = DriveFlags { sectors_known: false, ..self.flags };
    }

    fn apply_wp(&mut self, wp: Option<bool>)
        ensures
            final(self).flags == with_wp(old(self).flags, wp),
            final(self).log_msg@ == old(self).log_msg@,
            final(self).rpm_display@ == old(self).rpm_display@,
            keeps(*old(self), *final(self), false, false),
    {
        if let Some(w) = wp {
            self.flags = DriveFlags { write_protect: w, write_protected: w, ..self.flags };
        }
    }

    /// Before a seek: the plan (see `seek_plan_spec`); the target becomes
    /// the current track, its sectors and passes are cleared, the drive
    /// shows as seeking.
    pub fn begin_seek(&mut self, target: u8) -> (plan: SeekPlan)
        requires
            old(self).flags.track as int * old(self).flags.step_mode.spec_multiplier() as int <= 255,
        ensures
            old(self).flags.tracks_in_range() ==> final(self).flags.tracks_in_range(),
            plan == seek_plan_spec(target, old(self).flags.track, old(self).flags.step_mode),
            final(self).flags == (DriveFlags {
                target_track: plan.track,
                track: plan.track,
                trk0: plan.track == 0,
                sectors_known: false,
                activity: HwActivity::Seeking,
                ..old(self).flags
            }),
            final(self).log_msg@ == old(self).log_msg@,
            final(self).rpm_display@ == old(self).rpm_display@,
            keeps(*old(self), *final(self), true, true),
    {
        let plan = plan_seek(target, self.flags.track, self.flags.step_mode);
        self.flags = DriveFlags {
            target_track: plan.track,
            track: plan.track,
            trk0: plan.track == 0,
            sectors_known: false,
            activity: HwActivity::Seeking,
            ..self.flags
        };
        self.sectors.clear();
        self.last_pass_h0 = None;
        self.last_pass_h1 = None;
        plan
    }

    /// After the controller answered the seek (`wp`: the write-protect
    /// query that follows it).
    pub fn finish_seek(&mut self, reply: &Reply, wp: Option<bool>)
        ensures
            final(self).flags == after_move(
                DriveFlags { sectors_known: false, ..with_wp(old(self).flags, wp) },
            ),
            final(self).log_msg@ == outcome_text(
                "Seek -> Track "@ + dec(old(self).flags.track as nat),
                "Seek"@,
                "Seek"@,
                *reply,
            ),
            old(self).flags.mode == DisplayMode::RpmMeasure ==> final(self).rpm_display@
                == display_after_measure(*old(self)),
            old(self).flags.mode != DisplayMode::RpmMeasure ==> final(self).rpm_display@
                == old(self).rpm_display@,
            keeps(*old(self), *final(self), true, false),
    {
        let mut ok = String::from_str("Seek -> Track ");
        push_dec(&mut ok, self.flags.track as u64);
        self.log_msg = outcome_message(ok, "Seek", "Seek", reply);
        self.apply_wp(wp);
        self.clear_track_view();
        self.settle_after_move();
    }

    fn settle_after_move(&mut self)
        ensures
            final(self).flags == after_move(old(self).flags),
            final(self).log_msg@ == old(self).log_msg@,
            old(self).flags.mode == DisplayMode::RpmMeasure ==> final(self).rpm_display@
                == display_after_measure(*old(self)),
            old(self).flags.mode != DisplayMode::RpmMeasure ==> final(self).rpm_display@
                == old(self).rpm_display@,
            keeps(*old(self), *final(self), false, false),
    {
        if self.flags.mode == DisplayMode::RpmMeasure {
            self.freeze_rpm_display();
            let activity = if self.flags.motor_on {
                HwActivity::Idle
            } else {
                HwActivity::Stopped
            };
            self.flags = DriveFlags { mode: DisplayMode::Off, activity, ..self.flags };
        } else {
            let activity = if self.flags.analyzing {
                HwActivity::ReadingAnalyzing
            } else if self.flags.motor_on {
                HwActivity::Idle
            } else {
                HwActivity::Stopped
            };
            self.flags = DriveFlags { activity, ..self.flags };
        }
    }

    /// Before a recalibration: the drive shows as seeking.
    pub fn begin_recalibrate(&mut self)
        ensures
            final(self).flags == (DriveFlags { activity: HwActivity::Seeking, ..old(self).flags }),
            final(self).log_msg@ == old(self).log_msg@,
            final(self).rpm_display@ == old(self).rpm_display@,
            keeps(*old(self), *final(self), false, false),
    {
        self.flags = DriveFlags { activity: HwActivity::Seeking, ..self.flags };
    }

    /// After a recalibration from the current track. When the way back
    /// answered status 0 the current track becomes the target again (and,
    /// away from track 0, the passes are cleared). A live measurement ends
    /// without changing what is displayed.
    pub fn finish_recalibrate(&mut self, outcome: &RecalibrateOutcome, wp: Option<bool>)
        ensures
            old(self).flags.tracks_in_range() ==> final(self).flags.tracks_in_range(),
            ({
                let origin = old(self).flags.track;
                let success = recalibrate_succeeded(*outcome);
                let f0 = recalibrated_flags(old(self).flags, success);
                let f1 = DriveFlags { sectors_known: false, ..with_wp(f0, wp) };
                &&& final(self).flags == after_recalibrate(f1)
                &&& keeps(*old(self), *final(self), true, success && origin > 0)
                &&& final(self).log_msg@ == recalibrate_text(origin, *outcome)
            }),
            final(self).rpm_display@ == old(self).rpm_display@,
    {
        self.record_recalibrate(outcome);
        self.apply_wp(wp);
        self.clear_track_view();
        self.settle_after_recalibrate();
    }

    fn settle_after_recalibrate(&mut self)
        ensures
            final(self).flags == after_recalibrate(old(self).flags),
            final(self).log_msg@ == old(self).log_msg@,
            final(self).rpm_display@ == old(self).rpm_display@,
            keeps(*old(self), *final(self), false, false),
    {
        let f = self.flags;
        if f.mode == DisplayMode::RpmMeasure {
            let activity = if f.motor_on {
                HwActivity::Idle
            } else {
                HwActivity::Stopped
            };
            self.flags = DriveFlags { mode: DisplayMode::Off, activity, ..f };
        } else {
            let activity = if f.analyzing {
                HwActivity::ReadingAnalyzing
            } else if f.motor_on {
                HwActivity::Idle
            } else {
                HwActivity::Stopped
            };
            self.flags = DriveFlags { activity, ..f };
        }
    }

    fn record_recalibrate(&mut self, outcome: &RecalibrateOutcome)
        ensures
            final(self).flags == recalibrated_flags(old(self).flags, recalibrate_succeeded(*outcome)),
            keeps(
                *old(self),
                *final(self),
                false,
                recalibrate_succeeded(*outcome) && old(self).flags.track > 0,
            ),
            final(self).log_msg@ == recalibrate_text(old(self).flags.track, *outcome),
            final(self).rpm_display@ == old(self).rpm_display@,
    {
        let origin = self.flags.track;
        match outcome {
            RecalibrateOutcome::Track0Failed(e) => {
                let mut out = String::from_str("Recalibrate Track 0 I/O Error: ");
                out.append(e.as_str());
                self.log_msg = out;
            },
            RecalibrateOutcome::Returned(r) => {
                let success = match r {
                    Reply::Ack(st) => *st == 0,
                    Reply::IoError(_) => false,
                };
                if success {
                    self.flags = DriveFlags { target_track: origin, trk0: origin == 0, ..self.flags };
                    if origin > 0 {
                        self.last_pass_h0 = None;
                        self.last_pass_h1 = None;
                    }
                }
                let mut ok = String::from_str("Recalibrate Track 0 -> Track ");
                push_dec(&mut ok, origin as u64);
                self.log_msg = outcome_message(ok, "Recalibrate", "Recalibrate", r);
            },
        }
    }

    /// Before a return to track 0: a live measurement ends (its average
    /// stays on display) and the drive shows as seeking.
    pub fn begin_zero_track(&mut self)
        ensures
            final(self).flags == (DriveFlags {
                mode: if old(self).flags.mode == DisplayMode::RpmMeasure {
                    DisplayMode::Off
                } else {
                    old(self).flags.mode
                },
                activity: HwActivity::Seeking,
                ..old(self).flags
            }),
            final(self).rpm_display@ == display_after_measure(*old(self)),
            final(self).log_msg@ == old(self).log_msg@,
            keeps(*old(self), *final(self), false, false),
    {
        if self.flags.mode == DisplayMode::RpmMeasure {
            self.freeze_rpm_display();
            self.flags = DriveFlags { mode: DisplayMode::Off, ..self.flags };
        }
        self.flags = DriveFlags { activity: HwActivity::Seeking, ..self.flags };
    }

    /// After the controller answered the seek to track 0.
    pub fn finish_zero_track(&mut self, reply: &Reply, wp: Option<bool>)
        ensures
            old(self).flags.tracks_in_range() ==> final(self).flags.tracks_in_range(),
            ({
                let success = reply matches Reply::Ack(st) && st == 0;
                let f0 = if success {
                    DriveFlags { target_track: 0, track: 0, trk0: true, ..old(self).flags }
                } else {
                    old(self).flags
                };
                &&& final(self).flags == after_move(
                    DriveFlags { sectors_known: false, ..with_wp(f0, wp) },
                )
                &&& keeps(*old(self), *final(self), true, success)
            }),
            final(self).log_msg@ == outcome_text(
                "Zero Track -> Track 00"@,
                "Zero Track"@,
                "Zero Track"@,
                *reply,
            ),
            old(self).flags.mode == DisplayMode::RpmMeasure ==> final(self).rpm_display@
                == display_after_measure(*old(self)),
            old(self).flags.mode != DisplayMode::RpmMeasure ==> final(self).rpm_display@
                == old(self).rpm_display@,
    {
        let success = match reply {
            Reply::Ack(st) => *st == 0,
            Reply::IoError(_) => false,
        };
        if success {
            self.flags = DriveFlags { target_track: 0, track: 0, trk0: true, ..self.flags };
            self.last_pass_h0 = None;
            self.last_pass_h1 = None;
        }
        self.log_msg = outcome_message(
            String::from_str("Zero Track -> Track 00"),
            "Zero Track",
            "Zero Track",
            reply,
        );
        self.apply_wp(wp);
        self.clear_track_view();
        self.settle_after_move();
    }

    /// After the controller answered a direct head command (any non-zero
    /// value selects head 1); the sectors are cleared either way.
    pub fn apply_set_head(&mut self, head_val: u8, reply: &Reply)
        ensures
            ({
                let head: u8 = if head_val > 0 {
                    1
                } else {
                    0
                };
                let sel = if head_val > 0 {
                    HeadSelection::Head1
                } else {
                    HeadSelection::Head0
                };
                let success = reply matches Reply::Ack(st) && st == 0;
                &&& final(self).flags == (if success {
                    DriveFlags { head_select: sel, head, sectors_known: false, ..old(self).flags }
                } else {
                    DriveFlags { sectors_known: false, ..old(self).flags }
                })
                &&& final(self).log_msg@ == outcome_text(
                    "Head set -> "@ + dec(head as nat),
                    "Head "@ + dec(head as nat),
                    "Head"@,
                    *reply,
                )
            }),
            final(self).rpm_display@ == old(self).rpm_display@,
            keeps(*old(self), *final(self), true, false),
    {
        let (sel, head) = if head_val > 0 {
            (HeadSelection::Head1, 1u8)
        } else {
            (HeadSelection::Head0, 0u8)
        };
        let success = match reply {
            Reply::Ack(st) => *st == 0,
            Reply::IoError(_) => false,
        };
        if success {
            self.flags = DriveFlags { head_select: sel, head, ..self.flags };
        }
        let mut ok = String::from_str("Head set -> ");
        push_dec(&mut ok, head as u64);
        let mut label = String::from_str("Head ");
        push_dec(&mut label, head as u64);
        self.log_msg = outcome_message(ok, label.as_str(), "Head", reply);
        self.clear_track_view();
    }

    /// After the controller answered the head of a new selection: the
    /// selection holds either way, the head follows on status 0, and the
    /// sectors are cleared.
    pub fn apply_head_selection(&mut self, sel: HeadSelection, reply: &Reply)
        ensures
            ({
                let success = reply matches Reply::Ack(st) && st == 0;
                &&& final(self).flags == (if success {
                    DriveFlags {
                        head_select: sel,
                        head: physical_head(sel),
                        sectors_known: false,
                        ..old(self).flags
                    }
                } else {
                    DriveFlags { head_select: sel, sectors_known: false, ..old(self).flags }
                })
                &&& final(self).log_msg@ == outcome_text(
                    match sel {
                        HeadSelection::Head0 => "Head selection -> Head 0"@,
                        HeadSelection::Head1 => "Head selection -> Head 1"@,
                        HeadSelection::Both => "Head selection -> BOTH (0+1) [Alternating mode]"@,
                    },
                    "Head"@,
                    "Head"@,
                    *reply,
                )
            }),
            final(self).rpm_display@ == old(self).rpm_display@,
            keeps(*old(self), *final(self), true, false),
    {
        let success = match reply {
            Reply::Ack(st) => *st == 0,
            Reply::IoError(_) => false,
        };
        if success {
            self.flags = DriveFlags { head_select: sel, head: head_for_selection(sel), ..self.flags };
        } else {
            self.flags = DriveFlags { head_select: sel, ..self.flags };
        }
        let ok = head_selection_message(sel).to_string();
        self.log_msg = outcome_message(ok, "Head", "Head", reply);
        self.clear_track_view();
    }
}


/// Copies a list of lines.
pub(crate) fn copy_lines(v: &Vec<String>) -> (r: Vec<String>)
    ensures
        r@ == v@,
{
    let mut out: Vec<String> = Vec::new();
    let mut i: usize = 0;
    while i < v.len()
        invariant
            i <= v.len(),
            out@ == v@.subrange(0, i as int),
        decreases v.len() - i,
    {
        out.push(v[i].clone());
        i = i + 1;
        assert(out@ =~= v@.subrange(0, i as int));
    }
    assert(v@.subrange(0, v.len() as int) =~= v@);
    out
}

/// `ON` or `OFF`.
pub open spec fn on_off(b: bool) -> Seq<char> {
    if b {
        "ON"@
    } else {
        "OFF"@
    }
}

/// Name of a bus type.
pub open spec fn bus_name(b: BusType) -> Seq<char> {
    match b {
        BusType::IbmPc => "IBM PC"@,
        BusType::Shugart => "Shugart"@,
    }
}

/// Label of a step mode.
pub open spec fn step_name(m: StepMode) -> Seq<char> {
    match m {
        StepMode::Single => "1:1 (Single)"@,
        StepMode::Double => "2:1 (Double)"@,
    }
}

/// Label of a preset.
pub open spec fn preset_label(p: PresetProfile) -> Seq<char> {
    match p {
        PresetProfile::Pc35Hd => "3.5\" HD (1.44M)"@,
        PresetProfile::Pc35Dd => "3.5\" DD (720K)"@,
        PresetProfile::Pc525Hd => "5.25\" HD (1.2M)"@,
        PresetProfile::Pc525DdOnHd => "5.25\" DD on HD (360K)"@,
        PresetProfile::Pc525Dd => "5.25\" DD (360K)"@,
        PresetProfile::Amiga35Dd => "Amiga 3.5\" DD (880K)"@,
        PresetProfile::Atari35Dd => "Atari 3.5\" DD (720K)"@,
        PresetProfile::Cpc30Data => "Amstrad CPC 3.0\" (178K)"@,
    }
}

/// Label of a drive unit on a bus (as `drive_unit_label`).
pub open spec fn unit_label(bus: BusType, unit: u8) -> Seq<char> {
    crate::heads::drive_unit_label(bus, unit)
}

/// The unit after `unit`, wrapping after B: on the PC bus and after DS3
/// on Shugart.
pub open spec fn next_unit(bus: BusType, unit: u8) -> u8 {
    match bus {
        BusType::IbmPc => ((unit + 1) % 2) as u8,
        BusType::Shugart => ((unit + 1) % 4) as u8,
    }
}

/// The unit after `unit`, wrapping at the bus's unit count.
pub fn next_drive_unit(bus: BusType, unit: u8) -> (r: u8)
    requires
        unit < 255,
    ensures
        r == next_unit(bus, unit),
{
    let count: u8 = if bus == BusType::IbmPc {
        2
    } else {
        4
    };
    (unit + 1) % count
}

/// A requested unit clamped to the bus's highest unit.
pub fn clamp_drive_unit(bus: BusType, unit: u8) -> (r: u8)
    ensures
        r == (if unit > max_unit(bus) { max_unit(bus) } else { unit }),
{
    let max: u8 = if bus == BusType::IbmPc {
        1
    } else {
        3
    };
    if unit > max {
        max
    } else {
        unit
    }
}

/// Whether a command ends the worker.
pub fn is_exit(cmd: &HwCmd) -> (r: bool)
    ensures
        r == (*cmd is Exit),
{
    match cmd {
        HwCmd::Exit => true,
        _ => false,
    }
}

/// The flags after a unit was selected and recalibrated.
pub open spec fn unit_selected_flags(f: DriveFlags, unit: u8, wp: Option<bool>) -> DriveFlags {
    let f0 = if unit != f.drive_unit {
        DriveFlags { drive_unit: unit, unit_id: unit, ..f }
    } else {
        f
    };
    let f1 = with_wp(DriveFlags { drive_select: true, ..f0 }, wp);
    DriveFlags {
        track: 0,
        trk0: true,
        sectors_known: false,
        mode: DisplayMode::Off,
        activity: if f1.motor_on {
            HwActivity::Idle
        } else {
            HwActivity::Stopped
        },
        ..f1
    }
}

/// Last logical track of a preset: 39 on 48-TPI media or in double
/// step, else 79.
pub open spec fn preset_last_track(p: PresetProfile, step: StepMode) -> u8 {
    if p.spec_is_48_tpi() || step == StepMode::Double {
        39
    } else {
        79
    }
}

impl DriveState {
    /// After an analysis or data read starts (`read_data`: the sector read
    /// rather than the alignment diagnostic); the motor is on, the drive
    /// selected if the motor had to start.
    pub fn apply_start_reading(&mut self, read_data: bool, wp: Option<bool>)
        ensures
            ({
                let f0 = if old(self).flags.motor_on {
                    old(self).flags
                } else {
                    DriveFlags { motor_on: true, drive_select: true, ..old(self).flags }
                };
                final(self).flags == (DriveFlags {
                    analyzing: true,
                    mode: if read_data {
                        DisplayMode::ReadData
                    } else {
                        DisplayMode::Analyze
                    },
                    activity: HwActivity::ReadingAnalyzing,
                    ..with_wp(f0, wp)
                })
            }),
            final(self).log_msg@ == (if read_data {
                "read Data: Starting sector read..."@
            } else {
                "Analyze: Starting alignment diagnostics..."@
            }),
            final(self).rpm_display@ == old(self).rpm_display@,
            keeps(*old(self), *final(self), false, false),
    {
        if !self.flags.motor_on {
            self.flags = DriveFlags { motor_on: true, drive_select: true, ..self.flags };
        }
        self.apply_wp(wp);
        let mode = if read_data {
            DisplayMode::ReadData
        } else {
            DisplayMode::Analyze
        };
        self.flags = DriveFlags {
            analyzing: true,
            mode,
            activity: HwActivity::ReadingAnalyzing,
            ..self.flags
        };
        self.log_msg = if read_data {
            String::from_str("read Data: Starting sector read...")
        } else {
            String::from_str("Analyze: Starting alignment diagnostics...")
        };
    }

    /// After the verbose switch: the shown history becomes the verbose or
    /// the standard one.
    pub fn apply_verbose(&mut self, verbose: bool)
        ensures
            final(self).flags == (DriveFlags { verbose_mode: verbose, ..old(self).flags }),
            final(self).sector_log@ == (if verbose {
                old(self).sector_log_verbose@
            } else {
                old(self).sector_log_standard@
            }),
            final(self).sector_log_standard@ == old(self).sector_log_standard@,
            final(self).sector_log_verbose@ == old(self).sector_log_verbose@,
            final(self).sectors@ == old(self).sectors@,
            final(self).last_pass_h0 == old(self).last_pass_h0,
            final(self).last_pass_h1 == old(self).last_pass_h1,
            final(self).off_track_details@ == old(self).off_track_details@,
            final(self).rpm_display@ == old(self).rpm_display@,
            final(self).log_msg@ == "Verbose: "@ + on_off(verbose),
    {
        self.flags = DriveFlags { verbose_mode: verbose, ..self.flags };
        self.sector_log = if verbose {
            copy_lines(&self.sector_log_verbose)
        } else {
            copy_lines(&self.sector_log_standard)
        };
        let mut out = String::from_str("Verbose: ");
        out.append(if verbose {
            "ON"
        } else {
            "OFF"
        });
        self.log_msg = out;
    }

    /// After the beep switch.
    pub fn apply_beep(&mut self, beep: bool)
        ensures
            final(self).flags == (DriveFlags { beep_enabled: beep, ..old(self).flags }),
            final(self).log_msg@ == "Beep: "@ + on_off(beep),
            final(self).rpm_display@ == old(self).rpm_display@,
            keeps(*old(self), *final(self), false, false),
    {
        self.flags = DriveFlags { beep_enabled: beep, ..self.flags };
        let mut out = String::from_str("Beep: ");
        out.append(if beep {
            "ON"
        } else {
            "OFF"
        });
        self.log_msg = out;
    }

    /// After a unit was selected and recalibrated to track 0 (`toggled`:
    /// by the unit key rather than by number): the unit, track 0, no
    /// sectors or passes, no running mode.
    pub fn apply_unit_selected(&mut self, unit: u8, toggled: bool, wp: Option<bool>)
        ensures
            old(self).flags.tracks_in_range() ==> final(self).flags.tracks_in_range(),
            final(self).flags == unit_selected_flags(old(self).flags, unit, wp),
            toggled ==> final(self).log_msg@ == unit_label(old(self).flags.bus_type, unit)
                + " selected & Recalibrated Track 0"@,
            !toggled ==> final(self).log_msg@ == "Select "@ + unit_label(
                old(self).flags.bus_type,
                unit,
            ) + " & Recalibrate Track 0"@,
            final(self).rpm_display@ == old(self).rpm_display@,
            keeps(*old(self), *final(self), true, true),
    {
        if unit != self.flags.drive_unit {
            self.flags = DriveFlags { drive_unit: unit, unit_id: unit, ..self.flags };
        }
        self.flags = DriveFlags { drive_select: true, ..self.flags };
        self.apply_wp(wp);
        let activity = if self.flags.motor_on {
            HwActivity::Idle
        } else {
            HwActivity::Stopped
        };
        self.flags = DriveFlags {
            track: 0,
            trk0: true,
            sectors_known: false,
            mode: DisplayMode::Off,
            activity,
            ..self.flags
        };
        self.sectors.clear();
        self.last_pass_h0 = None;
        self.last_pass_h1 = None;
        self.log_msg = crate::commands::unit_selected_message(self.flags.bus_type, unit, toggled);
    }

    /// After a format profile change.
    pub fn apply_disk_format(&mut self, format: DiskFormat)
        ensures
            final(self).flags == (DriveFlags { disk_format: format, ..old(self).flags }),
            final(self).log_msg@ == "Format Profile: "@ + (match format {
                DiskFormat::AutoDetect => "Auto-Detect"@,
                DiskFormat::IbmPc => "IBM PC (FAT)"@,
                DiskFormat::AmigaDos => "AmigaDOS (Paula)"@,
                DiskFormat::AtariSt => "Atari ST (WD1772)"@,
                DiskFormat::AmstradCpcData => "Amstrad CPC (DATA)"@,
                DiskFormat::AmstradCpcSystem => "Amstrad CPC (SYSTEM)"@,
            }),
            final(self).rpm_display@ == old(self).rpm_display@,
            keeps(*old(self), *final(self), false, false),
    {
        self.flags = DriveFlags { disk_format: format, ..self.flags };
        self.log_msg = format_profile_message(format);
    }

    /// After a bus change: on the PC bus a unit above 1 falls back to 0.
    pub fn apply_bus_type(&mut self, bus: BusType)
        ensures
            final(self).flags == (if bus == BusType::IbmPc && old(self).flags.drive_unit > 1 {
                DriveFlags { bus_type: bus, drive_unit: 0, unit_id: 0, ..old(self).flags }
            } else {
                DriveFlags { bus_type: bus, ..old(self).flags }
            }),
            final(self).log_msg@ == (match bus {
                BusType::IbmPc => "Bus Type: IBM PC (IBM PC Standard)"@,
                BusType::Shugart => "Bus Type: Shugart (Amiga / Shugart DS0 Pin 10)"@,
            }),
            final(self).rpm_display@ == old(self).rpm_display@,
            keeps(*old(self), *final(self), false, false),
    {
        if bus == BusType::IbmPc && self.flags.drive_unit > 1 {
            self.flags = DriveFlags { bus_type: bus, drive_unit: 0, unit_id: 0, ..self.flags };
        } else {
            self.flags = DriveFlags { bus_type: bus, ..self.flags };
        }
        self.log_msg = bus_type_message(bus);
    }

    /// After a step mode change: the current and target tracks are clamped
    /// to the mode's last logical track.
    pub fn apply_step_mode(&mut self, step: StepMode)
        ensures
            final(self).flags.tracks_in_range(),
            ({
                let max = step.spec_max_logical_tracks();
                final(self).flags == (DriveFlags {
                    step_mode: step,
                    track: if old(self).flags.track > max {
                        max
                    } else {
                        old(self).flags.track
                    },
                    target_track: if old(self).flags.target_track > max {
                        max
                    } else {
                        old(self).flags.target_track
                    },
                    ..old(self).flags
                })
            }),
            final(self).log_msg@ == "Step Rate: "@ + step_name(step),
            final(self).rpm_display@ == old(self).rpm_display@,
            keeps(*old(self), *final(self), false, false),
    {
        let max = step.max_logical_tracks();
        let track = if self.flags.track > max {
            max
        } else {
            self.flags.track
        };
        let target_track = if self.flags.target_track > max {
            max
        } else {
            self.flags.target_track
        };
        self.flags = DriveFlags { step_mode: step, track, target_track, ..self.flags };
        self.log_msg = step_rate_message(step);
    }

    /// After a preset change: its decoding profile, default step mode and
    /// data rate (high density at 500 kbps); the tracks are clamped to its
    /// last logical track.
    pub fn apply_preset(&mut self, preset: PresetProfile)
        ensures
            old(self).flags.tracks_in_range() ==> final(self).flags.tracks_in_range(),
            ({
                let step = preset.spec_default_step();
                let max = preset_last_track(preset, step);
                final(self).flags == (DriveFlags {
                    preset,
                    disk_format: preset.spec_format_profile(),
                    step_mode: step,
                    bitrate: preset.spec_target_data_rate(),
                    density: preset.spec_target_data_rate() == 500,
                    track: if old(self).flags.track > max {
                        max
                    } else {
                        old(self).flags.track
                    },
                    target_track: if old(self).flags.target_track > max {
                        max
                    } else {
                        old(self).flags.target_track
                    },
                    ..old(self).flags
                })
            }),
            final(self).log_msg@ == "Preset: "@ + preset_label(preset) + " ("@ + bus_name(
                old(self).flags.bus_type,
            ) + " | "@ + step_name(preset.spec_default_step()) + " | "@ + dec(
                preset.spec_target_data_rate() as nat,
            ) + "k)"@,
            final(self).rpm_display@ == old(self).rpm_display@,
            keeps(*old(self), *final(self), false, false),
    {
        let step = preset.default_step();
        let rate = preset.target_data_rate();
        let max: u8 = if preset.is_48_tpi() || step == StepMode::Double {
            39
        } else {
            79
        };
        let track = if self.flags.track > max {
            max
        } else {
            self.flags.track
        };
        let target_track = if self.flags.target_track > max {
            max
        } else {
            self.flags.target_track
        };
        self.flags = DriveFlags {
            preset,
            disk_format: preset.format_profile(),
            step_mode: step,
            bitrate: rate,
            density: rate == 500,
            track,
            target_track,
            ..self.flags
        };
        let mut out = String::from_str("Preset: ");
        out.append(preset.label());
        out.append(" (");
        out.append(self.flags.bus_type.as_str());
        out.append(" | ");
        out.append(step.as_str());
        out.append(" | ");
        push_dec(&mut out, rate as u64);
        out.append("k)");
        self.log_msg = out;
    }
}


/// What a worker cycle does: measure the RPM, read a track for the
/// running analysis, or nothing.
#[derive(Clone, Copy, Debug, PartialEq, Eq, Structural)]
pub enum WorkerCycle {
    MeasureRpm,
    ReadTrack,
    Rest,
}

/// What an RPM cycle does after the hardware index pulses were looked at
/// (see `rpm_cycle_plan`).
#[derive(Clone, Copy, Debug, PartialEq, Eq, Structural)]
pub enum RpmCyclePlan {
    /// The hardware reading stands.
    Keep,
    /// No reading: RPM 0, no index.
    NoReading,
    /// Time one revolution from the sector headers instead.
    HeaderFallback,
    /// Take every header-timed revolution as the reading.
    SoftwareOnly,
    /// Feed the header-timed revolutions to the second measurement only.
    Dual,
}

/// The decision of an RPM cycle by source: the hardware index alone, the
/// index with the headers as fallback, the headers alone, or both side by
/// side.
pub open spec fn rpm_cycle_plan_spec(mode: RpmMode, hw_recorded: bool) -> RpmCyclePlan {
    match mode {
        RpmMode::HwIndex => if hw_recorded {
            RpmCyclePlan::Keep
        } else {
            RpmCyclePlan::NoReading
        },
        RpmMode::Auto => if hw_recorded {
            RpmCyclePlan::Keep
        } else {
            RpmCyclePlan::HeaderFallback
        },
        RpmMode::SwSync => RpmCyclePlan::SoftwareOnly,
        RpmMode::Dual => RpmCyclePlan::Dual,
    }
}

/// Decides an RPM cycle (see `rpm_cycle_plan_spec`).
pub fn rpm_cycle_plan(mode: RpmMode, hw_recorded: bool) -> (r: RpmCyclePlan)
    ensures
        r == rpm_cycle_plan_spec(mode, hw_recorded),
{
    match mode {
        RpmMode::HwIndex => if hw_recorded {
            RpmCyclePlan::Keep
        } else {
            RpmCyclePlan::NoReading
        },
        RpmMode::Auto => if hw_recorded {
            RpmCyclePlan::Keep
        } else {
            RpmCyclePlan::HeaderFallback
        },
        RpmMode::SwSync => RpmCyclePlan::SoftwareOnly,
        RpmMode::Dual => RpmCyclePlan::Dual,
    }
}

/// Sum of the flux intervals `a..b`.
pub open spec fn flux_span(flux: Seq<u32>, a: int, b: int) -> int
    decreases b - a,
{
    if b <= a {
        0
    } else {
        flux_span(flux, a, b - 1) + flux[b - 1]
    }
}

proof fn lemma_flux_span_mono(flux: Seq<u32>, a: int, i: int, b: int)
    requires
        a <= i <= b,
    ensures
        flux_span(flux, a, i) <= flux_span(flux, a, b),
    decreases b - i,
{
    if i < b {
        lemma_flux_span_mono(flux, a, i, b - 1);
    }
}

/// Whether the first two index marks bound a run of flux intervals.
pub open spec fn index_marks_bound_flux(flux: Seq<u32>, marks: Seq<usize>) -> bool {
    marks.len() >= 2 && marks[1] > marks[0] && marks[1] <= flux.len()
}

/// Ticks of the first revolution: the flux between the first two index
/// marks, else the difference of the first two index timestamps (28 bits),
/// else 0.
pub open spec fn revolution_delta_spec(flux: Seq<u32>, marks: Seq<usize>, ts: Seq<u32>) -> int {
    if index_marks_bound_flux(flux, marks) {
        flux_span(flux, marks[0] as int, marks[1] as int)
    } else if ts.len() >= 2 {
        (ts[1] - ts[0]) % 0x1000_0000
    } else {
        0
    }
}

/// Ticks of the first revolution of a read (see `revolution_delta_spec`).
pub fn revolution_index_delta(decoded: &DecodedGwFlux) -> (r: u32)
    requires
        index_marks_bound_flux(decoded.flux@, decoded.index_flux_indices@) ==> flux_span(
            decoded.flux@,
            decoded.index_flux_indices@[0] as int,
            decoded.index_flux_indices@[1] as int,
        ) <= u32::MAX,
    ensures
        r == revolution_delta_spec(
            decoded.flux@,
            decoded.index_flux_indices@,
            decoded.index_timestamps@,
        ),
{
    let marks = &decoded.index_flux_indices;
    let flux = &decoded.flux;
    let ts = &decoded.index_timestamps;
    if marks.len() >= 2 && marks[1] > marks[0] && marks[1] <= flux.len() {
        let a = marks[0];
        let b = marks[1];
        let mut sum: u32 = 0;
        let mut i: usize = a;
        while i < b
            invariant
                a <= i <= b,
                b <= flux@.len(),
                a == decoded.index_flux_indices@[0],
                b == decoded.index_flux_indices@[1],
                flux_span(flux@, a as int, b as int) <= u32::MAX,
                sum == flux_span(flux@, a as int, i as int),
            decreases b - i,
        {
            proof {
                lemma_flux_span_mono(flux@, a as int, (i + 1) as int, b as int);
            }
            sum = sum + flux[i];
            i = i + 1;
        }
        sum
    } else if ts.len() >= 2 {
        let t0 = ts[0];
        let t1 = ts[1];
        let d = t1.wrapping_sub(t0);
        let r = d & 0x0FFF_FFFFu32;
        assert(r == d % 0x1000_0000) by (bit_vector)
            requires
                r == d & 0x0FFF_FFFFu32,
        ;
        assert((t1 - t0) % 0x1000_0000 == d % 0x1000_0000) by {
            if t1 < t0 {
                assert(d == t1 - t0 + 0x1_0000_0000);
                assert((t1 - t0 + 16 * 0x1000_0000) % 0x1000_0000 == (t1 - t0) % 0x1000_0000)
                    by (nonlinear_arith);
            }
        }
        r
    } else {
        0
    }
}

/// The RPM of a revolution of `delta` ticks when it is plausible
/// (100..=800), rounded to nearest.
pub fn rpm_from_index_delta(delta: u32) -> (r: Option<u32>)
    ensures
        delta == 0 ==> r is None,
        delta > 0 ==> r == (if 100 <= rpm_round(delta) <= 800 {
            Some(rpm_round(delta) as u32)
        } else {
            None
        }),
{
    if delta == 0 {
        return None;
    }
    let rpm: u64 = (8_640_000_000u64 + delta as u64) / (2 * delta as u64);
    if 100 <= rpm && rpm <= 800 {
        Some(rpm as u32)
    } else {
        None
    }
}

/// Label of a density.
pub open spec fn density_label(hd: bool) -> Seq<char> {
    if hd {
        "1.44M HD"@
    } else {
        "720K DD"@
    }
}

/// Message after an analysis cycle: the sector count when sectors were
/// found (data read, or analysis with its alignment text), else why not.
pub open spec fn analysis_text(
    f: DriveFlags,
    count: nat,
    bitrate: u16,
    has_disk: bool,
    read_status: DriveReadStatus,
    alignment: Seq<char>,
) -> Seq<char> {
    if f.sectors_known {
        if f.mode == DisplayMode::ReadData {
            "read Data: "@ + dec(count) + " Sectors read (Diskette "@ + dec(bitrate as nat) + "k "@
                + density_label(f.density) + ")"@
        } else {
            "Analyze: "@ + dec(bitrate as nat) + "k ("@ + density_label(f.density) + ") - "@ + dec(
                count,
            ) + " real sectors (Alignment: "@ + alignment + "%)"@
        }
    } else if !has_disk || read_status == DriveReadStatus::NoDiskOrNoIndex {
        "Analyze: Track "@ + dec(f.track as nat) + " -> No Disk / No Index pulse"@
    } else {
        "Analyze: Track "@ + dec(f.track as nat) + " -> ? (No valid IDAM sector found)"@
    }
}

/// The state of a new worker: nothing connected, motor off, at track 0,
/// on the given unit (clamped to the bus), bus, step mode and preset, with
/// the preset's decoding profile and data rate.
pub open spec fn initial_flags(unit: u8, bus: BusType, step: StepMode, preset: PresetProfile) -> DriveFlags {
    let u = if unit > max_unit(bus) {
        max_unit(bus)
    } else {
        unit
    };
    DriveFlags {
        trk0: true,
        index: false,
        rpm: 0,
        rpm_mode: RpmMode::Auto,
        rpm_samples: 0,
        rpm_avg_tenths: 0,
        rpm_sw_samples: 0,
        track: 0,
        target_track: 0,
        head_select: HeadSelection::Head0,
        head: 0,
        motor_on: false,
        drive_select: false,
        drive_unit: u,
        unit_id: u,
        write_protect: true,
        write_protected: true,
        density: preset.spec_target_data_rate() == 500,
        bitrate: preset.spec_target_data_rate(),
        sector_count: 18,
        sectors_known: false,
        has_disk: true,
        connected: false,
        analyzing: false,
        verbose_mode: false,
        beep_enabled: false,
        mode: DisplayMode::Off,
        activity: HwActivity::WaitingPort,
        on_track_count: 0,
        off_track_count: 0,
        crc_err_count: 0,
        in_progress_pass: false,
        io_cycle: 0,
        read_status: DriveReadStatus::Good,
        disk_format: preset.spec_format_profile(),
        bus_type: bus,
        step_mode: step,
        preset,
    }
}

impl DriveState {
    /// A new worker's state (see `initial_flags`), with nothing read yet.
    pub fn new_worker(drive_unit: u8, bus: BusType, step: StepMode, preset: PresetProfile) -> (r: Self)
        ensures
            r.flags.tracks_in_range(),
            r.flags == initial_flags(drive_unit, bus, step, preset),
            r.log_msg@ == "Connecting to Greaseweazle..."@,
            r.rpm_display@ == "... RPM"@,
            r.off_track_details@ == "NONE (Perfect)"@,
            r.sectors@.len() == 0,
            r.last_pass_h0 is None,
            r.last_pass_h1 is None,
            r.sector_log@.len() == 0,
            r.sector_log_standard@.len() == 0,
            r.sector_log_verbose@.len() == 0,
    {
        let unit = clamp_drive_unit(bus, drive_unit);
        let rate = preset.target_data_rate();
        DriveState {
            flags: DriveFlags {
                trk0: true,
                index: false,
                rpm: 0,
                rpm_mode: RpmMode::Auto,
                rpm_samples: 0,
                rpm_avg_tenths: 0,
                rpm_sw_samples: 0,
                track: 0,
                target_track: 0,
                head_select: HeadSelection::Head0,
                head: 0,
                motor_on: false,
                drive_select: false,
                drive_unit: unit,
                unit_id: unit,
                write_protect: true,
                write_protected: true,
                density: rate == 500,
                bitrate: rate,
                sector_count: 18,
                sectors_known: false,
                has_disk: true,
                connected: false,
                analyzing: false,
                verbose_mode: false,
                beep_enabled: false,
                mode: DisplayMode::Off,
                activity: HwActivity::WaitingPort,
                on_track_count: 0,
                off_track_count: 0,
                crc_err_count: 0,
                in_progress_pass: false,
                io_cycle: 0,
                read_status: DriveReadStatus::Good,
                disk_format: preset.format_profile(),
                bus_type: bus,
                step_mode: step,
                preset,
            },
            log_msg: String::from_str("Connecting to Greaseweazle..."),
            rpm_display: String::from_str("... RPM"),
            off_track_details: String::from_str("NONE (Perfect)"),
            sectors: Vec::new(),
            last_pass_h0: None,
            last_pass_h1: None,
            sector_log: Vec::new(),
            sector_log_standard: Vec::new(),
            sector_log_verbose: Vec::new(),
        }
    }

    /// After the port `name` failed its first exchange (`bus_stage`: the bus
    /// setup rather than the info request): disconnected, waiting for a port.
    pub fn apply_port_failure(&mut self, name: &str, bus_stage: bool)
        ensures
            final(self).flags == (DriveFlags {
                connected: false,
                activity: HwActivity::WaitingPort,
                ..old(self).flags
            }),
            final(self).log_msg@ == "Port "@ + name@ + (if bus_stage {
                " bus error"@
            } else {
                " not responding to INFO"@
            }),
            final(self).rpm_display@ == old(self).rpm_display@,
            keeps(*old(self), *final(self), false, false),
    {
        self.flags = DriveFlags { connected: false, activity: HwActivity::WaitingPort, ..self.flags };
        let mut out = String::from_str("Port ");
        out.append(name);
        out.append(if bus_stage {
            " bus error"
        } else {
            " not responding to INFO"
        });
        self.log_msg = out;
    }

    /// After the controller answered on port `name`.
    pub fn apply_connected(&mut self, name: &str)
        ensures
            final(self).flags == (DriveFlags { connected: true, ..old(self).flags }),
            final(self).log_msg@ == "Connected to "@ + name@,
            final(self).rpm_display@ == old(self).rpm_display@,
            keeps(*old(self), *final(self), false, false),
    {
        self.flags = DriveFlags { connected: true, ..self.flags };
        let mut out = String::from_str("Connected to ");
        out.append(name);
        self.log_msg = out;
    }

    /// After the bus was enabled on port `name`.
    pub fn apply_bus_enabled(&mut self, name: &str)
        ensures
            final(self).flags == old(self).flags,
            final(self).log_msg@ == "Bus enabled ("@ + bus_name(old(self).flags.bus_type) + ") on "@
                + name@,
            final(self).rpm_display@ == old(self).rpm_display@,
            keeps(*old(self), *final(self), false, false),
    {
        let mut out = String::from_str("Bus enabled (");
        out.append(self.flags.bus_type.as_str());
        out.append(") on ");
        out.append(name);
        self.log_msg = out;
    }

    /// After the unit and head were selected at start-up.
    pub fn apply_drive_selected(&mut self)
        ensures
            final(self).flags == (DriveFlags { drive_select: true, has_disk: true, ..old(self).flags }),
            final(self).log_msg@ == "Drive "@ + dec(old(self).flags.drive_unit as nat) + " selected"@,
            final(self).rpm_display@ == old(self).rpm_display@,
            keeps(*old(self), *final(self), false, false),
    {
        self.flags = DriveFlags { drive_select: true, has_disk: true, ..self.flags };
        let mut out = String::from_str("Drive ");
        push_dec(&mut out, self.flags.drive_unit as u64);
        out.append(" selected");
        self.log_msg = out;
    }

    /// After the motor was started at start-up: the RPM is pending.
    pub fn apply_motor_started(&mut self)
        ensures
            final(self).flags == (DriveFlags { motor_on: true, ..old(self).flags }),
            final(self).log_msg@ == "Motor ON"@,
            final(self).rpm_display@ == "... RPM"@,
            keeps(*old(self), *final(self), false, false),
    {
        self.flags = DriveFlags { motor_on: true, ..self.flags };
        self.rpm_display = String::from_str("... RPM");
        self.log_msg = String::from_str("Motor ON");
    }

    /// After the start-up recalibration on port `name`: at track 0, idle.
    pub fn apply_ready(&mut self, name: &str, wp: Option<bool>)
        ensures
            final(self).flags == (DriveFlags {
                track: 0,
                trk0: true,
                activity: HwActivity::Idle,
                ..with_wp(old(self).flags, wp)
            }),
            final(self).log_msg@ == "Ready on "@ + name@ + " - Track 0"@,
            final(self).rpm_display@ == old(self).rpm_display@,
            keeps(*old(self), *final(self), false, false),
    {
        self.apply_wp(wp);
        self.flags = DriveFlags { track: 0, trk0: true, activity: HwActivity::Idle, ..self.flags };
        let mut out = String::from_str("Ready on ");
        out.append(name);
        out.append(" - Track 0");
        self.log_msg = out;
    }

    /// What the next worker cycle does: measure while a live measurement
    /// runs with the motor on, read while an analysis runs with the motor
    /// on, else rest.
    pub fn next_cycle(&self) -> (r: WorkerCycle)
        ensures
            r == (if self.flags.mode == DisplayMode::RpmMeasure && self.flags.motor_on {
                WorkerCycle::MeasureRpm
            } else if self.flags.analyzing && self.flags.motor_on {
                WorkerCycle::ReadTrack
            } else {
                WorkerCycle::Rest
            }),
    {
        if self.flags.mode == DisplayMode::RpmMeasure && self.flags.motor_on {
            WorkerCycle::MeasureRpm
        } else if self.flags.analyzing && self.flags.motor_on {
            WorkerCycle::ReadTrack
        } else {
            WorkerCycle::Rest
        }
    }

    /// At the start of a read cycle: the activity, one more cycle counted.
    pub fn begin_cycle(&mut self, measuring: bool)
        ensures
            final(self).flags == (DriveFlags {
                activity: if measuring {
                    HwActivity::MeasuringRpm
                } else {
                    HwActivity::ReadingAnalyzing
                },
                io_cycle: (if old(self).flags.io_cycle == u64::MAX {
                    0
                } else {
                    old(self).flags.io_cycle + 1
                }) as u64,
                ..old(self).flags
            }),
            final(self).log_msg@ == old(self).log_msg@,
            final(self).rpm_display@ == old(self).rpm_display@,
            keeps(*old(self), *final(self), false, false),
    {
        let activity = if measuring {
            HwActivity::MeasuringRpm
        } else {
            HwActivity::ReadingAnalyzing
        };
        let io_cycle = self.flags.io_cycle.wrapping_add(1);
        self.flags = DriveFlags { activity, io_cycle, ..self.flags };
    }

    /// The head the next analysis cycle reads when both heads alternate.
    pub fn next_analysis_head(&self) -> (r: Option<u8>)
        ensures
            self.flags.head_select == HeadSelection::Both ==> r == Some(
                if self.flags.head == 0 {
                    1u8
                } else {
                    0u8
                },
            ),
            self.flags.head_select != HeadSelection::Both ==> r is None,
    {
        if self.flags.head_select == HeadSelection::Both {
            Some(
                if self.flags.head == 0 {
                    1
                } else {
                    0
                },
            )
        } else {
            None
        }
    }

    /// After a transport error during a live measurement.
    pub fn apply_rpm_io_error(&mut self, error: &str)
        ensures
            final(self).flags == (DriveFlags { index: false, ..old(self).flags }),
            final(self).log_msg@ == "RPM Test I/O Error: "@ + error@,
            final(self).rpm_display@ == old(self).rpm_display@,
            keeps(*old(self), *final(self), false, false),
    {
        self.flags = DriveFlags { index: false, ..self.flags };
        let mut out = String::from_str("RPM Test I/O Error: ");
        out.append(error);
        self.log_msg = out;
    }

    /// Message after an analysis cycle (see `analysis_text`; the count is
    /// that of the sectors shown).
    pub fn apply_analysis_message(
        &mut self,
        bitrate: u16,
        has_disk: bool,
        read_status: DriveReadStatus,
        alignment: &str,
    )
        ensures
            final(self).flags == old(self).flags,
            final(self).log_msg@ == analysis_text(
                old(self).flags,
                old(self).sectors@.len(),
                bitrate,
                has_disk,
                read_status,
                alignment@,
            ),
            final(self).rpm_display@ == old(self).rpm_display@,
            keeps(*old(self), *final(self), false, false),
    {
        let f = self.flags;
        let count = self.sectors.len() as u64;
        let dens = if f.density {
            "1.44M HD"
        } else {
            "720K DD"
        };
        let mut out;
        if f.sectors_known {
            if f.mode == DisplayMode::ReadData {
                out = String::from_str("read Data: ");
                push_dec(&mut out, count);
                out.append(" Sectors read (Diskette ");
                push_dec(&mut out, bitrate as u64);
                out.append("k ");
                out.append(dens);
                out.append(")");
            } else {
                out = String::from_str("Analyze: ");
                push_dec(&mut out, bitrate as u64);
                out.append("k (");
                out.append(dens);
                out.append(") - ");
                push_dec(&mut out, count);
                out.append(" real sectors (Alignment: ");
                out.append(alignment);
                out.append("%)");
            }
        } else {
            out = String::from_str("Analyze: Track ");
            push_dec(&mut out, f.track as u64);
            if !has_disk || read_status == DriveReadStatus::NoDiskOrNoIndex {
                out.append(" -> No Disk / No Index pulse");
            } else {
                out.append(" -> ? (No valid IDAM sector found)");
            }
        }
        self.log_msg = out;
    }

    /// At the end of a worker cycle: with the motor off there is no index,
    /// and the drive shows as stopped unless it is seeking.
    pub fn settle_after_cycle(&mut self)
        ensures
            final(self).flags == (if !old(self).flags.motor_on {
                DriveFlags {
                    index: false,
                    activity: if old(self).flags.activity != HwActivity::Seeking {
                        HwActivity::Stopped
                    } else {
                        HwActivity::Seeking
                    },
                    ..old(self).flags
                }
            } else {
                old(self).flags
            }),
            final(self).log_msg@ == old(self).log_msg@,
            final(self).rpm_display@ == old(self).rpm_display@,
            keeps(*old(self), *final(self), false, false),
    {
        if !self.flags.motor_on {
            let activity = if self.flags.activity != HwActivity::Seeking {
                HwActivity::Stopped
            } else {
                HwActivity::Seeking
            };
            self.flags = DriveFlags { index: false, activity, ..self.flags };
        }
    }
}


/// The plain fields of a status before any worker set it up: drive 0 on
/// the PC bus, single step, the 3.5" HD preset with the auto-detecting
/// profile.
pub open spec fn default_flags() -> DriveFlags {
    DriveFlags {
        disk_format: DiskFormat::AutoDetect,
        ..initial_flags(0, BusType::IbmPc, StepMode::Single, PresetProfile::Pc35Hd)
    }
}

impl Default for DriveState {
    fn default() -> (r: Self)
        ensures
            r.flags == default_flags(),
            r.log_msg@ == "Connecting to Greaseweazle..."@,
            r.rpm_display@ == "... RPM"@,
            r.off_track_details@ == "NONE (Perfect)"@,
            r.sectors@.len() == 0,
            r.last_pass_h0 is None,
            r.last_pass_h1 is None,
            r.sector_log@.len() == 0,
            r.sector_log_standard@.len() == 0,
            r.sector_log_verbose@.len() == 0,
    {
        let mut s = DriveState::new_worker(0, BusType::IbmPc, StepMode::Single, PresetProfile::Pc35Hd);
        s.flags = DriveFlags { disk_format: DiskFormat::AutoDetect, ..s.flags };
        s
    }
}


/// Why the worker has no controller: the link was closed, the port would
/// not open (with the error's text), or no controller was found.
#[derive(Clone, Debug)]
pub enum LinkLoss {
    Disconnected,
    OpenError(String),
    Searching,
}

impl DriveState {
    /// Without a controller: disconnected, waiting for a port, no RPM and
    /// no index.
    pub fn apply_link_lost(&mut self, loss: &LinkLoss)
        ensures
            final(self).flags == (DriveFlags {
                connected: false,
                activity: HwActivity::WaitingPort,
                rpm: 0,
                index: false,
                ..old(self).flags
            }),
            final(self).log_msg@ == (match *loss {
                LinkLoss::Disconnected => "Disconnected"@,
                LinkLoss::OpenError(e) => "Port open error: "@ + e@,
                LinkLoss::Searching => "Searching for Greaseweazle..."@,
            }),
            final(self).rpm_display@ == old(self).rpm_display@,
            keeps(*old(self), *final(self), false, false),
    {
        let f = self.flags;
        self.flags = DriveFlags {
            connected: false,
            activity: HwActivity::WaitingPort,
            rpm: 0,
            index: false,
            ..f
        };
        self.log_msg = match loss {
            LinkLoss::Disconnected => String::from_str("Disconnected"),
            LinkLoss::OpenError(e) => {
                let mut out = String::from_str("Port open error: ");
                out.append(e.as_str());
                out
            },
            LinkLoss::Searching => String::from_str("Searching for Greaseweazle..."),
        };
    }

    /// Whether the worker idles a moment after a cycle: when neither an
    /// analysis nor a live measurement runs.
    pub fn idles_after_cycle(&self) -> (r: bool)
        ensures
            r == (!self.flags.analyzing && self.flags.mode != DisplayMode::RpmMeasure),
    {
        !self.flags.analyzing && self.flags.mode != DisplayMode::RpmMeasure
    }
}

} // verus!
