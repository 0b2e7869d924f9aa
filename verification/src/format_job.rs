//! Low-level format (with read-after-write verification) and DC erase
//! jobs: the decisions taken between the controller's write, erase, seek
//! and read-back operations. The caller performs each action and hands the
//! outcome back as an event.
use vstd::prelude::*;
use crate::control::{keeps, DriveFlags, DriveState, TrackRange};
use crate::drive::{DisplayMode, HwActivity};
use crate::heads::HeadSelection;
use crate::protocol::PresetProfile;

verus! {

/// What the job writes on each pass.
#[derive(Clone, Copy, Debug, PartialEq, Eq, Structural)]
pub enum JobKind {
    /// A formatted track, written as flux and optionally read back.
    Format,
    /// A DC erase of the track.
    Erase,
}

/// How far a job reaches: one cylinder stops at the first failed pass; a
/// whole range goes on past failed passes and returns to track 0 at the end.
#[derive(Clone, Copy, Debug, PartialEq, Eq, Structural)]
pub enum JobScope {
    Track,
    Disk,
}

/// Where the job stands: the job's own write-protect check, then for each
/// pass a write-protect check of its own, the seek, the write and (for a
/// verified format) the read-back; a range ends by returning to track 0.
#[derive(Clone, Copy, Debug, PartialEq, Eq, Structural)]
pub enum JobPhase {
    CheckWriteProtect,
    PassCheck,
    Positioning,
    Writing,
    Verifying,
    Homing,
    Finished,
}

/// Outcome of a flux write or erase command.
#[derive(Clone, Copy, Debug, PartialEq, Eq, Structural)]
pub enum WriteResult {
    Written,
    Protected,
    IoError,
}

/// What the caller reports back.
#[derive(Clone, Copy, Debug, PartialEq, Eq, Structural)]
pub enum FormatEvent {
    /// The write-protect pin was read.
    WriteProtect(bool),
    /// The seek and head selection asked for are done.
    Positioned,
    /// The write or erase asked for has ended.
    WriteDone(WriteResult),
    /// The read-back of the pass: sectors found on track, sectors expected,
    /// CRC errors and the read quality in percent.
    Verified { valid: u8, expected: u8, crc_errors: u8, quality_pct: u8 },
    /// The user stopped the job.
    Stop,
}

/// What the caller does next.
#[derive(Clone, Copy, Debug, PartialEq, Eq, Structural)]
pub enum FormatAction {
    QueryWriteProtect,
    /// The disk is write-protected: the job is refused.
    Reject,
    Seek { cyl: u8, head: u8 },
    WriteTrack { cyl: u8, head: u8, attempt: u8 },
    EraseTrack { cyl: u8, head: u8 },
    ReadBack { cyl: u8, head: u8 },
    Done { ok: bool },
}

/// A format or erase job and its progress counters.
#[derive(Clone, Copy, Debug, PartialEq, Eq, Structural)]
pub struct FormatJob {
    pub kind: JobKind,
    pub scope: JobScope,
    pub verify: bool,
    pub first: u8,
    pub last: u8,
    pub head_lo: u8,
    pub head_hi: u8,
    pub cyl: u8,
    pub head: u8,
    pub attempt: u8,
    pub phase: JobPhase,
    pub completed_passes: u16,
    pub verified_sectors: u8,
    pub expected_sectors: u8,
    pub crc_errors: u8,
    pub quality_pct: u8,
    pub verification_ok: bool,
    pub write_protected: bool,
    pub ok: bool,
}

/// Lowest and highest head of a selection.
pub open spec fn head_span(sel: HeadSelection) -> (u8, u8) {
    match sel {
        HeadSelection::Head0 => (0, 0),
        HeadSelection::Head1 => (1, 1),
        HeadSelection::Both => (0, 1),
    }
}

/// Cylinders of the job.
pub open spec fn track_count(j: FormatJob) -> int {
    if j.first <= j.last {
        j.last - j.first + 1
    } else {
        0
    }
}

/// Passes of the job: one per cylinder and head.
pub open spec fn total_passes(j: FormatJob) -> int {
    if j.head_lo == j.head_hi {
        track_count(j)
    } else {
        2 * track_count(j)
    }
}

/// Number of the current pass, counting from 0.
pub open spec fn pass_index(j: FormatJob) -> int {
    if j.head_lo == j.head_hi {
        j.cyl - j.first
    } else {
        2 * (j.cyl - j.first) + (j.head - j.head_lo)
    }
}

/// Writes tried per pass: three when a format is verified, else one.
pub open spec fn max_attempts(j: FormatJob) -> int {
    if j.kind == JobKind::Format && j.verify {
        3
    } else {
        1
    }
}

/// A read-back passes when every expected sector was found on track, no
/// CRC error was seen and the read quality is at least 90 percent.
pub open spec fn verify_ok(valid: u8, expected: u8, crc_errors: u8, quality_pct: u8) -> bool {
    valid >= expected && crc_errors == 0 && quality_pct >= 90
}

/// The passes in a pass phase are those of the range, and the completed
/// count is the number of passes before the current one.
pub open spec fn job_wf(j: FormatJob) -> bool {
    &&& j.head_lo <= j.head_hi <= 1
    &&& 0 <= j.attempt < max_attempts(j)
    &&& (j.phase == JobPhase::CheckWriteProtect ==> j.completed_passes == 0)
    &&& (j.phase == JobPhase::PassCheck || j.phase == JobPhase::Positioning || j.phase == JobPhase::Writing
        || j.phase == JobPhase::Verifying) ==> {
        &&& j.first <= j.cyl <= j.last
        &&& j.head_lo <= j.head <= j.head_hi
        &&& j.completed_passes == pass_index(j)
    }
    &&& (j.phase == JobPhase::Homing || j.phase == JobPhase::Finished) ==> j.completed_passes <= total_passes(j)
}

/// The cylinder and head of the pass after the current one, if any: the
/// heads of a cylinder in order, then the next cylinder.
pub open spec fn next_pass(j: FormatJob) -> Option<(u8, u8)> {
    if j.head < j.head_hi {
        Some((j.cyl, (j.head + 1) as u8))
    } else if j.cyl < j.last {
        Some(((j.cyl + 1) as u8, j.head_lo))
    } else {
        None
    }
}

/// The write action of the current pass.
pub open spec fn write_action(j: FormatJob) -> FormatAction {
    match j.kind {
        JobKind::Format => FormatAction::WriteTrack { cyl: j.cyl, head: j.head, attempt: j.attempt },
        JobKind::Erase => FormatAction::EraseTrack { cyl: j.cyl, head: j.head },
    }
}

/// The action the job waits on in its phase.
pub open spec fn pending_action(j: FormatJob) -> FormatAction {
    match j.phase {
        JobPhase::CheckWriteProtect => FormatAction::QueryWriteProtect,
        JobPhase::PassCheck => FormatAction::QueryWriteProtect,
        JobPhase::Positioning => FormatAction::Seek { cyl: j.cyl, head: j.head },
        JobPhase::Writing => write_action(j),
        JobPhase::Verifying => FormatAction::ReadBack { cyl: j.cyl, head: j.head },
        JobPhase::Homing => FormatAction::Seek { cyl: 0, head: j.head },
        JobPhase::Finished => FormatAction::Done { ok: j.ok },
    }
}

/// The job ended with the given outcome.
pub open spec fn finished(j: FormatJob, ok: bool) -> (FormatJob, FormatAction) {
    (FormatJob { phase: JobPhase::Finished, ok, ..j }, FormatAction::Done { ok })
}

/// After the last pass: a range returns to track 0, a cylinder is done.
pub open spec fn after_last_pass(j: FormatJob) -> (FormatJob, FormatAction) {
    if j.scope == JobScope::Disk {
        (FormatJob { phase: JobPhase::Homing, ..j }, FormatAction::Seek { cyl: 0, head: j.head })
    } else {
        finished(j, true)
    }
}

/// After a pass ended, well or not: a failed pass ends a one-cylinder job;
/// otherwise the pass counts as completed and the next pass, if any, begins
/// with its own write-protect check.
pub open spec fn after_pass(j: FormatJob, good: bool) -> (FormatJob, FormatAction) {
    if !good && j.scope == JobScope::Track {
        finished(j, false)
    } else {
        let k = FormatJob { completed_passes: (j.completed_passes + 1) as u16, attempt: 0, ..j };
        match next_pass(j) {
            Some((c, h)) => (
                FormatJob { cyl: c, head: h, phase: JobPhase::PassCheck, ..k },
                FormatAction::QueryWriteProtect,
            ),
            None => after_last_pass(k),
        }
    }
}

/// Another write of the same pass, if attempts remain; else the pass failed.
pub open spec fn retry_or_fail(j: FormatJob) -> (FormatJob, FormatAction) {
    if j.attempt + 1 < max_attempts(j) {
        let k = FormatJob { attempt: (j.attempt + 1) as u8, phase: JobPhase::Writing, ..j };
        (k, write_action(k))
    } else {
        after_pass(j, false)
    }
}

/// The next state and action of a job on an event. An event that does not
/// fit the phase changes nothing and repeats the pending action.
pub open spec fn format_step_spec(j: FormatJob, ev: FormatEvent) -> (FormatJob, FormatAction) {
    if j.phase == JobPhase::Finished {
        (j, FormatAction::Done { ok: j.ok })
    } else if ev == FormatEvent::Stop {
        finished(j, false)
    } else {
        match (j.phase, ev) {
            (JobPhase::CheckWriteProtect, FormatEvent::WriteProtect(wp)) => {
                if wp {
                    (
                        FormatJob { phase: JobPhase::Finished, ok: false, write_protected: true, ..j },
                        FormatAction::Reject,
                    )
                } else if track_count(j) > 0 {
                    (
                        FormatJob { phase: JobPhase::PassCheck, cyl: j.first, head: j.head_lo, attempt: 0, ..j },
                        FormatAction::QueryWriteProtect,
                    )
                } else {
                    after_last_pass(j)
                }
            },
            (JobPhase::PassCheck, FormatEvent::WriteProtect(wp)) => {
                if wp {
                    (
                        FormatJob { phase: JobPhase::Finished, ok: false, write_protected: true, ..j },
                        FormatAction::Reject,
                    )
                } else {
                    (FormatJob { phase: JobPhase::Positioning, ..j }, FormatAction::Seek { cyl: j.cyl, head: j.head })
                }
            },
            (JobPhase::Positioning, FormatEvent::Positioned) => {
                let k = FormatJob { phase: JobPhase::Writing, ..j };
                (k, write_action(k))
            },
            (JobPhase::Writing, FormatEvent::WriteDone(r)) => match r {
                WriteResult::Protected => finished(FormatJob { write_protected: true, ..j }, false),
                WriteResult::IoError => retry_or_fail(j),
                WriteResult::Written => {
                    if j.kind == JobKind::Format && j.verify {
                        (
                            FormatJob { phase: JobPhase::Verifying, ..j },
                            FormatAction::ReadBack { cyl: j.cyl, head: j.head },
                        )
                    } else {
                        after_pass(FormatJob { verification_ok: true, ..j }, true)
                    }
                },
            },
            (JobPhase::Verifying, FormatEvent::Verified { valid, expected, crc_errors, quality_pct }) => {
                let good = verify_ok(valid, expected, crc_errors, quality_pct);
                let k = FormatJob {
                    verified_sectors: valid,
                    expected_sectors: expected,
                    crc_errors,
                    quality_pct,
                    verification_ok: good,
                    ..j
                };
                if good {
                    after_pass(k, true)
                } else {
                    retry_or_fail(k)
                }
            },
            (JobPhase::Homing, FormatEvent::Positioned) => finished(j, true),
            _ => (j, pending_action(j)),
        }
    }
}

/// Law: a verified format writes each pass up to three times, for one
/// cylinder as for a whole range. A failed read-back after the first or
/// second write writes the same cylinder and head again with the next
/// attempt number; after the third write the pass is over (a one-cylinder
/// job then ends with a failure).
pub proof fn lemma_verified_format_rewrites(j: FormatJob, valid: u8, expected: u8, crc_errors: u8, quality_pct: u8)
    requires
        j.kind == JobKind::Format,
        j.verify,
        j.phase == JobPhase::Verifying,
        !(valid >= expected && crc_errors == 0 && quality_pct >= 90),
    ensures
        ({
            let r = format_step_spec(j, FormatEvent::Verified { valid, expected, crc_errors, quality_pct });
            &&& j.attempt < 2 ==> {
                &&& r.1 == FormatAction::WriteTrack { cyl: j.cyl, head: j.head, attempt: (j.attempt + 1) as u8 }
                &&& r.0.phase == JobPhase::Writing
                &&& r.0.cyl == j.cyl && r.0.head == j.head && r.0.attempt == j.attempt + 1
                &&& r.0.completed_passes == j.completed_passes
            }
            &&& j.attempt >= 2 ==> {
                &&& !(r.1 is WriteTrack)
                &&& j.scope == JobScope::Track ==> r.1 == FormatAction::Done { ok: false }
            }
        }),
{
}

/// Law: a failed write is tried again only by a verified format (up to three
/// writes per pass); an erase or an unverified format gets one write, and a
/// failed one ends the pass.
pub proof fn lemma_write_error_attempts(j: FormatJob)
    requires
        j.phase == JobPhase::Writing,
    ensures
        ({
            let r = format_step_spec(j, FormatEvent::WriteDone(WriteResult::IoError));
            &&& (j.kind == JobKind::Format && j.verify && j.attempt < 2) ==> {
                &&& r.1 == FormatAction::WriteTrack { cyl: j.cyl, head: j.head, attempt: (j.attempt + 1) as u8 }
                &&& r.0.phase == JobPhase::Writing
            }
            &&& (j.kind == JobKind::Erase || !j.verify) ==> !(r.1 is WriteTrack) && !(r.1 is EraseTrack)
            &&& ((j.kind == JobKind::Erase || !j.verify) && j.scope == JobScope::Track) ==> r.1
                == FormatAction::Done { ok: false }
        }),
{
}

/// Law: once a pass of a verified format is over (its read-back passed, or
/// its third write failed in a job over a range), the job moves on: to the
/// next head of the same cylinder, else to the first head of the next
/// cylinder, each pass starting with its own write-protect check; after the
/// last pass a range returns to track 0 and a one-cylinder job is done. A
/// range goes on past a failed pass; the completed count grows by one.
pub proof fn lemma_verified_format_moves_on(j: FormatJob, valid: u8, expected: u8, crc_errors: u8, quality_pct: u8)
    requires
        j.kind == JobKind::Format,
        j.verify,
        j.phase == JobPhase::Verifying,
        (valid >= expected && crc_errors == 0 && quality_pct >= 90) || (j.attempt >= 2 && j.scope == JobScope::Disk),
    ensures
        ({
            let r = format_step_spec(j, FormatEvent::Verified { valid, expected, crc_errors, quality_pct });
            &&& r.0.completed_passes == (j.completed_passes + 1) as u16
            &&& r.0.attempt == 0
            &&& r.0.verification_ok == (valid >= expected && crc_errors == 0 && quality_pct >= 90)
            &&& j.head < j.head_hi ==> {
                &&& r.0.cyl == j.cyl && r.0.head == j.head + 1
                &&& r.0.phase == JobPhase::PassCheck
                &&& r.1 == FormatAction::QueryWriteProtect
            }
            &&& (j.head >= j.head_hi && j.cyl < j.last) ==> {
                &&& r.0.cyl == j.cyl + 1 && r.0.head == j.head_lo
                &&& r.0.phase == JobPhase::PassCheck
                &&& r.1 == FormatAction::QueryWriteProtect
            }
            &&& (j.head >= j.head_hi && j.cyl >= j.last) ==> r.1 == (if j.scope == JobScope::Disk {
                FormatAction::Seek { cyl: 0, head: j.head }
            } else {
                FormatAction::Done { ok: true }
            })
        }),
{
}

impl FormatJob {
    /// A job over the cylinders of `range` and the heads of `heads`, about
    /// to read the write-protect pin.
    pub fn new(kind: JobKind, scope: JobScope, verify: bool, range: TrackRange, heads: HeadSelection) -> (j: Self)
        ensures
            j == (FormatJob {
                kind,
                scope,
                verify,
                first: range.start,
                last: range.end,
                head_lo: head_span(heads).0,
                head_hi: head_span(heads).1,
                cyl: range.start,
                head: head_span(heads).0,
                attempt: 0,
                phase: JobPhase::CheckWriteProtect,
                completed_passes: 0,
                verified_sectors: 0,
                expected_sectors: 0,
                crc_errors: 0,
                quality_pct: 0,
                verification_ok: false,
                write_protected: false,
                ok: false,
            }),
            job_wf(j),
    {
        let (lo, hi): (u8, u8) = match heads {
            HeadSelection::Head0 => (0, 0),
            HeadSelection::Head1 => (1, 1),
            HeadSelection::Both => (0, 1),
        };
        FormatJob {
            kind,
            scope,
            verify,
            first: range.start,
            last: range.end,
            head_lo: lo,
            head_hi: hi,
            cyl: range.start,
            head: lo,
            attempt: 0,
            phase: JobPhase::CheckWriteProtect,
            completed_passes: 0,
            verified_sectors: 0,
            expected_sectors: 0,
            crc_errors: 0,
            quality_pct: 0,
            verification_ok: false,
            write_protected: false,
            ok: false,
        }
    }

    /// Passes of the job: one per cylinder and head of the range.
    pub fn total_passes(&self) -> (r: u16)
        requires
            job_wf(*self),
        ensures
            r == total_passes(*self),
    {
        let tracks: u16 = if self.first <= self.last {
            (self.last - self.first) as u16 + 1
        } else {
            0
        };
        if self.head_lo == self.head_hi {
            tracks
        } else {
            2 * tracks
        }
    }

    /// The action the job waits on.
    pub fn pending_action(&self) -> (a: FormatAction)
        ensures
            a == pending_action(*self),
    {
        match self.phase {
            JobPhase::CheckWriteProtect => FormatAction::QueryWriteProtect,
            JobPhase::PassCheck => FormatAction::QueryWriteProtect,
            JobPhase::Positioning => FormatAction::Seek { cyl: self.cyl, head: self.head },
            JobPhase::Writing => write_action_exec(self),
            JobPhase::Verifying => FormatAction::ReadBack { cyl: self.cyl, head: self.head },
            JobPhase::Homing => FormatAction::Seek { cyl: 0, head: self.head },
            JobPhase::Finished => FormatAction::Done { ok: self.ok },
        }
    }
}

fn write_action_exec(j: &FormatJob) -> (a: FormatAction)
    ensures
        a == write_action(*j),
{
    match j.kind {
        JobKind::Format => FormatAction::WriteTrack { cyl: j.cyl, head: j.head, attempt: j.attempt },
        JobKind::Erase => FormatAction::EraseTrack { cyl: j.cyl, head: j.head },
    }
}

fn finished_exec(j: FormatJob, ok: bool) -> (r: (FormatJob, FormatAction))
    ensures
        r == finished(j, ok),
{
    (FormatJob { phase: JobPhase::Finished, ok, ..j }, FormatAction::Done { ok })
}

fn after_last_pass_exec(j: FormatJob) -> (r: (FormatJob, FormatAction))
    ensures
        r == after_last_pass(j),
{
    if j.scope == JobScope::Disk {
        (FormatJob { phase: JobPhase::Homing, ..j }, FormatAction::Seek { cyl: 0, head: j.head })
    } else {
        finished_exec(j, true)
    }
}

fn after_pass_exec(j: FormatJob, good: bool) -> (r: (FormatJob, FormatAction))
    requires
        job_wf(j),
        j.phase == JobPhase::Writing || j.phase == JobPhase::Verifying,
    ensures
        r == after_pass(j, good),
        job_wf(r.0),
{
    if !good && j.scope == JobScope::Track {
        finished_exec(j, false)
    } else {
        assert(j.completed_passes < total_passes(j));
        let k = FormatJob { completed_passes: j.completed_passes + 1, attempt: 0, ..j };
        if j.head < j.head_hi {
            let h: u8 = j.head + 1;
            (FormatJob { cyl: j.cyl, head: h, phase: JobPhase::PassCheck, ..k }, FormatAction::QueryWriteProtect)
        } else if j.cyl < j.last {
            let c: u8 = j.cyl + 1;
            (FormatJob { cyl: c, head: j.head_lo, phase: JobPhase::PassCheck, ..k }, FormatAction::QueryWriteProtect)
        } else {
            after_last_pass_exec(k)
        }
    }
}

fn retry_or_fail_exec(j: FormatJob) -> (r: (FormatJob, FormatAction))
    requires
        job_wf(j),
        j.phase == JobPhase::Writing || j.phase == JobPhase::Verifying,
    ensures
        r == retry_or_fail(j),
        job_wf(r.0),
{
    let max: u8 = if j.kind == JobKind::Format && j.verify { 3 } else { 1 };
    if j.attempt + 1 < max {
        let k = FormatJob { attempt: j.attempt + 1, phase: JobPhase::Writing, ..j };
        let a = write_action_exec(&k);
        (k, a)
    } else {
        after_pass_exec(j, false)
    }
}

/// Takes one decision of a format or erase job: the next state and the
/// action to perform for an event.
pub fn format_step(job: &FormatJob, ev: FormatEvent) -> (r: (FormatJob, FormatAction))
    requires
        job_wf(*job),
    ensures
        r == format_step_spec(*job, ev),
        job_wf(r.0),
{
    let j = *job;
    if j.phase == JobPhase::Finished {
        return (j, FormatAction::Done { ok: j.ok });
    }
    if let FormatEvent::Stop = ev {
        return finished_exec(j, false);
    }
    match (j.phase, ev) {
        (JobPhase::CheckWriteProtect, FormatEvent::WriteProtect(wp)) => {
            if wp {
                (FormatJob { phase: JobPhase::Finished, ok: false, write_protected: true, ..j }, FormatAction::Reject)
            } else if j.first <= j.last {
                (
                    FormatJob { phase: JobPhase::PassCheck, cyl: j.first, head: j.head_lo, attempt: 0, ..j },
                    FormatAction::QueryWriteProtect,
                )
            } else {
                after_last_pass_exec(j)
            }
        },
        (JobPhase::PassCheck, FormatEvent::WriteProtect(wp)) => {
            if wp {
                (FormatJob { phase: JobPhase::Finished, ok: false, write_protected: true, ..j }, FormatAction::Reject)
            } else {
                (FormatJob { phase: JobPhase::Positioning, ..j }, FormatAction::Seek { cyl: j.cyl, head: j.head })
            }
        },
        (JobPhase::Positioning, FormatEvent::Positioned) => {
            let k = FormatJob { phase: JobPhase::Writing, ..j };
            let a = write_action_exec(&k);
            (k, a)
        },
        (JobPhase::Writing, FormatEvent::WriteDone(r)) => match r {
            WriteResult::Protected => finished_exec(FormatJob { write_protected: true, ..j }, false),
            WriteResult::IoError => retry_or_fail_exec(j),
            WriteResult::Written => {
                if j.kind == JobKind::Format && j.verify {
                    (FormatJob { phase: JobPhase::Verifying, ..j }, FormatAction::ReadBack { cyl: j.cyl, head: j.head })
                } else {
                    after_pass_exec(FormatJob { verification_ok: true, ..j }, true)
                }
            },
        },
        (JobPhase::Verifying, FormatEvent::Verified { valid, expected, crc_errors, quality_pct }) => {
            let good = valid >= expected && crc_errors == 0 && quality_pct >= 90;
            let k = FormatJob {
                verified_sectors: valid,
                expected_sectors: expected,
                crc_errors,
                quality_pct,
                verification_ok: good,
                ..j
            };
            if good {
                after_pass_exec(k, true)
            } else {
                retry_or_fail_exec(k)
            }
        },
        (JobPhase::Homing, FormatEvent::Positioned) => finished_exec(j, true),
        _ => {
            let a = j.pending_action();
            (j, a)
        },
    }
}

/// Flux ticks of a DC erase: 1.1 revolutions at 72 MHz, 13,200,000 ticks
/// for a 360 RPM preset and 15,840,000 otherwise.
pub fn erase_ticks(preset: PresetProfile) -> (t: u32)
    ensures
        t == (if preset.spec_target_rpm() == 360 { 13_200_000u32 } else { 15_840_000u32 }),
{
    if preset.target_rpm_whole() == 360 {
        13_200_000
    } else {
        15_840_000
    }
}

impl DriveState {
    /// A format or erase job begins: analysis stops and the display and
    /// activity follow the job's kind.
    pub fn begin_job(&mut self, kind: JobKind)
        ensures
            final(self).flags == (match kind {
                JobKind::Format => DriveFlags {
                    analyzing: false,
                    mode: DisplayMode::Format,
                    activity: HwActivity::Formatting,
                    ..old(self).flags
                },
                JobKind::Erase => DriveFlags {
                    analyzing: false,
                    mode: DisplayMode::Erase,
                    activity: HwActivity::Erasing,
                    ..old(self).flags
                },
            }),
            final(self).log_msg@ == old(self).log_msg@,
            final(self).rpm_display@ == old(self).rpm_display@,
            keeps(*old(self), *final(self), false, false),
    {
        match kind {
            JobKind::Format => {
                self.flags = DriveFlags {
                    analyzing: false,
                    mode: DisplayMode::Format,
                    activity: HwActivity::Formatting,
                    ..self.flags
                };
            },
            JobKind::Erase => {
                self.flags = DriveFlags {
                    analyzing: false,
                    mode: DisplayMode::Erase,
                    activity: HwActivity::Erasing,
                    ..self.flags
                };
            },
        }
    }

    /// The write-protect pin was read (`None`: the read failed and the
    /// known state stands); when the disk is writable and the motor was off,
    /// the caller has spun the drive up.
    pub fn apply_job_write_protect(&mut self, wp: Option<bool>, spun_up: bool)
        ensures
            ({
                let f0 = match wp {
                    Some(w) => DriveFlags { write_protect: w, write_protected: w, ..old(self).flags },
                    None => old(self).flags,
                };
                final(self).flags == (if spun_up {
                    DriveFlags { motor_on: true, drive_select: true, has_disk: true, ..f0 }
                } else {
                    f0
                })
            }),
            final(self).log_msg@ == old(self).log_msg@,
            final(self).rpm_display@ == old(self).rpm_display@,
            keeps(*old(self), *final(self), false, false),
    {
        if let Some(w) = wp {
            self.flags = DriveFlags { write_protect: w, write_protected: w, ..self.flags };
        }
        if spun_up {
            self.flags = DriveFlags { motor_on: true, drive_select: true, has_disk: true, ..self.flags };
        }
    }

    /// The carriage reached a job's cylinder and the head was selected.
    pub fn apply_job_seek(&mut self, cyl: u8, head: u8)
        ensures
            final(self).flags == (DriveFlags {
                track: cyl,
                target_track: cyl,
                trk0: cyl == 0,
                head,
                ..old(self).flags
            }),
            final(self).log_msg@ == old(self).log_msg@,
            final(self).rpm_display@ == old(self).rpm_display@,
            keeps(*old(self), *final(self), false, false),
    {
        self.flags = DriveFlags { track: cyl, target_track: cyl, trk0: cyl == 0, head, ..self.flags };
    }

    /// A write or erase met a write-protected disk.
    pub fn apply_job_protected(&mut self)
        ensures
            final(self).flags == (DriveFlags { write_protect: true, write_protected: true, ..old(self).flags }),
            final(self).log_msg@ == old(self).log_msg@,
            final(self).rpm_display@ == old(self).rpm_display@,
            keeps(*old(self), *final(self), false, false),
    {
        self.flags = DriveFlags { write_protect: true, write_protected: true, ..self.flags };
    }
}

} // verus!
