//! Drive timing constants, display and activity states, seek timeouts, the
//! Gap0 plausibility window and the rolling RPM sampler.
use vstd::prelude::*;
use vstd::string::*;
use std::collections::VecDeque;
use std::time::Duration;
use crate::fmt::{dec, push_dec};

verus! {

/// Electronic head switch settle time for SIDE1 selection (ms).
pub const HEAD_SWITCH_SETTLE_MS: u64 = 1;

/// Stepper driver wake-up delay of 26-pin FFC drives (ms).
pub const STEPPER_WAKEUP_DELAY_MS: u64 = 15;

/// Head settle time after stepping (ms).
pub const HEAD_SETTLE_TIME_MS: u64 = 30;

/// Head settle time during format and erase (ms).
pub const FORMAT_HEAD_SETTLE_MS: u64 = 100;

/// Head switch settle time during format and erase (ms).
pub const FORMAT_HEAD_SWITCH_SETTLE_MS: u64 = 50;

/// Nominal serial read timeout (ms).
pub const DEFAULT_SERIAL_TIMEOUT_MS: u64 = 1000;

/// Motor spin-up delay before reading flux (ms).
pub const SPIN_UP_DELAY_MS: u64 = 350;

/// Delay between synchronisation steps (ms).
pub const SYNC_DELAY_MS: u64 = 30;

/// Dwell time at track 0 during recalibration (ms).
pub const DWELL_TIME_TRK0_MS: u64 = 60;

/// Fixed timeout of a seek to track 0 (ms).
pub const SEEK_TRK0_TIMEOUT_MS: u64 = 3000;

/// Settling time after recalibration, one revolution (ms).
pub const RECALIBRATE_WAIT_MS: u64 = 200;

/// What the main panel shows.
#[derive(Clone, Copy, Debug, PartialEq, Eq, Structural)]
pub enum DisplayMode {
    Off,
    Analyze,
    ReadData,
    RpmMeasure,
    Format,
    Erase,
}

/// Source of the RPM reading.
#[derive(Clone, Copy, Debug, PartialEq, Eq, Structural)]
pub enum RpmMode {
    Auto,
    HwIndex,
    SwSync,
    Dual,
}

impl Default for RpmMode {
    fn default() -> (r: Self)
        ensures
            r == RpmMode::Auto,
    {
        RpmMode::Auto
    }
}

impl RpmMode {
    pub open spec fn spec_cycle(self) -> Self {
        match self {
            RpmMode::Auto => RpmMode::HwIndex,
            RpmMode::HwIndex => RpmMode::SwSync,
            RpmMode::SwSync => RpmMode::Dual,
            RpmMode::Dual => RpmMode::Auto,
        }
    }

    /// Next RPM source: Auto, HW Index, SW Sync, Dual, then Auto again.
    pub fn cycle(self) -> (r: Self)
        ensures
            r == self.spec_cycle(),
    {
        match self {
            RpmMode::Auto => RpmMode::HwIndex,
            RpmMode::HwIndex => RpmMode::SwSync,
            RpmMode::SwSync => RpmMode::Dual,
            RpmMode::Dual => RpmMode::Auto,
        }
    }

    /// Display name of the RPM source.
    pub fn as_str(&self) -> (r: &'static str)
        ensures
            r@ == (match *self {
                RpmMode::Auto => "Auto"@,
                RpmMode::HwIndex => "HW Index"@,
                RpmMode::SwSync => "SW Sync"@,
                RpmMode::Dual => "Dual"@,
            }),
    {
        match self {
            RpmMode::Auto => "Auto",
            RpmMode::HwIndex => "HW Index",
            RpmMode::SwSync => "SW Sync",
            RpmMode::Dual => "Dual",
        }
    }
}

/// Cycling the RPM source four times comes back to the start.
pub proof fn lemma_rpm_mode_cycle_period(m: RpmMode)
    ensures
        m.spec_cycle().spec_cycle().spec_cycle().spec_cycle() == m,
        m.spec_cycle() != m,
{
}

/// What the hardware worker is doing.
#[derive(Clone, Copy, Debug, PartialEq, Eq, Structural)]
pub enum HwActivity {
    WaitingPort,
    Stopped,
    Seeking,
    ReadingAnalyzing,
    MeasuringRpm,
    Formatting,
    Erasing,
    Idle,
}

/// Outcome of a flux read.
#[derive(Clone, Copy, Debug, PartialEq, Eq, Structural)]
pub enum DriveReadStatus {
    Good,
    NoDiskOrNoIndex,
    IoError,
    Aborted,
}

impl Default for DriveReadStatus {
    fn default() -> (r: Self)
        ensures
            r == DriveReadStatus::Good,
    {
        DriveReadStatus::Good
    }
}

/// A sector shown in the status panel.
#[derive(Clone, Copy, Debug, PartialEq, Eq, Structural)]
pub struct SectorInfo {
    pub track: u8,
    pub sec_id: u8,
    pub size_code: u8,
    pub status_code: u8,
    pub crc_ok: bool,
}

/// The duration `Duration::from_millis` makes of a count of milliseconds.
pub uninterp spec fn millis_duration(ms: u64) -> Duration;

/// Calls `Duration::from_millis`. Its result depends on the count alone;
/// the contract names it and says nothing more of it.
#[verifier::external_body]
pub(crate) fn duration_from_millis(ms: u64) -> (d: Duration)
    ensures
        d == millis_duration(ms),
{
    Duration::from_millis(ms)
}

/// Seek timeout: 1200 ms plus 25 ms per track of distance.
pub fn calculate_seek_timeout_ms(current_track: u8, target_track: u8) -> (r: u64)
    ensures
        r == 1200 + 25 * (if target_track >= current_track {
            target_track - current_track
        } else {
            current_track - target_track
        }),
{
    let distance: u64 = if target_track >= current_track {
        (target_track - current_track) as u64
    } else {
        (current_track - target_track) as u64
    };
    1200 + distance * 25
}

/// Seek timeout as a duration (see `calculate_seek_timeout_ms`).
pub fn calculate_seek_timeout(current_track: u8, target_track: u8) -> (d: Duration)
    ensures
        d == millis_duration(
            (1200 + 25 * (if target_track >= current_track {
                target_track - current_track
            } else {
                current_track - target_track
            })) as u64,
        ),
{
    duration_from_millis(calculate_seek_timeout_ms(current_track, target_track))
}

/// Nominal Gap0 (µs) at a bit rate outside the three known ones: 1440 µs
/// scaled from 500 kbps.
pub open spec fn gap0_nominal(bitrate: u16) -> int {
    720000int / (if bitrate == 0 {
        1
    } else {
        bitrate as int
    })
}

/// The plausible Gap0 window (µs) at a bit rate.
pub open spec fn gap0_window(bitrate: u16) -> (int, int) {
    if bitrate == 500 {
        (500, 3000)
    } else if bitrate == 250 {
        (1000, 6000)
    } else if bitrate == 300 {
        (800, 5000)
    } else {
        let n = gap0_nominal(bitrate);
        (n - n * 55 / 100, 2 * n)
    }
}

/// Keeps a measured Gap0 only when it lies in the window of the bit rate.
pub fn get_valid_gap0(bitrate: u16, raw_gap0_us: u32) -> (r: Option<u32>)
    ensures
        r == (if gap0_window(bitrate).0 <= raw_gap0_us <= gap0_window(bitrate).1 {
            Some(raw_gap0_us)
        } else {
            None
        }),
{
    let (min_gap, max_gap): (u32, u32) = if bitrate == 500 {
        (500, 3000)
    } else if bitrate == 250 {
        (1000, 6000)
    } else if bitrate == 300 {
        (800, 5000)
    } else {
        let b: u32 = if bitrate == 0 {
            1
        } else {
            bitrate as u32
        };
        let nominal: u32 = 720000 / b;
        assert(nominal <= 720000) by (nonlinear_arith)
            requires
                nominal == 720000u32 / b,
                b >= 1,
        ;
        let low = nominal - nominal * 55 / 100;
        (low, nominal + nominal * 100 / 100)
    };
    if min_gap <= raw_gap0_us && raw_gap0_us <= max_gap {
        Some(raw_gap0_us)
    } else {
        None
    }
}

/// Text of the Gap0 field: `Gap0:<µs>µs`, or `Gap0:----` without a value.
pub open spec fn gap0_text(gap0_us: Option<u32>) -> Seq<char> {
    match gap0_us {
        Some(g) => "Gap0:"@ + dec(g as nat) + "µs"@,
        None => "Gap0:----"@,
    }
}

/// Formats the Gap0 field (see `gap0_text`).
pub fn format_gap0_field(gap0_us: Option<u32>) -> (r: String)
    ensures
        r@ == gap0_text(gap0_us),
{
    match gap0_us {
        Some(g) => {
            let mut out = String::from_str("Gap0:");
            push_dec(&mut out, g as u64);
            out.append("µs");
            out
        },
        None => String::from_str("Gap0:----"),
    }
}

/// Sum of the samples.
pub open spec fn sample_sum(s: Seq<u32>) -> int
    decreases s.len(),
{
    if s.len() == 0 {
        0
    } else {
        sample_sum(s.drop_last()) + s.last()
    }
}

/// Rolling window of the last RPM readings.
pub struct RpmSampler {
    samples: VecDeque<u32>,
    max_samples: usize,
}

impl RpmSampler {
    /// The readings in the window, oldest first.
    pub closed spec fn window(&self) -> Seq<u32> {
        self.samples@
    }

    /// Size of the window.
    pub closed spec fn capacity(&self) -> usize {
        self.max_samples
    }

    /// An empty window holding up to `max_samples` readings.
    pub fn new(max_samples: usize) -> (r: Self)
        ensures
            r.window() == Seq::<u32>::empty(),
            r.capacity() == max_samples,
    {
        RpmSampler { samples: VecDeque::with_capacity(max_samples), max_samples }
    }

    /// Adds a reading, dropping the oldest when the window is full.
    pub fn add_sample(&mut self, rpm: u32)
        ensures
            final(self).capacity() == old(self).capacity(),
            final(self).window() == (if old(self).window().len() >= old(self).capacity() && old(
                self,
            ).window().len() > 0 {
                old(self).window().drop_first()
            } else {
                old(self).window()
            }).push(rpm),
    {
        if self.samples.len() >= self.max_samples {
            self.samples.pop_front();
        }
        self.samples.push_back(rpm);
    }

    /// Whether the sum and the count of the window fit in 32 bits (what
    /// `average` needs).
    pub fn average_fits(&self) -> (r: bool)
        ensures
            r == (sample_sum(self.window()) <= u32::MAX && self.window().len() <= u32::MAX),
    {
        let n = self.samples.len();
        if n > 0xFFFF_FFFF {
            return false;
        }
        let mut sum: u64 = 0;
        let mut i: usize = 0;
        while i < n
            invariant
                i <= n,
                n == self.samples@.len(),
                sum == sample_sum(self.samples@.subrange(0, i as int)),
                sum <= u32::MAX,
            decreases n - i,
        {
            assert(self.samples@.subrange(0, i + 1).drop_last() =~= self.samples@.subrange(0, i as int));
            proof {
                lemma_sample_sum_prefix(self.samples@, (i + 1) as nat);
            }
            sum = sum + self.samples[i] as u64;
            if sum > 0xFFFF_FFFF {
                return false;
            }
            i = i + 1;
        }
        assert(self.samples@.subrange(0, n as int) =~= self.samples@);
        true
    }

    /// Integer mean of the window (0 when empty); the sum and the count must
    /// fit in 32 bits.
    pub fn average(&self) -> (r: u32)
        requires
            sample_sum(self.window()) <= u32::MAX,
            self.window().len() <= u32::MAX,
        ensures
            self.window().len() == 0 ==> r == 0,
            self.window().len() > 0 ==> r == sample_sum(self.window()) / (self.window().len() as int),
    {
        let n = self.samples.len();
        if n == 0 {
            return 0;
        }
        let mut sum: u32 = 0;
        let mut i: usize = 0;
        while i < n
            invariant
                i <= n,
                n == self.samples@.len(),
                sample_sum(self.samples@) <= u32::MAX,
                sum == sample_sum(self.samples@.subrange(0, i as int)),
            decreases n - i,
        {
            assert(self.samples@.subrange(0, i + 1).drop_last() =~= self.samples@.subrange(0, i as int));
            proof {
                lemma_sample_sum_prefix(self.samples@, (i + 1) as nat);
            }
            sum = sum + self.samples[i];
            i = i + 1;
        }
        assert(self.samples@.subrange(0, n as int) =~= self.samples@);
        let count: u32 = n as u32;
        sum / count
    }

    /// Empties the window.
    pub fn clear(&mut self)
        ensures
            final(self).window() == Seq::<u32>::empty(),
            final(self).capacity() == old(self).capacity(),
    {
        self.samples.clear();
    }
}

proof fn lemma_sample_sum_prefix(s: Seq<u32>, k: nat)
    requires
        k <= s.len(),
    ensures
        sample_sum(s.subrange(0, k as int)) <= sample_sum(s),
    decreases s.len() - k,
{
    if k < s.len() {
        assert(s.drop_last().subrange(0, k as int) =~= s.subrange(0, k as int));
        lemma_sample_sum_prefix(s.drop_last(), k);
    } else {
        assert(s.subrange(0, k as int) =~= s);
    }
}

} // verus!
