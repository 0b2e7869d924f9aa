//! Greaseweazle flux stream codec: the v4 byte format carrying flux
//! intervals (72 MHz sample ticks), index marks and space packets, and the
//! conversion of MFM cell streams into flux intervals with write
//! pre-compensation.
use vstd::prelude::*;

verus! {

/// Write pre-compensation shift, in 72 MHz ticks (125 ns).
pub const WRITE_PRECOMP_TICKS: u32 = 9;

/// Write pre-compensation applies to cylinders above this one.
pub const WRITE_PRECOMP_MIN_CYL: u8 = 40;

/// Largest interval sent as a one- or two-byte flux code (exclusive bound).
pub const GW_SHORT_CODE_LIMIT: u32 = 1525;

/// 28-bit value carried in the low 7 bits of four bytes, each shifted left by one.
pub open spec fn gw_28bit(b0: u8, b1: u8, b2: u8, b3: u8) -> u32 {
    ((((b0 as u32) >> 1u32) & 0x7Fu32) | ((((b1 as u32) >> 1u32) & 0x7Fu32) << 7u32) | ((((b2 as u32)
        >> 1u32) & 0x7Fu32) << 14u32) | ((((b3 as u32) >> 1u32) & 0x7Fu32) << 21u32)) as u32
}

/// Decoder state: intervals so far, index timestamps, the interval count at
/// each index mark, and the ticks accumulated for the pending interval.
pub struct GwDecodeModel {
    pub flux: Seq<u32>,
    pub index_timestamps: Seq<u32>,
    pub index_flux_indices: Seq<usize>,
    pub ticks: int,
}

pub open spec fn gw_push_flux(st: GwDecodeModel, v: int) -> GwDecodeModel {
    GwDecodeModel { flux: st.flux.push(((st.ticks + v) % 0x1_0000_0000) as u32), ticks: 0, ..st }
}

/// The decoder run from byte position `idx` to the end of the stream (or an
/// end code / truncated packet).
pub open spec fn gw_decode_from(dat: Seq<u8>, idx: int, st: GwDecodeModel) -> GwDecodeModel
    decreases dat.len() - idx,
{
    if idx < 0 || idx >= dat.len() {
        st
    } else {
        let i = dat[idx];
        let idx1 = idx + 1;
        if i == 0 || i == 255 {
            if idx1 >= dat.len() {
                st
            } else {
                let op = dat[idx1];
                let idx2 = idx1 + 1;
                if op == 0 {
                    st
                } else if op == 1 {
                    if idx2 + 4 <= dat.len() {
                        let ts = gw_28bit(dat[idx2], dat[idx2 + 1], dat[idx2 + 2], dat[idx2 + 3]);
                        gw_decode_from(
                            dat,
                            idx2 + 4,
                            GwDecodeModel {
                                index_timestamps: st.index_timestamps.push(ts),
                                index_flux_indices: st.index_flux_indices.push(st.flux.len() as usize),
                                ..st
                            },
                        )
                    } else {
                        st
                    }
                } else if op == 2 || op == 3 {
                    if idx2 + 4 <= dat.len() {
                        let v = gw_28bit(dat[idx2], dat[idx2 + 1], dat[idx2 + 2], dat[idx2 + 3]);
                        gw_decode_from(dat, idx2 + 4, GwDecodeModel { ticks: st.ticks + v, ..st })
                    } else {
                        st
                    }
                } else if i == 255 {
                    gw_decode_from(dat, idx2, gw_push_flux(st, 250 + 5 * 255 + op - 1))
                } else {
                    gw_decode_from(dat, idx2, st)
                }
            }
        } else if i < 250 {
            gw_decode_from(dat, idx1, gw_push_flux(st, i as int))
        } else {
            if idx1 >= dat.len() {
                st
            } else {
                gw_decode_from(dat, idx1 + 1, gw_push_flux(st, 250 + (i - 250) * 255 + dat[idx1] - 1))
            }
        }
    }
}

pub open spec fn gw_initial_model() -> GwDecodeModel {
    GwDecodeModel {
        flux: Seq::empty(),
        index_timestamps: Seq::empty(),
        index_flux_indices: Seq::empty(),
        ticks: 0,
    }
}

/// The decoded content of a whole stream.
pub open spec fn gw_decode_spec(dat: Seq<u8>) -> GwDecodeModel {
    gw_decode_from(dat, 0, gw_initial_model())
}

/// Decoded flux intervals, index timestamps and the flux position of each index.
pub struct DecodedGwFlux {
    pub flux: Vec<u32>,
    pub index_timestamps: Vec<u32>,
    pub index_flux_indices: Vec<usize>,
}

fn read_28bit(dat: &[u8], idx: usize) -> (v: u32)
    requires
        idx + 4 <= dat@.len(),
    ensures
        v == gw_28bit(dat@[idx as int], dat@[idx + 1], dat@[idx + 2], dat@[idx + 3]),
        v < 0x1000_0000,
{
    let b0 = dat[idx] as u32;
    let b1 = dat[idx + 1] as u32;
    let b2 = dat[idx + 2] as u32;
    let b3 = dat[idx + 3] as u32;
    let v = ((b0 >> 1u32) & 0x7Fu32) | (((b1 >> 1u32) & 0x7Fu32) << 7u32) | (((b2 >> 1u32) & 0x7Fu32)
        << 14u32) | (((b3 >> 1u32) & 0x7Fu32) << 21u32);
    assert(v < 0x1000_0000) by (bit_vector)
        requires
            v == ((b0 >> 1u32) & 0x7Fu32) | (((b1 >> 1u32) & 0x7Fu32) << 7u32) | (((b2 >> 1u32)
                & 0x7Fu32) << 14u32) | (((b3 >> 1u32) & 0x7Fu32) << 21u32),
    ;
    v
}

/// Adds ticks to the pending interval, keeping its low 32 bits (the part
/// an interval holds).
fn add_ticks(ticks: u32, v: u32, Ghost(gt): Ghost<int>) -> (r: u32)
    requires
        gt >= 0,
        ticks == gt % 0x1_0000_0000,
    ensures
        r == (gt + v) % 0x1_0000_0000,
{
    let s: u64 = ticks as u64 + v as u64;
    proof {
        vstd::arithmetic::div_mod::lemma_add_mod_noop(gt, v as int, 0x1_0000_0000);
        assert((v as int) % 0x1_0000_0000 == v);
    }
    (s % 0x1_0000_0000) as u32
}

/// Decodes a Greaseweazle v4 flux stream into intervals and index marks.
pub fn decode_gw_flux_with_index(dat: &[u8]) -> (r: DecodedGwFlux)
    ensures
        r.flux@ == gw_decode_spec(dat@).flux,
        r.index_timestamps@ == gw_decode_spec(dat@).index_timestamps,
        r.index_flux_indices@ == gw_decode_spec(dat@).index_flux_indices,
{
    let mut flux: Vec<u32> = Vec::new();
    let mut index_timestamps: Vec<u32> = Vec::new();
    let mut index_flux_indices: Vec<usize> = Vec::new();
    let mut ticks: u32 = 0;
    let ghost mut gt: int = 0;
    let mut idx: usize = 0;
    let mut done = false;
    let len = dat.len();
    while !done && idx < len
        invariant
            len == dat@.len(),
            idx <= len,
            gt >= 0,
            ticks == gt % 0x1_0000_0000,
            gw_decode_spec(dat@) == (if done {
                GwDecodeModel {
                    flux: flux@,
                    index_timestamps: index_timestamps@,
                    index_flux_indices: index_flux_indices@,
                    ticks: gt,
                }
            } else {
                gw_decode_from(
                    dat@,
                    idx as int,
                    GwDecodeModel {
                        flux: flux@,
                        index_timestamps: index_timestamps@,
                        index_flux_indices: index_flux_indices@,
                        ticks: gt,
                    },
                )
            }),
        decreases len - idx,
    {
        let ghost st = GwDecodeModel {
            flux: flux@,
            index_timestamps: index_timestamps@,
            index_flux_indices: index_flux_indices@,
            ticks: gt,
        };
        let ghost start = idx as int;
        let i = dat[idx];
        idx = idx + 1;
        if i == 0 || i == 255 {
            if idx >= len {
                done = true;
            } else {
                let opcode = dat[idx];
                idx = idx + 1;
                if opcode == 0 {
                    done = true;
                } else if opcode == 1 {
                    if len - idx >= 4 {
                        let ts = read_28bit(dat, idx);
                        idx = idx + 4;
                        index_timestamps.push(ts);
                        index_flux_indices.push(flux.len());
                    } else {
                        done = true;
                    }
                } else if opcode == 2 || opcode == 3 {
                    if len - idx >= 4 {
                        let v = read_28bit(dat, idx);
                        idx = idx + 4;
                        ticks = add_ticks(ticks, v, Ghost(gt));
                        proof {
                            gt = gt + v;
                        }
                    } else {
                        done = true;
                    }
                } else if i == 255 {
                    let val: u32 = 250 + (255 - 250) * 255 + opcode as u32 - 1;
                    ticks = add_ticks(ticks, val, Ghost(gt));
                    flux.push(ticks);
                    ticks = 0;
                    proof {
                        gt = 0;
                    }
                }
            }
        } else if i < 250 {
            ticks = add_ticks(ticks, i as u32, Ghost(gt));
            flux.push(ticks);
            ticks = 0;
            proof {
                gt = 0;
            }
        } else {
            if idx >= len {
                done = true;
            } else {
                let next_byte = dat[idx] as u32;
                idx = idx + 1;
                let val: u32 = 250 + (i as u32 - 250) * 255 + next_byte - 1;
                ticks = add_ticks(ticks, val, Ghost(gt));
                flux.push(ticks);
                ticks = 0;
                proof {
                    gt = 0;
                }
            }
        }
    }
    DecodedGwFlux { flux, index_timestamps, index_flux_indices }
}

/// Decodes a Greaseweazle v4 flux stream into flux intervals only.
pub fn decode_gw_flux(dat: &[u8]) -> (r: Vec<u32>)
    ensures
        r@ == gw_decode_spec(dat@).flux,
{
    decode_gw_flux_with_index(dat).flux
}

/// Bytes emitted for one flux interval: nothing for 0, one byte below 250,
/// a two-byte code below 1525, otherwise a 28-bit space packet.
pub open spec fn gw_encode_one(t: u32) -> Seq<u8> {
    if t == 0 {
        Seq::empty()
    } else if t < 250 {
        seq![t as u8]
    } else if t < 1525 {
        seq![(250 + (t - 250) / 255) as u8, ((t - 250) % 255 + 1) as u8]
    } else {
        let v = t & 0x0FFF_FFFFu32;
        seq![
            0x00u8,
            0x02u8,
            ((v & 0x7Fu32) << 1u32) as u8,
            (((v >> 7u32) & 0x7Fu32) << 1u32) as u8,
            (((v >> 14u32) & 0x7Fu32) << 1u32) as u8,
            (((v >> 21u32) & 0x7Fu32) << 1u32) as u8,
        ]
    }
}

/// Bytes emitted for a run of intervals, without the end code.
pub open spec fn gw_encode_all(ts: Seq<u32>) -> Seq<u8>
    decreases ts.len(),
{
    if ts.len() == 0 {
        Seq::empty()
    } else {
        gw_encode_all(ts.drop_last()) + gw_encode_one(ts.last())
    }
}

/// A complete stream: the encoded intervals followed by the end code `[0, 0]`.
pub open spec fn gw_encode_stream(ts: Seq<u32>) -> Seq<u8> {
    gw_encode_all(ts) + seq![0x00u8, 0x00u8]
}

/// Base bit-cell length in 72 MHz ticks for a data rate in kbps.
pub open spec fn spec_base_tick_clock(bitrate_kbps: u16) -> u32 {
    if bitrate_kbps == 500 {
        72
    } else if bitrate_kbps == 300 {
        120
    } else {
        144
    }
}

/// Scan state while converting cells to intervals: intervals found (in
/// cells), cells since the last transition, and whether no transition has
/// been seen yet.
pub struct TransitionScan {
    pub cells: Seq<nat>,
    pub count: nat,
    pub first: bool,
}

pub open spec fn scan_transitions(bits: Seq<bool>) -> TransitionScan
    decreases bits.len(),
{
    if bits.len() == 0 {
        TransitionScan { cells: Seq::empty(), count: 0, first: true }
    } else {
        let p = scan_transitions(bits.drop_last());
        let c = p.count + 1;
        if bits.last() {
            if p.first {
                TransitionScan { cells: p.cells, count: 0, first: false }
            } else {
                TransitionScan { cells: p.cells.push(c), count: 0, first: false }
            }
        } else {
            TransitionScan { cells: p.cells, count: c, first: p.first }
        }
    }
}

/// Intervals between successive transitions (the part before the first
/// transition is dropped; the tail after the last one is kept when at least
/// one interval exists), in ticks.
pub open spec fn raw_flux_ticks(bits: Seq<bool>, unit: u32) -> Seq<u32> {
    let s = scan_transitions(bits);
    let base = Seq::new(s.cells.len(), |i: int| (s.cells[i] * unit) as u32);
    if s.count > 0 && base.len() > 0 {
        base.push((s.count * unit) as u32)
    } else {
        base
    }
}

pub open spec fn near(v: u32, target: u32) -> bool {
    target - 5 <= v && v <= target + 5
}

pub open spec fn sat_add(a: u32, b: u32) -> u32 {
    if a + b > u32::MAX {
        u32::MAX
    } else {
        (a + b) as u32
    }
}

pub open spec fn sat_sub(a: u32, b: u32) -> u32 {
    if a < b {
        0
    } else {
        (a - b) as u32
    }
}

/// Pre-compensation of the transition between intervals `i` and `i + 1`:
/// a 2T interval followed by a wide one moves the transition early, a wide
/// interval followed by a 2T one moves it late.
pub open spec fn precomp_step(v: Seq<u32>, i: int, unit: u32) -> Seq<u32> {
    let t2 = (2 * unit) as u32;
    let t3 = (3 * unit) as u32;
    let curr = v[i];
    let next = v[i + 1];
    if near(curr, t2) && next >= t3 - 5 {
        v.update(i, sat_sub(curr, WRITE_PRECOMP_TICKS)).update(i + 1, sat_add(next, WRITE_PRECOMP_TICKS))
    } else if curr >= t3 - 5 && near(next, t2) {
        v.update(i, sat_add(curr, WRITE_PRECOMP_TICKS)).update(i + 1, sat_sub(next, WRITE_PRECOMP_TICKS))
    } else {
        v
    }
}

/// The first `k` pre-compensation steps applied left to right.
pub open spec fn precomp_upto(v: Seq<u32>, k: int, unit: u32) -> Seq<u32>
    decreases k,
{
    if k <= 0 {
        v
    } else {
        precomp_step(precomp_upto(v, k - 1, unit), k - 1, unit)
    }
}

/// The flux intervals synthesised from a cell stream for a cylinder.
pub open spec fn flux_ticks_spec(bits: Seq<bool>, bitrate_kbps: u16, cyl: u8) -> Seq<u32> {
    let unit = spec_base_tick_clock(bitrate_kbps);
    let raw = raw_flux_ticks(bits, unit);
    if cyl > WRITE_PRECOMP_MIN_CYL && raw.len() >= 2 {
        precomp_upto(raw, raw.len() - 1, unit)
    } else {
        raw
    }
}

/// Translates MFM cells into 72 MHz flux intervals with write pre-compensation.
pub struct FluxSynthesizer;

proof fn lemma_precomp_len(v: Seq<u32>, k: int, unit: u32)
    requires
        0 <= k < v.len(),
    ensures
        precomp_upto(v, k, unit).len() == v.len(),
    decreases k,
{
    if k > 0 {
        lemma_precomp_len(v, k - 1, unit);
    }
}

proof fn lemma_scan_bound(bits: Seq<bool>)
    ensures
        scan_transitions(bits).count <= bits.len(),
        forall|i: int|
            0 <= i < scan_transitions(bits).cells.len() ==> #[trigger] scan_transitions(bits).cells[i]
                <= bits.len(),
        scan_transitions(bits).cells.len() <= bits.len(),
        scan_transitions(bits).first ==> scan_transitions(bits).cells.len() == 0,
    decreases bits.len(),
{
    if bits.len() > 0 {
        lemma_scan_bound(bits.drop_last());
    }
}

/// Every interval of the cell stream, in ticks, fits in 32 bits, and no run
/// of cells reaches 2^32 - 1 cells.
pub open spec fn flux_fits(bits: Seq<bool>, unit: u32) -> bool {
    let s = scan_transitions(bits);
    &&& forall|k: int| 0 <= k < s.cells.len() ==> #[trigger] s.cells[k] * unit <= u32::MAX
    &&& (s.count > 0 && s.cells.len() > 0 ==> s.count * unit <= u32::MAX)
    &&& forall|i: int| 0 <= i < bits.len() ==> #[trigger] scan_transitions(bits.subrange(0, i)).count < u32::MAX
}

/// The intervals found in a prefix of the stream are the first intervals of
/// the whole stream.
proof fn lemma_scan_prefix(bits: Seq<bool>, i: int, j: int)
    requires
        0 <= i <= j <= bits.len(),
    ensures
        scan_transitions(bits.subrange(0, i)).cells.len() <= scan_transitions(bits.subrange(0, j)).cells.len(),
        forall|k: int|
            0 <= k < scan_transitions(bits.subrange(0, i)).cells.len() ==> scan_transitions(bits.subrange(0, j)).cells[k]
                == #[trigger] scan_transitions(bits.subrange(0, i)).cells[k],
    decreases j - i,
{
    if i < j {
        lemma_scan_prefix(bits, i, j - 1);
        assert(bits.subrange(0, j).drop_last() =~= bits.subrange(0, j - 1));
    }
}

/// A stream of at most 14 million cells has no interval too long at any
/// data rate.
pub proof fn lemma_flux_fits_short(bits: Seq<bool>, unit: u32)
    requires
        bits.len() <= 14_000_000,
        unit <= 144,
    ensures
        flux_fits(bits, unit),
{
    let s = scan_transitions(bits);
    lemma_scan_bound(bits);
    assert forall|k: int| 0 <= k < s.cells.len() implies #[trigger] s.cells[k] * unit <= u32::MAX by {
        let c = s.cells[k];
        assert(c * unit <= 14_000_000 * 144) by (nonlinear_arith)
            requires
                c <= 14_000_000,
                unit <= 144,
        ;
    }
    assert(s.count * unit <= 14_000_000 * 144) by (nonlinear_arith)
        requires
            s.count <= 14_000_000,
            unit <= 144,
    ;
    assert forall|i: int| 0 <= i < bits.len() implies #[trigger] scan_transitions(bits.subrange(0, i)).count
        < u32::MAX by {
        lemma_scan_bound(bits.subrange(0, i));
    }
}

impl FluxSynthesizer {
    /// Base bit-cell length at 72 MHz for a data rate in kbps.
    pub fn base_tick_clock(bitrate_kbps: u16) -> (r: u32)
        ensures
            r == spec_base_tick_clock(bitrate_kbps),
    {
        match bitrate_kbps {
            500 => 72,
            300 => 120,
            250 => 144,
            _ => 144,
        }
    }

    /// Converts MFM cells into flux intervals (ticks), pre-compensating
    /// transitions on cylinders above 40.
    pub fn bits_to_flux_ticks(bits: &[bool], bitrate_kbps: u16, cyl: u8, out_flux: &mut Vec<u32>)
        requires
            flux_fits(bits@, spec_base_tick_clock(bitrate_kbps)),
        ensures
            final(out_flux)@ == flux_ticks_spec(bits@, bitrate_kbps, cyl),
    {
        out_flux.clear();
        let tick_unit = Self::base_tick_clock(bitrate_kbps);
        let mut count: u32 = 0;
        let mut first_transition = true;
        let mut i: usize = 0;
        let n = bits.len();
        let ghost unit = tick_unit;
        while i < n
            invariant
                n == bits@.len(),
                flux_fits(bits@, unit),
                unit == spec_base_tick_clock(bitrate_kbps),
                i <= n,
                tick_unit == unit,
                unit <= 144,
                count == scan_transitions(bits@.subrange(0, i as int)).count,
                first_transition == scan_transitions(bits@.subrange(0, i as int)).first,
                out_flux@ == Seq::new(
                    scan_transitions(bits@.subrange(0, i as int)).cells.len(),
                    |k: int| (scan_transitions(bits@.subrange(0, i as int)).cells[k] * unit) as u32,
                ),
            decreases n - i,
        {
            proof {
                lemma_scan_bound(bits@.subrange(0, i as int));
                assert(bits@.subrange(0, i + 1).drop_last() =~= bits@.subrange(0, i as int));
                assert(scan_transitions(bits@.subrange(0, i as int)).count < u32::MAX);
            }
            count = count + 1;
            if bits[i] {
                if first_transition {
                    first_transition = false;
                } else {
                    proof {
                        let p1 = scan_transitions(bits@.subrange(0, i + 1));
                        lemma_scan_prefix(bits@, i + 1, n as int);
                        assert(bits@.subrange(0, n as int) =~= bits@);
                        let k = p1.cells.len() - 1;
                        assert(p1.cells[k] == count);
                        assert(scan_transitions(bits@).cells[k] == p1.cells[k]);
                        assert(scan_transitions(bits@).cells[k] * unit <= u32::MAX);
                    }
                    out_flux.push(count * tick_unit);
                }
                count = 0;
            }
            i = i + 1;
            proof {
                let sc = scan_transitions(bits@.subrange(0, i as int));
                assert(out_flux@ =~= Seq::new(sc.cells.len(), |k: int| (sc.cells[k] * unit) as u32));
            }
        }
        assert(bits@.subrange(0, n as int) =~= bits@);
        proof {
            lemma_scan_bound(bits@);
        }
        if count > 0 && out_flux.len() > 0 {
            out_flux.push(count * tick_unit);
        }
        let ghost raw = out_flux@;
        assert(raw == raw_flux_ticks(bits@, unit));
        if cyl > WRITE_PRECOMP_MIN_CYL && out_flux.len() >= 2 {
            let t2_nominal: u32 = 2 * tick_unit;
            let t3_nominal: u32 = 3 * tick_unit;
            let precomp = WRITE_PRECOMP_TICKS;
            let len = out_flux.len();
            let mut j: usize = 0;
            while j < len - 1
                invariant
                    len == raw.len(),
                    len >= 2,
                    j <= len - 1,
                    t2_nominal == 2 * unit,
                    t3_nominal == 3 * unit,
                    unit == spec_base_tick_clock(bitrate_kbps),
                    precomp == WRITE_PRECOMP_TICKS,
                    out_flux@ == precomp_upto(raw, j as int, unit),
                decreases len - 1 - j,
            {
                proof {
                    lemma_precomp_len(raw, j as int, unit);
                }
                let curr = out_flux[j];
                let next = out_flux[j + 1];
                let is_curr_2t = curr >= t2_nominal - 5 && curr <= t2_nominal + 5;
                let is_next_2t = next >= t2_nominal - 5 && next <= t2_nominal + 5;
                let is_curr_wide = curr >= t3_nominal - 5;
                let is_next_wide = next >= t3_nominal - 5;
                if is_curr_2t && is_next_wide {
                    out_flux.set(j, curr.saturating_sub(precomp));
                    out_flux.set(j + 1, next.saturating_add(precomp));
                } else if is_curr_wide && is_next_2t {
                    out_flux.set(j, curr.saturating_add(precomp));
                    out_flux.set(j + 1, next.saturating_sub(precomp));
                }
                j = j + 1;
                proof {
                    assert(out_flux@ =~= precomp_upto(raw, j as int, unit));
                }
            }
        }
    }

    /// Encodes flux intervals into the Greaseweazle v4 byte stream, ending
    /// with the end code `[0x00, 0x00]`.
    pub fn flux_ticks_to_gw_bytes(flux_ticks: &[u32], out_bytes: &mut Vec<u8>)
        ensures
            final(out_bytes)@ == gw_encode_stream(flux_ticks@),
    {
        out_bytes.clear();
        let mut i: usize = 0;
        while i < flux_ticks.len()
            invariant
                i <= flux_ticks@.len(),
                out_bytes@ == gw_encode_all(flux_ticks@.subrange(0, i as int)),
            decreases flux_ticks@.len() - i,
        {
            let ticks = flux_ticks[i];
            let ghost before = out_bytes@;
            if ticks == 0 {
            } else if ticks < 250 {
                out_bytes.push(ticks as u8);
            } else if ticks < 250 + 5 * 255 {
                let delta = ticks - 250;
                let high: u8 = 250 + (delta / 255) as u8;
                let low: u8 = ((delta % 255) + 1) as u8;
                out_bytes.push(high);
                out_bytes.push(low);
            } else {
                let val_28 = ticks & 0x0FFF_FFFFu32;
                let b0 = ((val_28 & 0x7Fu32) << 1u32) as u8;
                let b1 = (((val_28 >> 7u32) & 0x7Fu32) << 1u32) as u8;
                let b2 = (((val_28 >> 14u32) & 0x7Fu32) << 1u32) as u8;
                let b3 = (((val_28 >> 21u32) & 0x7Fu32) << 1u32) as u8;
                out_bytes.push(0x00);
                out_bytes.push(0x02);
                out_bytes.push(b0);
                out_bytes.push(b1);
                out_bytes.push(b2);
                out_bytes.push(b3);
            }
            proof {
                assert(flux_ticks@.subrange(0, i + 1).drop_last() =~= flux_ticks@.subrange(0, i as int));
                assert(out_bytes@ =~= before + gw_encode_one(ticks));
            }
            i = i + 1;
        }
        assert(flux_ticks@.subrange(0, flux_ticks@.len() as int) =~= flux_ticks@);
        out_bytes.push(0x00);
        out_bytes.push(0x00);
        assert(out_bytes@ =~= gw_encode_stream(flux_ticks@));
    }
}

proof fn lemma_encode_all_concat(a: Seq<u32>, b: Seq<u32>)
    ensures
        gw_encode_all(a + b) == gw_encode_all(a) + gw_encode_all(b),
    decreases b.len(),
{
    if b.len() == 0 {
        assert(a + b =~= a);
        assert(gw_encode_all(a) + gw_encode_all(b) =~= gw_encode_all(a));
    } else {
        assert((a + b).drop_last() =~= a + b.drop_last());
        lemma_encode_all_concat(a, b.drop_last());
        assert(gw_encode_all(a + b) =~= gw_encode_all(a) + gw_encode_all(b));
    }
}

proof fn lemma_decode_one_token(dat: Seq<u8>, off: int, st: GwDecodeModel, t: u32)
    requires
        0 < t < GW_SHORT_CODE_LIMIT,
        0 <= off,
        off + gw_encode_one(t).len() <= dat.len(),
        dat.subrange(off, off + gw_encode_one(t).len()) == gw_encode_one(t),
    ensures
        gw_decode_from(dat, off, st) == gw_decode_from(
            dat,
            off + gw_encode_one(t).len(),
            gw_push_flux(st, t as int),
        ),
{
    let e = gw_encode_one(t);
    assert(dat[off] == e[0]);
    if t >= 250 {
        assert(dat[off + 1] == e[1]);
        let q = (t - 250) / 255;
        let r = (t - 250) % 255;
        assert(q <= 4);
        assert(250 + q * 255 + r == t);
    }
}

/// A decoder state holding only intervals.
pub open spec fn flux_only_model(f: Seq<u32>) -> GwDecodeModel {
    GwDecodeModel { flux: f, index_timestamps: Seq::empty(), index_flux_indices: Seq::empty(), ticks: 0 }
}

proof fn lemma_decode_from_offset(ts: Seq<u32>, k: int)
    requires
        0 <= k <= ts.len(),
        forall|i: int| 0 <= i < ts.len() ==> 0 < #[trigger] ts[i] < GW_SHORT_CODE_LIMIT,
    ensures
        gw_decode_from(
            gw_encode_stream(ts),
            gw_encode_all(ts.subrange(0, k)).len() as int,
            flux_only_model(ts.subrange(0, k)),
        ) == flux_only_model(ts),
    decreases ts.len() - k,
{
    let dat = gw_encode_stream(ts);
    if k == ts.len() {
        assert(ts.subrange(0, k) =~= ts);
        let off = gw_encode_all(ts).len() as int;
        assert(dat[off] == 0);
        assert(dat[off + 1] == 0);
    } else {
        let pre = ts.subrange(0, k);
        let pre1 = ts.subrange(0, k + 1);
        let rest = ts.subrange(k + 1, ts.len() as int);
        assert(pre1.drop_last() =~= pre);
        assert(ts =~= pre1 + rest);
        lemma_encode_all_concat(pre1, rest);
        let off = gw_encode_all(pre).len() as int;
        let e = gw_encode_one(ts[k]);
        assert(gw_encode_all(pre1) == gw_encode_all(pre) + e);
        assert(dat == gw_encode_all(pre) + e + gw_encode_all(rest) + seq![0x00u8, 0x00u8]);
        assert(dat.subrange(off, off + e.len()) =~= e);
        let st = flux_only_model(pre);
        lemma_decode_one_token(dat, off, st, ts[k]);
        assert(gw_push_flux(st, ts[k] as int).flux =~= pre1);
        lemma_decode_from_offset(ts, k + 1);
    }
}

/// Law: decoding an encoded interval list gives back the intervals, for
/// intervals between 1 and 1524 ticks (longer ones are sent as space packets,
/// which the decoder folds into the next interval; zero intervals are not sent).
pub proof fn lemma_gw_flux_roundtrip(ts: Seq<u32>)
    requires
        forall|i: int| 0 <= i < ts.len() ==> 0 < #[trigger] ts[i] < GW_SHORT_CODE_LIMIT,
    ensures
        gw_decode_spec(gw_encode_stream(ts)).flux == ts,
        gw_decode_spec(gw_encode_stream(ts)).index_timestamps.len() == 0,
        gw_decode_spec(gw_encode_stream(ts)).index_flux_indices.len() == 0,
{
    lemma_decode_from_offset(ts, 0);
    assert(ts.subrange(0, 0) =~= Seq::<u32>::empty());
    assert(gw_initial_model() == flux_only_model(ts.subrange(0, 0)));
}


/// Pulses shorter than this many ticks (1.5 µs) are noise at low density.
pub const NOISE_PULSE_TICKS: u32 = 108;

/// Merging of short pulses over the first `k` intervals: the intervals
/// emitted so far and the ticks still accumulating.
pub open spec fn merge_prefix(flux: Seq<u32>, k: nat, min: int) -> (Seq<int>, int)
    decreases k,
{
    if k == 0 {
        (Seq::empty(), 0)
    } else {
        let (out, acc) = merge_prefix(flux, (k - 1) as nat, min);
        let a = acc + flux[k - 1];
        if a >= min {
            (out.push(a), 0)
        } else {
            (out, a)
        }
    }
}

/// Intervals with pulses shorter than `min` merged into the next ones; a
/// short tail is added to the last interval (or kept alone).
pub open spec fn merge_short_spec(flux: Seq<u32>, min: int) -> Seq<int> {
    let (out, acc) = merge_prefix(flux, flux.len(), min);
    if acc > 0 {
        if out.len() > 0 {
            out.update(out.len() - 1, out.last() + acc)
        } else {
            out.push(acc)
        }
    } else {
        out
    }
}

proof fn lemma_merge_prefix_bounds(flux: Seq<u32>, k: nat, min: int)
    requires
        k <= flux.len(),
        min >= 1,
    ensures
        0 <= merge_prefix(flux, k, min).1 < min,
        forall|j: int| 0 <= j < merge_prefix(flux, k, min).0.len() ==> #[trigger] merge_prefix(flux, k, min).0[j] >= min,
    decreases k,
{
    if k > 0 {
        lemma_merge_prefix_bounds(flux, (k - 1) as nat, min);
    }
}

/// Merges noise pulses shorter than `min_ticks` into the following interval
/// (see `merge_short_spec`); every merged interval must fit in 32 bits.
pub fn merge_short_pulses(flux: &[u32], min_ticks: u32) -> (r: Vec<u32>)
    requires
        min_ticks >= 1,
        forall|j: int| 0 <= j < merge_short_spec(flux@, min_ticks as int).len() ==> #[trigger] merge_short_spec(flux@, min_ticks as int)[j] <= u32::MAX,
        forall|k: int| 0 <= k < flux@.len() ==> merge_prefix(flux@, k as nat, min_ticks as int).1 + #[trigger] flux@[k] <= u32::MAX,
    ensures
        r@.len() == merge_short_spec(flux@, min_ticks as int).len(),
        forall|j: int| 0 <= j < r@.len() ==> #[trigger] r@[j] as int == merge_short_spec(flux@, min_ticks as int)[j],
{
    let mut out: Vec<u32> = Vec::new();
    let mut acc: u32 = 0;
    let mut k: usize = 0;
    while k < flux.len()
        invariant
            k <= flux@.len(),
            min_ticks >= 1,
            forall|i: int| 0 <= i < flux@.len() ==> merge_prefix(flux@, i as nat, min_ticks as int).1 + #[trigger] flux@[i] <= u32::MAX,
            out@.len() == merge_prefix(flux@, k as nat, min_ticks as int).0.len(),
            forall|j: int| 0 <= j < out@.len() ==> #[trigger] out@[j] as int == merge_prefix(flux@, k as nat, min_ticks as int).0[j],
            acc as int == merge_prefix(flux@, k as nat, min_ticks as int).1,
        decreases flux@.len() - k,
    {
        assert(merge_prefix(flux@, k as nat, min_ticks as int).1 + flux@[k as int] <= u32::MAX);
        acc = acc + flux[k];
        if acc >= min_ticks {
            out.push(acc);
            acc = 0;
        }
        k = k + 1;
    }
    proof {
        lemma_merge_prefix_bounds(flux@, flux@.len(), min_ticks as int);
    }
    if acc > 0 {
        let n = out.len();
        if n > 0 {
            let last = out[n - 1];
            assert(merge_short_spec(flux@, min_ticks as int)[n - 1] <= u32::MAX);
            out.set(n - 1, last + acc);
        } else {
            out.push(acc);
        }
    }
    out
}
} // verus!
