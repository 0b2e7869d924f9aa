//! Alignment statistics of a pass: sectors on and off the sought track,
//! CRC errors, the cylinder most sectors came from, the off-track summary,
//! and the combined counts of the two heads.
use vstd::prelude::*;
use vstd::string::*;
use crate::fmt::{dec, dec02, join, push_dec, push_dec02};
use crate::heads::DiagnosticPass;
use crate::sectors::DecodedSector;

verus! {

/// Number of sectors read good on the target track.
pub open spec fn on_track_count(s: Seq<DecodedSector>, target: u8) -> nat
    decreases s.len(),
{
    if s.len() == 0 {
        0
    } else {
        on_track_count(s.drop_last(), target) + if s.last().cyl == target && s.last().crc_ok { 1nat } else { 0nat }
    }
}

/// Number of sectors from another cylinder than the target.
pub open spec fn off_track_count(s: Seq<DecodedSector>, target: u8) -> nat
    decreases s.len(),
{
    if s.len() == 0 {
        0
    } else {
        off_track_count(s.drop_last(), target) + if s.last().cyl != target { 1nat } else { 0nat }
    }
}

/// Number of sectors with a bad CRC.
pub open spec fn crc_error_count(s: Seq<DecodedSector>) -> nat
    decreases s.len(),
{
    if s.len() == 0 {
        0
    } else {
        crc_error_count(s.drop_last()) + if !s.last().crc_ok { 1nat } else { 0nat }
    }
}

/// Number of sectors from cylinder `c`.
pub open spec fn cyl_count(s: Seq<DecodedSector>, c: int) -> nat
    decreases s.len(),
{
    if s.len() == 0 {
        0
    } else {
        cyl_count(s.drop_last(), c) + if s.last().cyl == c { 1nat } else { 0nat }
    }
}

/// Counts of a pass against the sought track.
#[derive(Clone, Copy, Debug, PartialEq, Eq, Structural)]
pub struct TrackCounts {
    pub on_track: u32,
    pub off_track: u32,
    pub crc_errors: u32,
}

/// Counts the sectors good on the target track, from other cylinders, and
/// with a bad CRC.
pub fn count_track_sectors(sectors: &[DecodedSector], target: u8) -> (c: TrackCounts)
    requires
        sectors@.len() <= u32::MAX,
    ensures
        c.on_track as nat == on_track_count(sectors@, target),
        c.off_track as nat == off_track_count(sectors@, target),
        c.crc_errors as nat == crc_error_count(sectors@),
{
    let mut on: u32 = 0;
    let mut off: u32 = 0;
    let mut crc: u32 = 0;
    let mut k: usize = 0;
    while k < sectors.len()
        invariant
            k <= sectors@.len(),
            sectors@.len() <= u32::MAX,
            on as nat == on_track_count(sectors@.subrange(0, k as int), target),
            off as nat == off_track_count(sectors@.subrange(0, k as int), target),
            crc as nat == crc_error_count(sectors@.subrange(0, k as int)),
            on <= k,
            off <= k,
            crc <= k,
        decreases sectors@.len() - k,
    {
        let s = sectors[k];
        assert(sectors@.subrange(0, k + 1).drop_last() =~= sectors@.subrange(0, k as int));
        if !s.crc_ok {
            crc = crc + 1;
        }
        if s.cyl == target {
            if s.crc_ok {
                on = on + 1;
            }
        } else {
            off = off + 1;
        }
        k = k + 1;
    }
    assert(sectors@.subrange(0, sectors@.len() as int) =~= sectors@);
    TrackCounts { on_track: on, off_track: off, crc_errors: crc }
}

/// The summary entries of the wrong cylinders below `k`, in increasing
/// cylinder order: `T<cc>: <n> sect`.
pub open spec fn off_track_parts(s: Seq<DecodedSector>, target: u8, k: nat) -> Seq<Seq<char>>
    decreases k,
{
    if k == 0 {
        Seq::empty()
    } else {
        let p = off_track_parts(s, target, (k - 1) as nat);
        let c = k - 1;
        if c != target && cyl_count(s, c) > 0 {
            p.push("T"@ + dec02(c as nat) + ": "@ + dec(cyl_count(s, c)) + " sect"@)
        } else {
            p
        }
    }
}

/// The wrong cylinders below `k`, in increasing order.
pub open spec fn wrong_cyls(s: Seq<DecodedSector>, target: u8, k: nat) -> Seq<int>
    decreases k,
{
    if k == 0 {
        Seq::empty()
    } else {
        let p = wrong_cyls(s, target, (k - 1) as nat);
        let c = k - 1;
        if c != target && cyl_count(s, c) > 0 {
            p.push(c as int)
        } else {
            p
        }
    }
}

/// The off-track summary: `NONE (Perfect)` when nothing is off track;
/// `MISALIGNED T:<cc>` when every sector came from one other cylinder and
/// none was good on the target; else the per-cylinder counts joined by `, `.
pub open spec fn off_track_details_text(s: Seq<DecodedSector>, target: u8) -> Seq<char> {
    let off = off_track_count(s, target);
    let on = on_track_count(s, target);
    let cyls = wrong_cyls(s, target, 256);
    if off == 0 {
        "NONE (Perfect)"@
    } else if cyls.len() == 1 && on == 0 {
        "MISALIGNED T:"@ + dec02(cyls[0] as nat)
    } else {
        join(off_track_parts(s, target, 256), ", "@)
    }
}

proof fn lemma_wrong_cyls_len(s: Seq<DecodedSector>, target: u8, k: nat)
    ensures
        wrong_cyls(s, target, k).len() == off_track_parts(s, target, k).len(),
        forall|j: int| 0 <= j < wrong_cyls(s, target, k).len() ==> 0 <= #[trigger] wrong_cyls(s, target, k)[j] < k,
    decreases k,
{
    if k > 0 {
        lemma_wrong_cyls_len(s, target, (k - 1) as nat);
    }
}

proof fn lemma_cyl_count_prefix(s: Seq<DecodedSector>, c: int, k: int)
    requires
        0 <= k < s.len(),
    ensures
        cyl_count(s.subrange(0, k + 1), c) == cyl_count(s.subrange(0, k), c) + if s[k].cyl == c { 1nat } else { 0nat },
{
    assert(s.subrange(0, k + 1).drop_last() =~= s.subrange(0, k));
}

/// Sector counts per cylinder (index = cylinder).
fn cylinder_histogram(sectors: &[DecodedSector]) -> (h: Vec<u32>)
    requires
        sectors@.len() <= u32::MAX,
    ensures
        h@.len() == 256,
        forall|c: int| 0 <= c < 256 ==> #[trigger] h@[c] as nat == cyl_count(sectors@, c),
{
    let mut h: Vec<u32> = Vec::new();
    let mut c: usize = 0;
    while c < 256
        invariant
            c <= 256,
            h@.len() == c,
            forall|j: int| 0 <= j < c ==> #[trigger] h@[j] == 0,
        decreases 256 - c,
    {
        h.push(0);
        c = c + 1;
    }
    let mut k: usize = 0;
    while k < sectors.len()
        invariant
            k <= sectors@.len(),
            sectors@.len() <= u32::MAX,
            h@.len() == 256,
            forall|j: int| 0 <= j < 256 ==> #[trigger] h@[j] as nat == cyl_count(sectors@.subrange(0, k as int), j),
            forall|j: int| 0 <= j < 256 ==> #[trigger] h@[j] <= k,
        decreases sectors@.len() - k,
    {
        let cyl = sectors[k].cyl as usize;
        proof {
            assert forall|j: int| 0 <= j < 256 implies cyl_count(sectors@.subrange(0, k + 1), j) == cyl_count(sectors@.subrange(0, k as int), j) + if sectors@[k as int].cyl == j { 1nat } else { 0nat } by {
                lemma_cyl_count_prefix(sectors@, j, k as int);
            }
        }
        h[cyl] = h[cyl] + 1;
        k = k + 1;
    }
    assert(sectors@.subrange(0, sectors@.len() as int) =~= sectors@);
    h
}

/// The off-track summary of a pass (see `off_track_details_text`).
pub fn off_track_details(sectors: &[DecodedSector], target: u8) -> (r: String)
    requires
        sectors@.len() <= u32::MAX,
    ensures
        r@ == off_track_details_text(sectors@, target),
{
    let counts = count_track_sectors(sectors, target);
    if counts.off_track == 0 {
        return String::from_str("NONE (Perfect)");
    }
    let h = cylinder_histogram(sectors);
    let mut out = String::new();
    let mut n_wrong: usize = 0;
    let mut first_wrong: u8 = 0;
    let mut c: usize = 0;
    while c < 256
        invariant
            c <= 256,
            h@.len() == 256,
            forall|j: int| 0 <= j < 256 ==> #[trigger] h@[j] as nat == cyl_count(sectors@, j),
            out@ == join(off_track_parts(sectors@, target, c as nat), ", "@),
            n_wrong == wrong_cyls(sectors@, target, c as nat).len(),
            n_wrong > 0 ==> first_wrong == wrong_cyls(sectors@, target, c as nat)[0],
            n_wrong <= c,
        decreases 256 - c,
    {
        proof {
            lemma_wrong_cyls_len(sectors@, target, c as nat);
        }
        let ghost prev_parts = off_track_parts(sectors@, target, c as nat);
        let ghost prev_cyls = wrong_cyls(sectors@, target, c as nat);
        if c != target as usize && h[c] > 0 {
            if n_wrong > 0 {
                out.append(", ");
            }
            let ghost before = out@;
            out.append("T");
            push_dec02(&mut out, c as u64);
            out.append(": ");
            push_dec(&mut out, h[c] as u64);
            out.append(" sect");
            proof {
                let part = "T"@ + dec02(c as nat) + ": "@ + dec(cyl_count(sectors@, c as int)) + " sect"@;
                let next_parts = off_track_parts(sectors@, target, (c + 1) as nat);
                assert(next_parts == prev_parts.push(part));
                assert(out@ =~= before + part);
                if prev_parts.len() > 0 {
                    assert(next_parts.drop_last() =~= prev_parts);
                    assert(out@ =~= join(prev_parts, ", "@) + ", "@ + next_parts.last());
                } else {
                    assert(out@ =~= next_parts[0]);
                }
            }
            if n_wrong == 0 {
                first_wrong = c as u8;
            }
            n_wrong = n_wrong + 1;
            proof {
                let next_cyls = wrong_cyls(sectors@, target, (c + 1) as nat);
                assert(next_cyls == prev_cyls.push(c as int));
            }
        }
        c = c + 1;
    }
    if n_wrong == 1 && counts.on_track == 0 {
        let mut m = String::from_str("MISALIGNED T:");
        push_dec02(&mut m, first_wrong as u64);
        return m;
    }
    out
}

/// The cylinder most sectors came from (the lowest on a tie), or `target`
/// when there are no sectors. `(cyl, count)` over cylinders below `k`.
pub open spec fn majority_upto(s: Seq<DecodedSector>, k: nat) -> (int, nat)
    decreases k,
{
    if k == 0 {
        (0, 0)
    } else {
        let prev = majority_upto(s, (k - 1) as nat);
        let c = cyl_count(s, k - 1);
        if c > prev.1 {
            (k - 1, c)
        } else {
            prev
        }
    }
}

/// The cylinder the sectors mostly came from.
pub open spec fn majority_cylinder(s: Seq<DecodedSector>, target: u8) -> int {
    if s.len() == 0 {
        target as int
    } else {
        majority_upto(s, 256).0
    }
}

proof fn lemma_majority_upto_range(s: Seq<DecodedSector>, k: nat)
    requires
        k <= 256,
    ensures
        0 <= majority_upto(s, k).0 < 256,
    decreases k,
{
    if k > 0 {
        lemma_majority_upto_range(s, (k - 1) as nat);
    }
}

/// The cylinder most sectors came from (see `majority_cylinder`).
pub fn detected_track_id(sectors: &[DecodedSector], target: u8) -> (r: u8)
    requires
        sectors@.len() <= u32::MAX,
    ensures
        r as int == majority_cylinder(sectors@, target),
{
    if sectors.len() == 0 {
        return target;
    }
    let h = cylinder_histogram(sectors);
    let mut best: usize = 0;
    let mut best_c: u32 = 0;
    let mut c: usize = 0;
    while c < 256
        invariant
            c <= 256,
            h@.len() == 256,
            forall|j: int| 0 <= j < 256 ==> #[trigger] h@[j] as nat == cyl_count(sectors@, j),
            (best as int, best_c as nat) == majority_upto(sectors@, c as nat),
        decreases 256 - c,
    {
        if h[c] > best_c {
            best = c;
            best_c = h[c];
        }
        c = c + 1;
    }
    proof {
        lemma_majority_upto_range(sectors@, 256);
    }
    best as u8
}

/// Combined counts of the last passes of the two heads.
pub struct BothModeCounts {
    pub total_expected: u32,
    pub total_ok: u32,
    pub total_off_track: u32,
    pub off_track_details: String,
    pub total_crc_err: u32,
}

/// Sectors expected per head: the first recorded non-zero expected count of
/// head 0 then head 1, else the fallback count, else 18.
pub open spec fn expected_per_head(h0: Option<DiagnosticPass>, h1: Option<DiagnosticPass>, fallback: u8) -> nat {
    if h0 is Some && h0->0.expected_count > 0 {
        h0->0.expected_count as nat
    } else if h1 is Some && h1->0.expected_count > 0 {
        h1->0.expected_count as nat
    } else if fallback > 0 {
        fallback as nat
    } else {
        18
    }
}

/// (good, expected, off-track) of one head's pass.
pub open spec fn head_counts(p: Option<DiagnosticPass>, per_head: nat) -> (nat, nat, nat) {
    match p {
        Some(p) => {
            let exp: nat = if p.expected_count > 0 { p.expected_count as nat } else { per_head };
            let ok = p.ok_count as nat;
            let off: nat = if p.track_id != p.track {
                exp
            } else if exp >= ok {
                (exp - ok) as nat
            } else {
                0
            };
            (ok, exp, off)
        },
        None => (0, per_head, 0),
    }
}

/// Whether a pass read another track than the one sought.
pub open spec fn mismatched(p: DiagnosticPass) -> bool {
    p.track_id != p.track
}

/// Total sectors off track over both heads: whole heads on a wrong track
/// count their expected sectors; otherwise the missing good sectors count.
pub open spec fn both_off_track(h0: Option<DiagnosticPass>, h1: Option<DiagnosticPass>, off0: nat, off1: nat) -> nat {
    match (h0, h1) {
        (Some(p0), Some(p1)) => {
            let off: nat = (if mismatched(p0) { p0.expected_count as nat } else { 0 }) + (if mismatched(p1) {
                p1.expected_count as nat
            } else {
                0
            });
            if off == 0 {
                off0 + off1
            } else {
                off
            }
        },
        (Some(p), None) => if mismatched(p) {
            p.expected_count as nat
        } else {
            off0
        },
        (None, Some(p)) => if mismatched(p) {
            p.expected_count as nat
        } else {
            off1
        },
        (None, None) => 0,
    }
}

/// The combined off-track text: which heads read another track, else
/// `NONE (Perfect)` or `OFF-TRK`.
pub open spec fn both_details_text(h0: Option<DiagnosticPass>, h1: Option<DiagnosticPass>, total_off: nat) -> Seq<char> {
    match (h0, h1) {
        (Some(p0), Some(p1)) => if mismatched(p0) && mismatched(p1) {
            "MISMATCH: Track "@ + dec(p0.track_id as nat) + " on Head 0, Track "@ + dec(p1.track_id as nat)
                + " on Head 1"@
        } else if mismatched(p1) {
            "MISMATCH: Track "@ + dec(p1.track_id as nat) + " on Head 1"@
        } else if mismatched(p0) {
            "MISMATCH: Track "@ + dec(p0.track_id as nat) + " on Head 0"@
        } else if total_off == 0 {
            "NONE (Perfect)"@
        } else {
            "OFF-TRK"@
        },
        (Some(p0), None) => if mismatched(p0) {
            "MISMATCH: Track "@ + dec(p0.track_id as nat) + " on Head 0"@
        } else if total_off == 0 {
            "NONE (Perfect)"@
        } else {
            "OFF-TRK"@
        },
        (None, Some(p1)) => if mismatched(p1) {
            "MISMATCH: Track "@ + dec(p1.track_id as nat) + " on Head 1"@
        } else if total_off == 0 {
            "NONE (Perfect)"@
        } else {
            "OFF-TRK"@
        },
        (None, None) => if total_off == 0 {
            "NONE (Perfect)"@
        } else {
            "OFF-TRK"@
        },
    }
}

fn opt_pass(p: Option<&DiagnosticPass>) -> (r: Option<(u8, u8, u8, u8)>)
    ensures
        match p {
            Some(q) => r == Some((q.track, q.track_id, q.ok_count, q.expected_count)),
            None => r is None,
        },
{
    match p {
        Some(q) => Some((q.track, q.track_id, q.ok_count, q.expected_count)),
        None => None,
    }
}

/// Spec view of an optional borrowed pass.
pub open spec fn pass_of(p: Option<&DiagnosticPass>) -> Option<DiagnosticPass> {
    match p {
        Some(q) => Some(*q),
        None => None,
    }
}

/// Appends `Track <n> on Head <h>`-style text pieces.
fn push_mismatch(out: &mut String, track_id: u8, head_label: &str)
    ensures
        final(out)@ == old(out)@ + "MISMATCH: Track "@ + dec(track_id as nat) + head_label@,
{
    out.append("MISMATCH: Track ");
    push_dec(out, track_id as u64);
    out.append(head_label);
    assert(out@ =~= old(out)@ + "MISMATCH: Track "@ + dec(track_id as nat) + head_label@);
}

/// Combined counts of the two heads' last passes: expected and good
/// totals, sectors off track, the off-track text and the missing count.
pub fn both_mode_counts(pass_h0: Option<&DiagnosticPass>, pass_h1: Option<&DiagnosticPass>, fallback_sector_count: u8) -> (r: BothModeCounts)
    ensures
        ({
            let h0 = pass_of(pass_h0);
            let h1 = pass_of(pass_h1);
            let per = expected_per_head(h0, h1, fallback_sector_count);
            let c0 = head_counts(h0, per);
            let c1 = head_counts(h1, per);
            let total_ok = c0.0 + c1.0;
            let total_exp: nat = if c0.1 + c1.1 >= 1 { c0.1 + c1.1 } else { 1 };
            let total_off = both_off_track(h0, h1, c0.2, c1.2);
            &&& r.total_ok as nat == total_ok
            &&& r.total_expected as nat == total_exp
            &&& r.total_off_track as nat == total_off
            &&& r.off_track_details@ == both_details_text(h0, h1, total_off)
            &&& r.total_crc_err as nat == (if total_exp >= total_ok { (total_exp - total_ok) as nat } else { 0 })
        }),
{
    let a = opt_pass(pass_h0);
    let b = opt_pass(pass_h1);
    let per: u32 = match (a, b) {
        (Some((_, _, _, e0)), _) if e0 > 0 => e0 as u32,
        (_, Some((_, _, _, e1))) if e1 > 0 => e1 as u32,
        _ => if fallback_sector_count > 0 {
            fallback_sector_count as u32
        } else {
            18
        },
    };
    let (ok0, exp0, off0): (u32, u32, u32) = match a {
        Some((t, tid, ok, e)) => {
            let exp: u32 = if e > 0 {
                e as u32
            } else {
                per
            };
            let okc = ok as u32;
            let off: u32 = if tid != t {
                exp
            } else if exp >= okc {
                exp - okc
            } else {
                0
            };
            (okc, exp, off)
        },
        None => (0, per, 0),
    };
    let (ok1, exp1, off1): (u32, u32, u32) = match b {
        Some((t, tid, ok, e)) => {
            let exp: u32 = if e > 0 {
                e as u32
            } else {
                per
            };
            let okc = ok as u32;
            let off: u32 = if tid != t {
                exp
            } else if exp >= okc {
                exp - okc
            } else {
                0
            };
            (okc, exp, off)
        },
        None => (0, per, 0),
    };
    let total_ok = ok0 + ok1;
    let total_expected: u32 = if exp0 + exp1 >= 1 {
        exp0 + exp1
    } else {
        1
    };
    let total_off_track: u32 = match (a, b) {
        (Some((t0, id0, _, e0)), Some((t1, id1, _, e1))) => {
            let o: u32 = (if id0 != t0 {
                e0 as u32
            } else {
                0
            }) + (if id1 != t1 {
                e1 as u32
            } else {
                0
            });
            if o == 0 {
                off0 + off1
            } else {
                o
            }
        },
        (Some((t0, id0, _, e0)), None) => if id0 != t0 {
            e0 as u32
        } else {
            off0
        },
        (None, Some((t1, id1, _, e1))) => if id1 != t1 {
            e1 as u32
        } else {
            off1
        },
        (None, None) => 0,
    };
    let mut details = String::new();
    let mis0 = match a {
        Some((t, id, _, _)) => id != t,
        None => false,
    };
    let mis1 = match b {
        Some((t, id, _, _)) => id != t,
        None => false,
    };
    if mis0 && mis1 {
        let id0 = match a {
            Some((_, id, _, _)) => id,
            None => 0,
        };
        let id1 = match b {
            Some((_, id, _, _)) => id,
            None => 0,
        };
        push_mismatch(&mut details, id0, " on Head 0, Track ");
        push_dec(&mut details, id1 as u64);
        details.append(" on Head 1");
        assert(details@ =~= "MISMATCH: Track "@ + dec(id0 as nat) + " on Head 0, Track "@ + dec(id1 as nat) + " on Head 1"@);
    } else if mis1 && a.is_some() {
        let id1 = match b {
            Some((_, id, _, _)) => id,
            None => 0,
        };
        push_mismatch(&mut details, id1, " on Head 1");
    } else if mis0 {
        let id0 = match a {
            Some((_, id, _, _)) => id,
            None => 0,
        };
        push_mismatch(&mut details, id0, " on Head 0");
    } else if mis1 {
        let id1 = match b {
            Some((_, id, _, _)) => id,
            None => 0,
        };
        push_mismatch(&mut details, id1, " on Head 1");
    } else if total_off_track == 0 {
        details.append("NONE (Perfect)");
    } else {
        details.append("OFF-TRK");
    }
    let total_crc_err: u32 = if total_expected >= total_ok {
        total_expected - total_ok
    } else {
        0
    };
    BothModeCounts { total_expected, total_ok, total_off_track, off_track_details: details, total_crc_err }
}

} // verus!
