//! Track layout rules: which sector ids a track of a format should hold,
//! how sector ids are shown, the physical interleave, and the standard
//! sector orders used when writing a track.
use vstd::prelude::*;
use vstd::string::*;
use crate::fmt::{dec, hex02, push_dec, push_hex02};
use crate::protocol::DiskFormat;
use crate::drive::SectorInfo;
use crate::ibm::{decode_idam_sectors_from_bits, idam_scan};
use crate::sectors::{amiga_scan, decode_amiga_sectors_from_bits, DecodedSector};

verus! {

/// Largest sector id of a non-empty record list (0 for an empty one).
pub open spec fn max_ids(s: Seq<DecodedSector>) -> u8
    decreases s.len(),
{
    if s.len() == 0 {
        0
    } else {
        let m = max_ids(s.drop_last());
        if s.last().sec_id > m {
            s.last().sec_id
        } else {
            m
        }
    }
}

/// Largest sector id, or `dflt` for an empty list.
pub open spec fn max_sec_id(s: Seq<DecodedSector>, dflt: u8) -> u8 {
    if s.len() == 0 {
        dflt
    } else {
        max_ids(s)
    }
}

/// Whether some record has a sector id in `lo..=hi`.
pub open spec fn any_id_in(s: Seq<DecodedSector>, lo: u8, hi: u8) -> bool {
    exists|k: int| 0 <= k < s.len() && lo <= #[trigger] s[k].sec_id <= hi
}

/// `count` consecutive ids starting at `start`.
pub open spec fn id_range(start: int, count: nat) -> Seq<u8> {
    Seq::new(count, |k: int| (start + k) as u8)
}

/// Amstrad CPC ids: 9 from `lo`, or 10 when an id reaches `hi`.
pub open spec fn cpc_ids(s: Seq<DecodedSector>, lo: u8, hi: u8, dflt: u8) -> Seq<u8> {
    id_range(lo as int, if max_sec_id(s, dflt) >= hi { 10 } else { 9 })
}

/// The record count as a byte (counts above 255 wrap).
pub open spec fn count_byte(s: Seq<DecodedSector>) -> nat {
    (s.len() % 256) as nat
}

/// Sector count of a 500 kbps IBM track: 15 for 1.2M, the count found
/// beyond 18, else 18.
pub open spec fn ibm_hd_count(s: Seq<DecodedSector>) -> nat {
    if max_sec_id(s, 18) == 15 || s.len() == 15 {
        15
    } else if s.len() > 18 {
        count_byte(s)
    } else {
        18
    }
}

/// The sector ids expected on a track of `format` at `bitrate`, given the
/// sectors found on it.
pub open spec fn expected_ids_spec(format: DiskFormat, bitrate: u16, s: Seq<DecodedSector>) -> Seq<u8> {
    match format {
        DiskFormat::AmstradCpcData => cpc_ids(s, 0xC1, 0xCA, 0xC9),
        DiskFormat::AmstradCpcSystem => cpc_ids(s, 0x41, 0x4A, 0x49),
        DiskFormat::AmigaDos => id_range(0, if bitrate == 500 { 22 } else { 11 }),
        DiskFormat::AtariSt => {
            let m = max_sec_id(s, 9);
            id_range(
                1,
                if m >= 11 || s.len() >= 11 {
                    11
                } else if m == 10 || s.len() == 10 {
                    10
                } else {
                    9
                },
            )
        },
        DiskFormat::IbmPc => id_range(
            1,
            if bitrate == 500 {
                ibm_hd_count(s)
            } else if s.len() > 9 {
                count_byte(s)
            } else {
                9
            },
        ),
        DiskFormat::AutoDetect => {
            if any_id_in(s, 0xC1, 0xCA) {
                cpc_ids(s, 0xC1, 0xCA, 0xC9)
            } else if any_id_in(s, 0x41, 0x4A) {
                cpc_ids(s, 0x41, 0x4A, 0x49)
            } else if any_id_in(s, 0, 0) {
                id_range(0, if bitrate == 500 { 22 } else { 11 })
            } else if bitrate == 250 {
                id_range(1, if s.len() > 9 { count_byte(s) } else { 9 })
            } else if bitrate == 500 {
                id_range(1, ibm_hd_count(s))
            } else {
                id_range(1, if s.len() > 0 { count_byte(s) } else { 18 })
            }
        },
    }
}

/// The largest id of a non-empty list reaches `x` exactly when some
/// record's id does.
pub proof fn lemma_max_ids_reaches(s: Seq<DecodedSector>, x: u8)
    requires
        s.len() > 0,
    ensures
        (max_ids(s) >= x) <==> (exists|k: int| 0 <= k < s.len() && #[trigger] s[k].sec_id >= x),
    decreases s.len(),
{
    let t = s.drop_last();
    if s.len() == 1 {
        assert(t.len() == 0);
        assert(max_ids(t) == 0);
        assert(s[0] == s.last());
    } else {
        lemma_max_ids_reaches(t, x);
        if exists|k: int| 0 <= k < s.len() && #[trigger] s[k].sec_id >= x {
            let k = choose|k: int| 0 <= k < s.len() && #[trigger] s[k].sec_id >= x;
            if k < s.len() - 1 {
                assert(t[k] == s[k]);
            }
        }
        if exists|k: int| 0 <= k < t.len() && #[trigger] t[k].sec_id >= x {
            let k = choose|k: int| 0 <= k < t.len() && #[trigger] t[k].sec_id >= x;
            assert(t[k] == s[k]);
        }
    }
}

/// Law: the ids expected on an Amstrad CPC track are 0x41, 0x42, .. for the
/// system format and 0xC1, 0xC2, .. for the data format, in order: ten of
/// them when a sector id found reaches 0x4A (0xCA), else nine. So every
/// expected system id lies in 0x41..=0x4A, every data id in 0xC1..=0xCA.
pub proof fn lemma_cpc_expected_ids(bitrate: u16, s: Seq<DecodedSector>)
    ensures
        ({
            let v = expected_ids_spec(DiskFormat::AmstradCpcSystem, bitrate, s);
            &&& v.len() == (if exists|k: int| 0 <= k < s.len() && #[trigger] s[k].sec_id >= 0x4A {
                10int
            } else {
                9int
            })
            &&& forall|i: int| 0 <= i < v.len() ==> v[i] == 0x41 + i
            &&& forall|i: int| 0 <= i < v.len() ==> 0x41 <= #[trigger] v[i] <= 0x4A
        }),
        ({
            let v = expected_ids_spec(DiskFormat::AmstradCpcData, bitrate, s);
            &&& v.len() == (if exists|k: int| 0 <= k < s.len() && #[trigger] s[k].sec_id >= 0xCA {
                10int
            } else {
                9int
            })
            &&& forall|i: int| 0 <= i < v.len() ==> v[i] == 0xC1 + i
            &&& forall|i: int| 0 <= i < v.len() ==> 0xC1 <= #[trigger] v[i] <= 0xCA
        }),
{
    if s.len() > 0 {
        lemma_max_ids_reaches(s, 0x4A);
        lemma_max_ids_reaches(s, 0xCA);
    }
}

/// Law: an Amiga track expects the ids 0, 1, .. (22 at 500 kbps, else 11);
/// an Atari ST track the ids 1, 2, .., eleven of them when an id of 11 or
/// above or 11 sectors are found, else ten when an id of 10 or 10 sectors
/// are found, else nine; an IBM PC track read below 500 kbps the ids 1, 2,
/// .., as many as sectors were found (their count as a byte) but at least
/// nine.
pub proof fn lemma_expected_ids_by_format(bitrate: u16, s: Seq<DecodedSector>)
    ensures
        ({
            let v = expected_ids_spec(DiskFormat::AmigaDos, bitrate, s);
            &&& v.len() == (if bitrate == 500 { 22int } else { 11int })
            &&& forall|i: int| 0 <= i < v.len() ==> v[i] == i
        }),
        ({
            let v = expected_ids_spec(DiskFormat::AtariSt, bitrate, s);
            &&& v.len() == (if s.len() >= 11 || exists|k: int| 0 <= k < s.len() && #[trigger] s[k].sec_id >= 11 {
                11int
            } else if s.len() == 10 || exists|k: int| 0 <= k < s.len() && #[trigger] s[k].sec_id >= 10 {
                10int
            } else {
                9int
            })
            &&& forall|i: int| 0 <= i < v.len() ==> v[i] == i + 1
        }),
        bitrate != 500 ==> ({
            let v = expected_ids_spec(DiskFormat::IbmPc, bitrate, s);
            &&& v.len() == (if s.len() > 9 { (s.len() % 256) as int } else { 9int })
            &&& forall|i: int| 0 <= i < v.len() ==> v[i] == i + 1
        }),
{
    if s.len() > 0 {
        lemma_max_ids_reaches(s, 11);
        lemma_max_ids_reaches(s, 10);
    }
}

/// Largest sector id of the records, or `dflt` when there are none.
pub fn max_sector_id(s: &[DecodedSector], dflt: u8) -> (r: u8)
    ensures
        r == max_sec_id(s@, dflt),
{
    if s.len() == 0 {
        return dflt;
    }
    let mut m: u8 = 0;
    let mut k: usize = 0;
    while k < s.len()
        invariant
            k <= s@.len(),
            m == max_ids(s@.subrange(0, k as int)),
        decreases s@.len() - k,
    {
        assert(s@.subrange(0, k + 1).drop_last() =~= s@.subrange(0, k as int));
        if s[k].sec_id > m {
            m = s[k].sec_id;
        }
        k = k + 1;
    }
    assert(s@.subrange(0, s@.len() as int) =~= s@);
    m
}

/// Whether some record has a sector id in `lo..=hi`.
pub fn has_id_in(s: &[DecodedSector], lo: u8, hi: u8) -> (r: bool)
    ensures
        r == any_id_in(s@, lo, hi),
{
    let mut k: usize = 0;
    while k < s.len()
        invariant
            k <= s@.len(),
            forall|j: int| 0 <= j < k ==> !(lo <= #[trigger] s@[j].sec_id <= hi),
        decreases s@.len() - k,
    {
        if lo <= s[k].sec_id && s[k].sec_id <= hi {
            return true;
        }
        k = k + 1;
    }
    false
}

/// The ids `start`, `start + 1`, .. (`count` of them).
pub fn make_id_range(start: u8, count: u8) -> (v: Vec<u8>)
    requires
        start + count <= 256,
    ensures
        v@ == id_range(start as int, count as nat),
{
    let mut v: Vec<u8> = Vec::new();
    let mut k: u8 = 0;
    while k < count
        invariant
            k <= count,
            start + count <= 256,
            v@ == id_range(start as int, k as nat),
        decreases count - k,
    {
        v.push(start + k);
        assert(v@ =~= id_range(start as int, (k + 1) as nat));
        k = k + 1;
    }
    v
}

fn cpc_expected(s: &[DecodedSector], lo: u8, hi: u8, dflt: u8) -> (v: Vec<u8>)
    requires
        lo as int + 10 <= 256,
    ensures
        v@ == cpc_ids(s@, lo, hi, dflt),
{
    let max_sec = max_sector_id(s, dflt);
    let count: u8 = if max_sec >= hi {
        10
    } else {
        9
    };
    make_id_range(lo, count)
}

fn ibm_hd_expected_count(s: &[DecodedSector]) -> (c: u8)
    ensures
        c as nat == ibm_hd_count(s@),
{
    let max_id = max_sector_id(s, 18);
    if max_id == 15 || s.len() == 15 {
        15
    } else if s.len() > 18 {
        (s.len() % 256) as u8
    } else {
        18
    }
}

/// The sector ids expected on a track of `format` at `bitrate`, given the
/// sectors found on it.
pub fn get_format_expected_sector_ids(format: DiskFormat, bitrate: u16, detected_sectors: &[DecodedSector]) -> (v: Vec<u8>)
    ensures
        v@ == expected_ids_spec(format, bitrate, detected_sectors@),
        format == DiskFormat::AmstradCpcSystem ==> forall|i: int| 0 <= i < v@.len() ==> v@[i] == 0x41 + i,
        format == DiskFormat::AmstradCpcData ==> forall|i: int| 0 <= i < v@.len() ==> v@[i] == 0xC1 + i,
{
    proof {
        lemma_cpc_expected_ids(bitrate, detected_sectors@);
    }
    let s = detected_sectors;
    let n = s.len();
    match format {
        DiskFormat::AmstradCpcData => cpc_expected(s, 0xC1, 0xCA, 0xC9),
        DiskFormat::AmstradCpcSystem => cpc_expected(s, 0x41, 0x4A, 0x49),
        DiskFormat::AmigaDos => make_id_range(
            0,
            if bitrate == 500 {
                22
            } else {
                11
            },
        ),
        DiskFormat::AtariSt => {
            let max_id = max_sector_id(s, 9);
            let count: u8 = if max_id >= 11 || n >= 11 {
                11
            } else if max_id == 10 || n == 10 {
                10
            } else {
                9
            };
            make_id_range(1, count)
        },
        DiskFormat::IbmPc => {
            let count: u8 = if bitrate == 500 {
                ibm_hd_expected_count(s)
            } else if n > 9 {
                (n % 256) as u8
            } else {
                9
            };
            make_id_range_inclusive(count)
        },
        DiskFormat::AutoDetect => {
            if has_id_in(s, 0xC1, 0xCA) {
                cpc_expected(s, 0xC1, 0xCA, 0xC9)
            } else if has_id_in(s, 0x41, 0x4A) {
                cpc_expected(s, 0x41, 0x4A, 0x49)
            } else if has_id_in(s, 0, 0) {
                make_id_range(
                    0,
                    if bitrate == 500 {
                        22
                    } else {
                        11
                    },
                )
            } else if bitrate == 250 {
                let count: u8 = if n > 9 {
                    (n % 256) as u8
                } else {
                    9
                };
                make_id_range_inclusive(count)
            } else if bitrate == 500 {
                make_id_range_inclusive(ibm_hd_expected_count(s))
            } else {
                let count: u8 = if n > 0 {
                    (n % 256) as u8
                } else {
                    18
                };
                make_id_range_inclusive(count)
            }
        },
    }
}

/// The ids 1..=count.
pub fn make_id_range_inclusive(count: u8) -> (v: Vec<u8>)
    ensures
        v@ == id_range(1, count as nat),
{
    let mut v: Vec<u8> = Vec::new();
    let mut k: u8 = 0;
    while k < count
        invariant
            k <= count,
            v@ == id_range(1, k as nat),
        decreases count - k,
    {
        v.push(k + 1);
        assert(v@ =~= id_range(1, (k + 1) as nat));
        k = k + 1;
    }
    v
}

/// How a sector id is shown: two uppercase hex digits from 0x40 up
/// (Amstrad ids), decimal below.
pub open spec fn sector_id_text(id: u8) -> Seq<char> {
    if id >= 0x40 {
        hex02(id)
    } else {
        dec(id as nat)
    }
}

/// Text of a sector id (see `sector_id_text`).
pub fn format_sector_id_str(id: u8) -> (r: String)
    ensures
        r@ == sector_id_text(id),
{
    let mut out = String::new();
    if id >= 0x40 {
        push_hex02(&mut out, id);
    } else {
        push_dec(&mut out, id as u64);
    }
    out
}

/// Modulus used to wrap sector id steps: the expected count, or 18.
pub open spec fn il_modulus(expected_count: u8) -> int {
    if expected_count > 0 {
        expected_count as int
    } else {
        18
    }
}

/// Step from record `i` to record `i + 1`, wrapped into 1..=m when not positive.
pub open spec fn id_step(s: Seq<DecodedSector>, i: int, m: int) -> int {
    let d = s[i + 1].sec_id - s[i].sec_id;
    if d <= 0 {
        d + m
    } else {
        d
    }
}

/// Number of the first `upto` consecutive pairs whose step is `d`.
pub open spec fn step_count(s: Seq<DecodedSector>, m: int, d: int, upto: nat) -> nat
    decreases upto,
{
    if upto == 0 {
        0
    } else {
        step_count(s, m, d, (upto - 1) as nat) + if id_step(s, upto - 1, m) == d {
            1nat
        } else {
            0nat
        }
    }
}

/// The most frequent step among 1..=k (the smallest on a tie) with its
/// count; (1, 0) when none occurs.
pub open spec fn mode_upto(s: Seq<DecodedSector>, m: int, k: nat) -> (int, nat)
    decreases k,
{
    if k == 0 {
        (1, 0)
    } else {
        let prev = mode_upto(s, m, (k - 1) as nat);
        let c = step_count(s, m, k as int, (s.len() - 1) as nat);
        if c > prev.1 {
            (k as int, c)
        } else {
            prev
        }
    }
}

/// The interleave step: the most frequent step between consecutive sector
/// ids within 1..=m.
pub open spec fn interleave_step(s: Seq<DecodedSector>, expected_count: u8) -> int {
    if s.len() < 2 {
        1
    } else {
        mode_upto(s, il_modulus(expected_count), il_modulus(expected_count) as nat).0
    }
}

/// The interleave text `1:<step>`.
pub open spec fn interleave_text(s: Seq<DecodedSector>, expected_count: u8) -> Seq<char> {
    "1:"@ + dec(interleave_step(s, expected_count) as nat)
}

proof fn lemma_mode_upto_range(s: Seq<DecodedSector>, m: int, k: nat)
    ensures
        1 <= mode_upto(s, m, k).0 <= (if k == 0 { 1 } else { k as int }),
    decreases k,
{
    if k > 0 {
        lemma_mode_upto_range(s, m, (k - 1) as nat);
    }
}

proof fn lemma_mode_upto_max(s: Seq<DecodedSector>, m: int, k: nat)
    ensures
        forall|d: int| 1 <= d <= k ==> #[trigger] step_count(s, m, d, (s.len() - 1) as nat) <= mode_upto(s, m, k).1,
        mode_upto(s, m, k).1 == 0 || mode_upto(s, m, k).1 == step_count(s, m, mode_upto(s, m, k).0, (s.len() - 1) as nat),
    decreases k,
{
    if k > 0 {
        lemma_mode_upto_max(s, m, (k - 1) as nat);
    }
}

/// The interleave step is a step between consecutive sector ids that occurs
/// at least as often as any other step in 1..=m.
pub proof fn lemma_interleave_step_most_frequent(s: Seq<DecodedSector>, expected_count: u8, d: int)
    requires
        s.len() >= 2,
        1 <= d <= il_modulus(expected_count),
    ensures
        step_count(s, il_modulus(expected_count), d, (s.len() - 1) as nat) <= step_count(
            s,
            il_modulus(expected_count),
            interleave_step(s, expected_count),
            (s.len() - 1) as nat,
        ),
{
    let m = il_modulus(expected_count);
    lemma_mode_upto_max(s, m, m as nat);
    assert(step_count(s, m, d, (s.len() - 1) as nat) <= mode_upto(s, m, m as nat).1);
}

proof fn lemma_mode_upto_none(s: Seq<DecodedSector>, m: int, k: nat)
    requires
        forall|d: int| 1 <= d <= k ==> #[trigger] step_count(s, m, d, (s.len() - 1) as nat) == 0,
    ensures
        mode_upto(s, m, k) == (1int, 0nat),
    decreases k,
{
    if k > 0 {
        assert(step_count(s, m, k as int, (s.len() - 1) as nat) == 0);
        lemma_mode_upto_none(s, m, (k - 1) as nat);
    }
}

/// Law: a single sector gives the interleave `1:1`; a wrapped step that
/// occurs strictly more often than every other step in 1..=m gives `1:d`;
/// when no step lies in 1..=m the interleave is `1:1`.
pub proof fn lemma_interleave_cases(s: Seq<DecodedSector>, expected_count: u8, d: int)
    ensures
        s.len() == 1 ==> interleave_text(s, expected_count) == "1:"@ + dec(1),
        (s.len() >= 2 && 1 <= d <= il_modulus(expected_count) && (forall|e: int|
            1 <= e <= il_modulus(expected_count) && e != d ==> #[trigger] step_count(
                s,
                il_modulus(expected_count),
                e,
                (s.len() - 1) as nat,
            ) < step_count(s, il_modulus(expected_count), d, (s.len() - 1) as nat))) ==> interleave_text(
            s,
            expected_count,
        ) == "1:"@ + dec(d as nat),
        (s.len() >= 2 && (forall|e: int|
            1 <= e <= il_modulus(expected_count) ==> #[trigger] step_count(
                s,
                il_modulus(expected_count),
                e,
                (s.len() - 1) as nat,
            ) == 0)) ==> interleave_text(s, expected_count) == "1:"@ + dec(1),
{
    let m = il_modulus(expected_count);
    if s.len() >= 2 {
        lemma_mode_upto_max(s, m, m as nat);
        lemma_mode_upto_range(s, m, m as nat);
        let md = mode_upto(s, m, m as nat);
        if 1 <= d <= m && (forall|e: int|
            1 <= e <= m && e != d ==> #[trigger] step_count(s, m, e, (s.len() - 1) as nat) < step_count(
                s,
                m,
                d,
                (s.len() - 1) as nat,
            )) {
            assert(step_count(s, m, d, (s.len() - 1) as nat) <= md.1);
            if md.0 != d {
                assert(step_count(s, m, md.0, (s.len() - 1) as nat) < step_count(s, m, d, (s.len() - 1) as nat));
            }
            assert(md.0 == d);
        }
        if forall|e: int| 1 <= e <= m ==> #[trigger] step_count(s, m, e, (s.len() - 1) as nat) == 0 {
            lemma_mode_upto_none(s, m, m as nat);
        }
    }
}

/// Interleave detected from the order of the sector ids: `None` without
/// sectors, else `1:<step>` with the most frequent step.
pub fn detect_interleave(sectors: &[DecodedSector], expected_count: u8) -> (r: Option<String>)
    ensures
        r is None <==> sectors@.len() == 0,
        r matches Some(t) ==> t@ == interleave_text(sectors@, expected_count),
{
    if sectors.len() == 0 {
        return None;
    }
    let mut out = String::new();
    out.append("1:");
    if sectors.len() < 2 {
        push_dec(&mut out, 1);
        return Some(out);
    }
    let m: usize = if expected_count > 0 {
        expected_count as usize
    } else {
        18
    };
    let ghost mi: int = m as int;
    let pairs: usize = sectors.len() - 1;
    let mut counts: Vec<usize> = Vec::new();
    let mut d: usize = 0;
    while d <= m
        invariant
            d <= m + 1,
            m <= 255,
            counts@.len() == d,
            forall|j: int| 0 <= j < d ==> #[trigger] counts@[j] == 0,
        decreases m + 1 - d,
    {
        counts.push(0);
        d = d + 1;
    }
    let mut i: usize = 0;
    while i < pairs
        invariant
            i <= pairs,
            pairs == sectors@.len() - 1,
            m == mi,
            mi == il_modulus(expected_count),
            counts@.len() == m + 1,
            forall|j: int| 1 <= j <= m ==> #[trigger] counts@[j] == step_count(sectors@, mi, j, i as nat),
            forall|j: int| 1 <= j <= m ==> #[trigger] counts@[j] <= i,
        decreases pairs - i,
    {
        let s0 = sectors[i].sec_id as i32;
        let s1 = sectors[i + 1].sec_id as i32;
        let mut delta: i32 = s1 - s0;
        if delta <= 0 {
            delta = delta + m as i32;
        }
        assert(delta == id_step(sectors@, i as int, mi));
        if 1 <= delta && delta <= m as i32 {
            let di = delta as usize;
            counts[di] = counts[di] + 1;
        }
        assert forall|j: int| 1 <= j <= m implies #[trigger] counts@[j] == step_count(sectors@, mi, j, (i + 1) as nat) by {
            assert(step_count(sectors@, mi, j, (i + 1) as nat) == step_count(sectors@, mi, j, i as nat) + if id_step(sectors@, i as int, mi) == j { 1nat } else { 0nat });
        }
        i = i + 1;
    }
    let mut best: usize = 1;
    let mut best_c: usize = 0;
    let mut k: usize = 1;
    while k <= m
        invariant
            1 <= k <= m + 1,
            m == mi,
            mi == il_modulus(expected_count),
            pairs == sectors@.len() - 1,
            counts@.len() == m + 1,
            forall|j: int| 1 <= j <= m ==> #[trigger] counts@[j] == step_count(sectors@, mi, j, pairs as nat),
            (best as int, best_c as nat) == mode_upto(sectors@, mi, (k - 1) as nat),
        decreases m + 1 - k,
    {
        if counts[k] > best_c {
            best = k;
            best_c = counts[k];
        }
        k = k + 1;
    }
    proof {
        lemma_mode_upto_range(sectors@, mi, mi as nat);
    }
    push_dec(&mut out, best as u64);
    proof {
        reveal_strlit("1:");
    }
    Some(out)
}

/// The physical sector order used when writing a track of 9, 15 or 18
/// sectors (any other count gets the 18-sector order).
pub open spec fn sector_order_spec(sector_count: u8) -> Seq<u8> {
    if sector_count == 9 {
        seq![1u8, 6, 2, 7, 3, 8, 4, 9, 5]
    } else if sector_count == 15 {
        seq![1u8, 9, 2, 10, 3, 11, 4, 12, 5, 13, 6, 14, 7, 15, 8]
    } else {
        seq![3u8, 13, 7, 1, 12, 6, 10, 5, 15, 9, 8, 2, 11, 4, 14, 16, 17, 18]
    }
}

/// Sector order for a track (see `sector_order_spec`).
pub fn get_sector_order(sector_count: u8) -> (v: Vec<u8>)
    ensures
        v@ == sector_order_spec(sector_count),
{
    let v = match sector_count {
        9 => vec![1u8, 6, 2, 7, 3, 8, 4, 9, 5],
        15 => vec![1u8, 9, 2, 10, 3, 11, 4, 12, 5, 13, 6, 14, 7, 15, 8],
        _ => vec![3u8, 13, 7, 1, 12, 6, 10, 5, 15, 9, 8, 2, 11, 4, 14, 16, 17, 18],
    };
    assert(v@ =~= sector_order_spec(sector_count));
    v
}

/// Whether `id` occurs in the sequence.
pub open spec fn seq_has(s: Seq<u8>, id: int) -> bool {
    exists|k: int| 0 <= k < s.len() && #[trigger] s[k] == id
}

/// Each standard sector order holds every id 1..=n exactly once, n being
/// its length, so no sector is left out or written twice.
pub proof fn lemma_sector_order_is_permutation(sector_count: u8)
    ensures
        forall|id: int|
            1 <= id <= sector_order_spec(sector_count).len() ==> #[trigger] seq_has(
                sector_order_spec(sector_count),
                id,
            ),
        forall|a: int, b: int|
            0 <= a < b < sector_order_spec(sector_count).len() ==> sector_order_spec(sector_count)[a]
                != sector_order_spec(sector_count)[b],
{
    let s = sector_order_spec(sector_count);
    assert forall|id: int| 1 <= id <= s.len() implies #[trigger] seq_has(s, id) by {
        if sector_count == 9 {
            if id == 1 { assert(s[0] == id); } else if id == 6 { assert(s[1] == id); } else if id == 2 { assert(s[2] == id); }
            else if id == 7 { assert(s[3] == id); } else if id == 3 { assert(s[4] == id); } else if id == 8 { assert(s[5] == id); }
            else if id == 4 { assert(s[6] == id); } else if id == 9 { assert(s[7] == id); } else { assert(s[8] == id); }
        } else if sector_count == 15 {
            if id <= 8 {
                assert(s[2 * (id - 1)] == id);
            } else {
                assert(s[2 * (id - 9) + 1] == id);
            }
        } else {
            if id == 3 { assert(s[0] == id); } else if id == 13 { assert(s[1] == id); } else if id == 7 { assert(s[2] == id); }
            else if id == 1 { assert(s[3] == id); } else if id == 12 { assert(s[4] == id); } else if id == 6 { assert(s[5] == id); }
            else if id == 10 { assert(s[6] == id); } else if id == 5 { assert(s[7] == id); } else if id == 15 { assert(s[8] == id); }
            else if id == 9 { assert(s[9] == id); } else if id == 8 { assert(s[10] == id); } else if id == 2 { assert(s[11] == id); }
            else if id == 11 { assert(s[12] == id); } else if id == 4 { assert(s[13] == id); } else if id == 14 { assert(s[14] == id); }
            else if id == 16 { assert(s[15] == id); } else if id == 17 { assert(s[16] == id); } else { assert(s[17] == id); }
        }
    }
}


/// The format a set of IBM-style sectors read at 250 kbps belongs to:
/// Amstrad data or system ids, Atari ST (10 or more sectors, or an id of
/// 10 and up), else IBM PC.
pub open spec fn dd_format_of(s: Seq<DecodedSector>) -> DiskFormat {
    if any_id_in(s, 0xC1, 0xCA) {
        DiskFormat::AmstradCpcData
    } else if any_id_in(s, 0x41, 0x4A) {
        DiskFormat::AmstradCpcSystem
    } else if s.len() >= 10 || any_id_in(s, 10, 255) {
        DiskFormat::AtariSt
    } else {
        DiskFormat::IbmPc
    }
}

/// Recognises the format of sectors read at 250 kbps (see `dd_format_of`).
pub fn detect_dd_format(s: &[DecodedSector]) -> (f: DiskFormat)
    ensures
        f == dd_format_of(s@),
{
    if has_id_in(s, 0xC1, 0xCA) {
        DiskFormat::AmstradCpcData
    } else if has_id_in(s, 0x41, 0x4A) {
        DiskFormat::AmstradCpcSystem
    } else if s.len() >= 10 || has_id_in(s, 10, 255) {
        DiskFormat::AtariSt
    } else {
        DiskFormat::IbmPc
    }
}

/// What decoding a track gave: format, bit rate, PLL clock (sample ticks
/// per cell) and the sectors.
pub open spec fn decode_track_spec(
    format: DiskFormat,
    dd: Seq<bool>,
    b300: Seq<bool>,
    hd: Seq<bool>,
) -> (DiskFormat, u16, u32, Seq<DecodedSector>) {
    let ibm_dd = idam_scan(dd, 0, Seq::empty());
    let ibm_300 = idam_scan(b300, 0, Seq::empty());
    let ibm_hd = idam_scan(hd, 0, Seq::empty());
    let ami_dd = amiga_scan(dd, 0, Seq::empty());
    let ami_hd = amiga_scan(hd, 0, Seq::empty());
    match format {
        DiskFormat::AmigaDos => if ami_dd.len() > 0 {
            (DiskFormat::AmigaDos, 250, 144, ami_dd)
        } else if ami_hd.len() > 0 {
            (DiskFormat::AmigaDos, 500, 72, ami_hd)
        } else {
            (DiskFormat::AmigaDos, 250, 144, Seq::empty())
        },
        DiskFormat::AutoDetect => if ibm_dd.len() > 0 {
            (dd_format_of(ibm_dd), 250, 144, ibm_dd)
        } else if ibm_300.len() > 0 {
            (DiskFormat::IbmPc, 300, 120, ibm_300)
        } else if ami_dd.len() > 0 {
            (DiskFormat::AmigaDos, 250, 144, ami_dd)
        } else if ibm_hd.len() > 0 {
            (DiskFormat::IbmPc, 500, 72, ibm_hd)
        } else if ami_hd.len() > 0 {
            (DiskFormat::AmigaDos, 500, 72, ami_hd)
        } else {
            (DiskFormat::AutoDetect, 500, 72, Seq::empty())
        },
        _ => if ibm_dd.len() > 0 {
            (format, 250, 144, ibm_dd)
        } else if ibm_300.len() > 0 {
            (format, 300, 120, ibm_300)
        } else if ibm_hd.len() > 0 {
            (format, 500, 72, ibm_hd)
        } else {
            (format, if format == DiskFormat::IbmPc { 500 } else { 250 }, 144, Seq::empty())
        },
    }
}

/// Law: a chosen format is kept; the data rate is 250, 300 or 500 kbps;
/// a track left as auto-detect holds no sectors.
pub proof fn lemma_decode_track_shape(format: DiskFormat, dd: Seq<bool>, b300: Seq<bool>, hd: Seq<bool>)
    ensures
        format != DiskFormat::AutoDetect ==> decode_track_spec(format, dd, b300, hd).0 == format,
        decode_track_spec(format, dd, b300, hd).1 == 250 || decode_track_spec(format, dd, b300, hd).1 == 300
            || decode_track_spec(format, dd, b300, hd).1 == 500,
        decode_track_spec(format, dd, b300, hd).0 == DiskFormat::AutoDetect ==> decode_track_spec(
            format,
            dd,
            b300,
            hd,
        ).3.len() == 0,
{
}

/// Law: in auto-detect mode, whenever the IBM decode of the 250 kbps cells
/// finds sectors, those sectors are the result, at 250 kbps and 144 ticks
/// per cell, and the format follows their ids: Amstrad CPC data for an id in
/// 0xC1..=0xCA, else Amstrad CPC system for an id in 0x41..=0x4A, else
/// Atari ST for 10 or more sectors or an id of 10 or above, else IBM PC; ten
/// sectors with ids 1..=10 make an Atari ST track.
pub proof fn lemma_auto_detect_dd(dd: Seq<bool>, b300: Seq<bool>, hd: Seq<bool>)
    requires
        idam_scan(dd, 0, Seq::empty()).len() > 0,
    ensures
        ({
            let ibm = idam_scan(dd, 0, Seq::empty());
            let r = decode_track_spec(DiskFormat::AutoDetect, dd, b300, hd);
            &&& r.0 == (if exists|k: int| 0 <= k < ibm.len() && 0xC1 <= #[trigger] ibm[k].sec_id <= 0xCA {
                DiskFormat::AmstradCpcData
            } else if exists|k: int| 0 <= k < ibm.len() && 0x41 <= #[trigger] ibm[k].sec_id <= 0x4A {
                DiskFormat::AmstradCpcSystem
            } else if ibm.len() >= 10 || exists|k: int| 0 <= k < ibm.len() && #[trigger] ibm[k].sec_id >= 10 {
                DiskFormat::AtariSt
            } else {
                DiskFormat::IbmPc
            })
            &&& r.1 == 250
            &&& r.2 == 144
            &&& r.3 == ibm
            &&& (ibm.len() == 10 && forall|k: int| 0 <= k < 10 ==> #[trigger] ibm[k].sec_id == k + 1) ==> r.0
                == DiskFormat::AtariSt
        }),
{
    let ibm = idam_scan(dd, 0, Seq::empty());
    if ibm.len() == 10 && forall|k: int| 0 <= k < 10 ==> #[trigger] ibm[k].sec_id == k + 1 {
        assert(!any_id_in(ibm, 0xC1, 0xCA));
        assert(!any_id_in(ibm, 0x41, 0x4A));
    }
}

/// Law: decoded sectors always come with the bit rate and clock they were
/// decoded at (250 kbps at 144 ticks, 300 kbps at 120, 500 kbps at 72) and
/// are exactly what one decoder gave at that clock: IBM at any of the three,
/// Amiga at 250 or 500 kbps and only for the Amiga or auto-detect formats.
/// In auto-detect mode nothing decoded leaves the format undetected.
pub proof fn lemma_decode_track_sources(format: DiskFormat, dd: Seq<bool>, b300: Seq<bool>, hd: Seq<bool>)
    ensures
        ({
            let r = decode_track_spec(format, dd, b300, hd);
            &&& r.3.len() > 0 ==> {
                ||| r.1 == 250 && r.2 == 144 && r.3 == idam_scan(dd, 0, Seq::empty())
                ||| r.1 == 300 && r.2 == 120 && r.3 == idam_scan(b300, 0, Seq::empty())
                ||| r.1 == 500 && r.2 == 72 && r.3 == idam_scan(hd, 0, Seq::empty())
                ||| (format == DiskFormat::AmigaDos || format == DiskFormat::AutoDetect) && r.0
                    == DiskFormat::AmigaDos && r.1 == 250 && r.2 == 144 && r.3 == amiga_scan(dd, 0, Seq::empty())
                ||| (format == DiskFormat::AmigaDos || format == DiskFormat::AutoDetect) && r.0
                    == DiskFormat::AmigaDos && r.1 == 500 && r.2 == 72 && r.3 == amiga_scan(hd, 0, Seq::empty())
            }
            &&& (format == DiskFormat::AutoDetect && r.3.len() == 0) ==> r.0 == DiskFormat::AutoDetect
        }),
{
}

/// Decodes a track from the cells recovered at the three PLL clocks
/// (144 ticks: 250 kbps, 120 ticks: 300 kbps, 72 ticks: 500 kbps), trying
/// the decoders of the format in order (see `decode_track_spec`).
pub fn decode_track_bits(
    format: DiskFormat,
    bits_dd: &[bool],
    bits_300: &[bool],
    bits_hd: &[bool],
) -> (r: (DiskFormat, u16, u32, Vec<DecodedSector>))
    ensures
        (r.0, r.1, r.2, r.3@) == decode_track_spec(format, bits_dd@, bits_300@, bits_hd@),
        (format == DiskFormat::AutoDetect && idam_scan(bits_dd@, 0, Seq::empty()).len() > 0) ==> {
            let ibm = idam_scan(bits_dd@, 0, Seq::empty());
            &&& r.0 == (if exists|k: int| 0 <= k < ibm.len() && 0xC1 <= #[trigger] ibm[k].sec_id <= 0xCA {
                DiskFormat::AmstradCpcData
            } else if exists|k: int| 0 <= k < ibm.len() && 0x41 <= #[trigger] ibm[k].sec_id <= 0x4A {
                DiskFormat::AmstradCpcSystem
            } else if ibm.len() >= 10 || exists|k: int| 0 <= k < ibm.len() && #[trigger] ibm[k].sec_id >= 10 {
                DiskFormat::AtariSt
            } else {
                DiskFormat::IbmPc
            })
            &&& r.1 == 250
            &&& r.3@ == ibm
        },
{
    proof {
        if idam_scan(bits_dd@, 0, Seq::empty()).len() > 0 {
            lemma_auto_detect_dd(bits_dd@, bits_300@, bits_hd@);
        }
    }
    match format {
        DiskFormat::AmigaDos => {
            let dd = decode_amiga_sectors_from_bits(bits_dd);
            if dd.len() > 0 {
                return (DiskFormat::AmigaDos, 250, 144, dd);
            }
            let hd = decode_amiga_sectors_from_bits(bits_hd);
            if hd.len() > 0 {
                return (DiskFormat::AmigaDos, 500, 72, hd);
            }
            (DiskFormat::AmigaDos, 250, 144, Vec::new())
        },
        DiskFormat::AutoDetect => {
            let ibm_dd = decode_idam_sectors_from_bits(bits_dd);
            if ibm_dd.len() > 0 {
                let detected = detect_dd_format(ibm_dd.as_slice());
                return (detected, 250, 144, ibm_dd);
            }
            let ibm_300 = decode_idam_sectors_from_bits(bits_300);
            if ibm_300.len() > 0 {
                return (DiskFormat::IbmPc, 300, 120, ibm_300);
            }
            let ami_dd = decode_amiga_sectors_from_bits(bits_dd);
            if ami_dd.len() > 0 {
                return (DiskFormat::AmigaDos, 250, 144, ami_dd);
            }
            let ibm_hd = decode_idam_sectors_from_bits(bits_hd);
            if ibm_hd.len() > 0 {
                return (DiskFormat::IbmPc, 500, 72, ibm_hd);
            }
            let ami_hd = decode_amiga_sectors_from_bits(bits_hd);
            if ami_hd.len() > 0 {
                return (DiskFormat::AmigaDos, 500, 72, ami_hd);
            }
            (DiskFormat::AutoDetect, 500, 72, Vec::new())
        },
        _ => {
            let ibm_dd = decode_idam_sectors_from_bits(bits_dd);
            if ibm_dd.len() > 0 {
                return (format, 250, 144, ibm_dd);
            }
            let ibm_300 = decode_idam_sectors_from_bits(bits_300);
            if ibm_300.len() > 0 {
                return (format, 300, 120, ibm_300);
            }
            let ibm_hd = decode_idam_sectors_from_bits(bits_hd);
            if ibm_hd.len() > 0 {
                return (format, 500, 72, ibm_hd);
            }
            let rate: u16 = match format {
                DiskFormat::IbmPc => 500,
                _ => 250,
            };
            (format, rate, 144, Vec::new())
        },
    }
}

/// The sector ids of a status list.
pub open spec fn info_ids(list: Seq<SectorInfo>) -> Seq<DecodedSector> {
    Seq::new(list.len(), |k: int| crate::sectors::sector_of(list[k].track, 0, list[k].sec_id, list[k].size_code, list[k].crc_ok, crate::sectors::SectorStatus::Good))
}

/// The sector ids the status panel expects for the shown sectors, the
/// chosen format, the bit rate and the sector count.
pub open spec fn status_ids_spec(list: Seq<SectorInfo>, format: DiskFormat, bitrate: u16, sector_count: u8) -> Seq<u8> {
    let s = info_ids(list);
    if any_id_in(s, 0xC1, 0xCA) || format == DiskFormat::AmstradCpcData {
        cpc_ids(s, 0xC1, 0xCA, 0xC9)
    } else if any_id_in(s, 0x41, 0x4A) || format == DiskFormat::AmstradCpcSystem {
        cpc_ids(s, 0x41, 0x4A, 0x49)
    } else if format == DiskFormat::AmigaDos || any_id_in(s, 0, 0) {
        id_range(0, if bitrate == 500 { 22 } else { 11 })
    } else if format == DiskFormat::AtariSt {
        let m = max_sec_id(s, if sector_count > 9 { sector_count } else { 9 });
        id_range(1, if m >= 11 { 11 } else if m == 10 { 10 } else { 9 })
    } else {
        id_range(1, if sector_count > 0 { sector_count as nat } else if bitrate == 500 { 18 } else { 9 })
    }
}

fn info_as_sectors(list: &[SectorInfo]) -> (v: Vec<DecodedSector>)
    ensures
        v@ == info_ids(list@),
{
    let mut v: Vec<DecodedSector> = Vec::new();
    let mut k: usize = 0;
    while k < list.len()
        invariant
            k <= list@.len(),
            v@ == info_ids(list@).subrange(0, k as int),
        decreases list@.len() - k,
    {
        let i = list[k];
        v.push(DecodedSector { cyl: i.track, head: 0, sec_id: i.sec_id, size_code: i.size_code, crc_ok: i.crc_ok, status: crate::sectors::SectorStatus::Good });
        assert(v@ =~= info_ids(list@).subrange(0, k + 1));
        k = k + 1;
    }
    assert(info_ids(list@).subrange(0, list@.len() as int) =~= info_ids(list@));
    v
}

/// The sector ids the status panel expects (see `status_ids_spec`).
pub fn get_status_expected_sector_ids(sectors: &[SectorInfo], disk_format: DiskFormat, bitrate: u16, sector_count: u8) -> (v: Vec<u8>)
    ensures
        v@ == status_ids_spec(sectors@, disk_format, bitrate, sector_count),
{
    let s = info_as_sectors(sectors);
    let s = s.as_slice();
    if has_id_in(s, 0xC1, 0xCA) || disk_format == DiskFormat::AmstradCpcData {
        cpc_expected(s, 0xC1, 0xCA, 0xC9)
    } else if has_id_in(s, 0x41, 0x4A) || disk_format == DiskFormat::AmstradCpcSystem {
        cpc_expected(s, 0x41, 0x4A, 0x49)
    } else if disk_format == DiskFormat::AmigaDos || has_id_in(s, 0, 0) {
        make_id_range(
            0,
            if bitrate == 500 {
                22
            } else {
                11
            },
        )
    } else if disk_format == DiskFormat::AtariSt {
        let m = max_sector_id(s, if sector_count > 9 {
            sector_count
        } else {
            9
        });
        make_id_range(
            1,
            if m >= 11 {
                11
            } else if m == 10 {
                10
            } else {
                9
            },
        )
    } else {
        let count: u8 = if sector_count > 0 {
            sector_count
        } else if bitrate == 500 {
            18
        } else {
            9
        };
        make_id_range_inclusive(count)
    }
}
} // verus!
