//! What the IBM sector decoder reads back from a track that the
//! synthesiser formatted.
use vstd::prelude::*;
use crate::ibm::{
    cells_u16, dam_limit, dam_status, idam_add, idam_header, idam_scan, idam_status, mfm_byte_at, mfm_bytes,
    mfm_sync_at, valid_sector_id,
};
use crate::crc::{crc16_spec, lemma_crc16_append_is_zero};
use crate::sectors::{sector_of, DecodedSector, SectorStatus};
use crate::mfm::{
    bits_value, lemma_bits_value_bound, lemma_mfm_decode_encode, mfm_encode_word, pow2_u32, u16_bits,
};
use crate::readback::{lemma_bits_value_injective, lemma_find_absent};
use crate::synth::{
    data_field_crc, ibm_layout, ibm_sector_syms, ibm_sectors_syms, ibm_track_body, ibm_track_syms, id_field_crc,
    lemma_ibm_sectors_len, lemma_syms_bits_len, pad_count, rep, sym_bits, sym_last, syms_bits, syms_last,
    track_bits_spec,
};
use crate::protocol::PresetProfile;

verus! {

/// Shift facts behind reading a word cell by cell.
proof fn lemma_u16_shift_facts(w: u16, sh: u16)
    by (bit_vector)
    ensures
        (w >> 15u16) & 1u16 == (w >> 15u16),
        (w >> 15u16) <= 1u16,
        sh < 15u16 ==> (w >> sh) as nat == 2 * ((w >> ((sh + 1) as u16)) as nat) + ((w >> sh) & 1u16) as nat,
        (w >> sh) & 1u16 <= 1u16,
        w >> 0u16 == w,
{
}

/// The first `k` cells of a word read back as its top `k` bits.
proof fn lemma_u16_prefix_value(w: u16, k: nat)
    requires
        1 <= k <= 16,
    ensures
        bits_value(u16_bits(w).subrange(0, k as int)) == (w >> ((16 - k) as u16)) as nat,
    decreases k,
{
    let s = u16_bits(w).subrange(0, k as int);
    if k == 1 {
        assert(s.drop_last() =~= Seq::<bool>::empty());
        lemma_u16_shift_facts(w, 0);
        assert(s.last() == ((w >> 15u16) & 1u16 == 1u16));
        assert(bits_value(s.drop_last()) == 0);
        assert(bits_value(s) == 2 * bits_value(s.drop_last()) + (if s.last() { 1nat } else { 0nat }));
        assert(bits_value(s) == (w >> 15u16) as nat);
    } else {
        lemma_u16_prefix_value(w, (k - 1) as nat);
        assert(s.drop_last() =~= u16_bits(w).subrange(0, k - 1));
        let sh: u16 = (16 - k) as u16;
        lemma_u16_shift_facts(w, sh);
        assert(sh + 1 == 17 - k);
        assert(s.last() == ((w >> sh) & 1u16 == 1u16));
        let hi: u16 = (17 - k) as u16;
        assert(bits_value(s.drop_last()) == (w >> hi) as nat);
        assert(bits_value(s) == 2 * bits_value(s.drop_last()) + (if s.last() { 1nat } else { 0nat }));
        assert(bits_value(s) == (w >> sh) as nat);
    }
}

/// A window of 16 cells reads as `w` exactly when it holds the cells of `w`.
proof fn lemma_cells_u16_is(bits: Seq<bool>, p: int, w: u16)
    requires
        0 <= p,
        p + 16 <= bits.len(),
    ensures
        (cells_u16(bits, p) == w) <==> (bits.subrange(p, p + 16) == u16_bits(w)),
{
    let s = bits.subrange(p, p + 16);
    lemma_u16_prefix_value(w, 16);
    assert(u16_bits(w).subrange(0, 16) =~= u16_bits(w));
    lemma_u16_shift_facts(w, 0);
    lemma_bits_value_bound(s);
    reveal_with_fuel(pow2_u32, 17);
    assert(pow2_u32(16) == 0x1_0000);
    if cells_u16(bits, p) == w {
        assert(bits_value(s) == w as nat);
        lemma_bits_value_injective(s, u16_bits(w));
    }
}

/// Cell `t` of symbol `j` of an MFM symbol stream, and the data bit left
/// before symbol `j`.
proof fn lemma_syms_index(prev: bool, syms: Seq<Option<u8>>, j: int, t: int)
    requires
        0 <= j < syms.len(),
        0 <= t < 16,
    ensures
        syms_bits(prev, syms).len() == 16 * syms.len(),
        syms_bits(prev, syms)[16 * j + t] == sym_bits(syms_last(prev, syms.subrange(0, j)), syms[j])[t],
    decreases syms.len(),
{
    lemma_syms_bits_len(prev, syms);
    lemma_syms_bits_len(prev, syms.drop_last());
    if j < syms.len() - 1 {
        lemma_syms_index(prev, syms.drop_last(), j, t);
        assert(syms.drop_last().subrange(0, j) =~= syms.subrange(0, j));
    } else {
        assert(syms.subrange(0, j) =~= syms.drop_last());
    }
}

/// The data bit left after `j + 1` symbols.
proof fn lemma_syms_last_step(prev: bool, syms: Seq<Option<u8>>, j: int)
    requires
        0 <= j < syms.len(),
    ensures
        syms_last(prev, syms.subrange(0, j + 1)) == sym_last(syms_last(prev, syms.subrange(0, j)), syms[j]),
{
    assert(syms.subrange(0, j + 1).drop_last() =~= syms.subrange(0, j));
}

/// The last cell of a symbol is the data bit it leaves.
proof fn lemma_sym_last_cell(prev: bool, s: Option<u8>)
    ensures
        sym_bits(prev, s)[15] == sym_last(prev, s),
{
    match s {
        Some(b) => {
            let w = mfm_encode_word(prev, b);
            assert(((w >> 0u16) & 1u16 == 1u16) == (b & 1u8 == 1u8)) by (bit_vector)
                requires
                    w == mfm_encode_word(prev, b),
            ;
        },
        None => {
            assert((0x4489u16 >> 0u16) & 1u16 == 1u16) by (bit_vector);
        },
    }
}

/// In the cells of an encoded byte, no clock cell is a zero between two
/// zero cells (`x` is the data bit before the byte).
proof fn lemma_byte_clock_rule(x: bool, b: u8, i: int)
    requires
        0 <= i < 16,
        i % 2 == 0,
    ensures
        ({
            let c = u16_bits(mfm_encode_word(x, b));
            c[i] || c[i + 1] || (if i == 0 { x } else { c[i - 1] })
        }),
{
    let w = mfm_encode_word(x, b);
    assert({
        let w = mfm_encode_word(x, b);
        &&& ((w >> 15u16) & 1u16 == 1u16) || ((w >> 14u16) & 1u16 == 1u16) || x
        &&& ((w >> 13u16) & 1u16 == 1u16) || ((w >> 12u16) & 1u16 == 1u16) || ((w >> 14u16) & 1u16 == 1u16)
        &&& ((w >> 11u16) & 1u16 == 1u16) || ((w >> 10u16) & 1u16 == 1u16) || ((w >> 12u16) & 1u16 == 1u16)
        &&& ((w >> 9u16) & 1u16 == 1u16) || ((w >> 8u16) & 1u16 == 1u16) || ((w >> 10u16) & 1u16 == 1u16)
        &&& ((w >> 7u16) & 1u16 == 1u16) || ((w >> 6u16) & 1u16 == 1u16) || ((w >> 8u16) & 1u16 == 1u16)
        &&& ((w >> 5u16) & 1u16 == 1u16) || ((w >> 4u16) & 1u16 == 1u16) || ((w >> 6u16) & 1u16 == 1u16)
        &&& ((w >> 3u16) & 1u16 == 1u16) || ((w >> 2u16) & 1u16 == 1u16) || ((w >> 4u16) & 1u16 == 1u16)
        &&& ((w >> 1u16) & 1u16 == 1u16) || ((w >> 0u16) & 1u16 == 1u16) || ((w >> 2u16) & 1u16 == 1u16)
    }) by (bit_vector);
}

/// The sixteen cells of the sync word 0x4489.
proof fn lemma_sync_word_cells()
    ensures
        ({
            let c = u16_bits(0x4489u16);
            !c[0] && c[1] && !c[2] && !c[3] && !c[4] && c[5] && !c[6] && !c[7] && c[8] && !c[9] && !c[10] && !c[11] && c[12] && !c[13] && !c[14] && c[15]
        }),
{
    assert({
        &&& (0x4489u16 >> 15u16) & 1u16 == 0u16
        &&& (0x4489u16 >> 14u16) & 1u16 == 1u16
        &&& (0x4489u16 >> 13u16) & 1u16 == 0u16
        &&& (0x4489u16 >> 12u16) & 1u16 == 0u16
        &&& (0x4489u16 >> 11u16) & 1u16 == 0u16
        &&& (0x4489u16 >> 10u16) & 1u16 == 1u16
        &&& (0x4489u16 >> 9u16) & 1u16 == 0u16
        &&& (0x4489u16 >> 8u16) & 1u16 == 0u16
        &&& (0x4489u16 >> 7u16) & 1u16 == 1u16
        &&& (0x4489u16 >> 6u16) & 1u16 == 0u16
        &&& (0x4489u16 >> 5u16) & 1u16 == 0u16
        &&& (0x4489u16 >> 4u16) & 1u16 == 0u16
        &&& (0x4489u16 >> 3u16) & 1u16 == 1u16
        &&& (0x4489u16 >> 2u16) & 1u16 == 0u16
        &&& (0x4489u16 >> 1u16) & 1u16 == 0u16
        &&& (0x4489u16 >> 0u16) & 1u16 == 1u16
    }) by (bit_vector);
}

/// A clock cell that is a zero between two zeros.
pub open spec fn missing_clock(bits: Seq<bool>, v: int) -> bool {
    &&& 1 <= v
    &&& v + 1 < bits.len()
    &&& v % 2 == 0
    &&& !bits[v - 1]
    &&& !bits[v]
    &&& !bits[v + 1]
}

/// In an encoded symbol stream a missing clock occurs only at cell 10 of a
/// sync symbol.
proof fn lemma_missing_clock_in_sync(prev: bool, syms: Seq<Option<u8>>, v: int)
    requires
        missing_clock(syms_bits(prev, syms), v),
    ensures
        v % 16 == 10,
        syms[v / 16] is None,
{
    let bits = syms_bits(prev, syms);
    lemma_syms_bits_len(prev, syms);
    let j = v / 16;
    let i = v % 16;
    assert(v == 16 * j + i);
    let x = syms_last(prev, syms.subrange(0, j));
    let c = sym_bits(x, syms[j]);
    lemma_syms_index(prev, syms, j, i);
    lemma_syms_index(prev, syms, j, i + 1);
    if i > 0 {
        lemma_syms_index(prev, syms, j, i - 1);
        assert(bits[v - 1] == c[i - 1]);
    } else {
        lemma_syms_index(prev, syms, j - 1, 15);
        lemma_sym_last_cell(syms_last(prev, syms.subrange(0, j - 1)), syms[j - 1]);
        lemma_syms_last_step(prev, syms, j - 1);
        assert(bits[v - 1] == x);
    }
    match syms[j] {
        Some(b) => {
            lemma_byte_clock_rule(x, b, i);
            assert(false);
        },
        None => {
            lemma_sync_word_cells();
            if i != 10 {
                assert(false);
            }
        },
    }
}

/// The 16 cells of symbol `j`.
proof fn lemma_sym_window(prev: bool, syms: Seq<Option<u8>>, j: int)
    requires
        0 <= j < syms.len(),
    ensures
        syms_bits(prev, syms).len() == 16 * syms.len(),
        syms_bits(prev, syms).subrange(16 * j, 16 * j + 16) == sym_bits(
            syms_last(prev, syms.subrange(0, j)),
            syms[j],
        ),
{
    lemma_syms_bits_len(prev, syms);
    let bits = syms_bits(prev, syms);
    let c = sym_bits(syms_last(prev, syms.subrange(0, j)), syms[j]);
    assert forall|t: int| 0 <= t < 16 implies #[trigger] bits.subrange(16 * j, 16 * j + 16)[t] == c[t] by {
        lemma_syms_index(prev, syms, j, t);
    }
    assert(bits.subrange(16 * j, 16 * j + 16) =~= c);
}

/// A sync symbol reads as the sync word; a data symbol reads as its byte.
pub proof fn lemma_symbol_reads(prev: bool, syms: Seq<Option<u8>>, j: int)
    requires
        0 <= j < syms.len(),
    ensures
        syms[j] is None ==> cells_u16(syms_bits(prev, syms), 16 * j) == 0x4489u16,
        syms[j] is Some ==> mfm_byte_at(syms_bits(prev, syms), 16 * j) == syms[j]->0,
{
    let bits = syms_bits(prev, syms);
    let x = syms_last(prev, syms.subrange(0, j));
    lemma_sym_window(prev, syms, j);
    match syms[j] {
        Some(b) => {
            lemma_cells_u16_is(bits, 16 * j, mfm_encode_word(x, b));
            lemma_mfm_decode_encode(x, b);
        },
        None => {
            lemma_cells_u16_is(bits, 16 * j, 0x4489u16);
        },
    }
}

/// A window reading as the sync word has a missing clock cell: at offset
/// 10 when it starts on a clock cell, at offset 3 otherwise.
proof fn lemma_sync_window(bits: Seq<bool>, p: int)
    requires
        0 <= p,
        p + 16 <= bits.len(),
        cells_u16(bits, p) == 0x4489u16,
    ensures
        p % 2 == 0 ==> missing_clock(bits, p + 10),
        p % 2 == 1 ==> missing_clock(bits, p + 3),
{
    lemma_cells_u16_is(bits, p, 0x4489u16);
    lemma_sync_word_cells();
    let win = bits.subrange(p, p + 16);
    assert(bits[p + 2] == win[2] && bits[p + 3] == win[3] && bits[p + 4] == win[4]);
    assert(bits[p + 9] == win[9] && bits[p + 10] == win[10] && bits[p + 11] == win[11]);
}

/// In an encoded symbol stream the decoder's sync test holds only at the
/// first of three sync symbols.
pub proof fn lemma_sync_only_at_symbols(prev: bool, syms: Seq<Option<u8>>, p: int)
    requires
        0 <= p,
        p + 48 <= 16 * syms.len(),
        mfm_sync_at(syms_bits(prev, syms), p),
    ensures
        p % 16 == 0,
        syms[p / 16] is None,
        syms[p / 16 + 1] is None,
        syms[p / 16 + 2] is None,
{
    let bits = syms_bits(prev, syms);
    lemma_syms_bits_len(prev, syms);
    lemma_sync_window(bits, p);
    lemma_sync_window(bits, p + 16);
    lemma_sync_window(bits, p + 32);
    if p % 2 == 0 {
        lemma_missing_clock_in_sync(prev, syms, p + 10);
        lemma_missing_clock_in_sync(prev, syms, p + 26);
        lemma_missing_clock_in_sync(prev, syms, p + 42);
        assert((p + 26) / 16 == p / 16 + 1);
        assert((p + 42) / 16 == p / 16 + 2);
    } else {
        lemma_missing_clock_in_sync(prev, syms, p + 3);
        lemma_missing_clock_in_sync(prev, syms, p + 19);
        let j = (p + 3) / 16;
        assert(p == 16 * j + 7);
        assert((p + 19) / 16 == j + 1);
        lemma_sym_window(prev, syms, j + 1);
        lemma_cells_u16_is(bits, p, 0x4489u16);
        lemma_sync_word_cells();
        assert(bits[p + 10] == bits.subrange(p, p + 16)[10]);
        assert(bits[p + 10] == bits.subrange(16 * (j + 1), 16 * (j + 1) + 16)[1]);
        assert(false);
    }
}

/// Three sync symbols in a row pass the decoder's sync test at the first.
pub proof fn lemma_sync_symbols_found(prev: bool, syms: Seq<Option<u8>>, j: int)
    requires
        0 <= j,
        j + 3 <= syms.len(),
        syms[j] is None,
        syms[j + 1] is None,
        syms[j + 2] is None,
    ensures
        mfm_sync_at(syms_bits(prev, syms), 16 * j),
{
    lemma_symbol_reads(prev, syms, j);
    lemma_symbol_reads(prev, syms, j + 1);
    lemma_symbol_reads(prev, syms, j + 2);
    assert(16 * (j + 1) == 16 * j + 16);
    assert(16 * (j + 2) == 16 * j + 32);
}

/// Symbol `t` of a formatted IBM sector: gap, sync, ID field, gap 2,
/// sync, data field, gap 3.
pub open spec fn sector_sym_at(cyl: u8, head: u8, sec_id: u8, gap2: nat, fill: u8, t: int) -> Option<u8> {
    let idc = id_field_crc(cyl, head, sec_id);
    let dc = data_field_crc(fill);
    if t < 12 {
        Some(0x00u8)
    } else if t < 15 {
        None
    } else if t == 15 {
        Some(0xFEu8)
    } else if t == 16 {
        Some(cyl)
    } else if t == 17 {
        Some(head)
    } else if t == 18 {
        Some(sec_id)
    } else if t == 19 {
        Some(2u8)
    } else if t == 20 {
        Some((idc >> 8u16) as u8)
    } else if t == 21 {
        Some((idc & 0xFFu16) as u8)
    } else if t < 22 + gap2 {
        Some(0x4Eu8)
    } else if t < 34 + gap2 {
        Some(0x00u8)
    } else if t < 37 + gap2 {
        None
    } else if t == 37 + gap2 {
        Some(0xFBu8)
    } else if t < 550 + gap2 {
        Some(fill)
    } else if t == 550 + gap2 {
        Some((dc >> 8u16) as u8)
    } else if t == 551 + gap2 {
        Some((dc & 0xFFu16) as u8)
    } else {
        Some(0x4Eu8)
    }
}

/// The symbols of a formatted IBM sector, one by one.
proof fn lemma_sector_shape(cyl: u8, head: u8, sec_id: u8, gap2: nat, gap3: nat, fill: u8)
    ensures
        ibm_sector_syms(cyl, head, sec_id, gap2, gap3, fill).len() == 552 + gap2 + gap3,
        forall|t: int| 0 <= t < 552 + gap2 + gap3 ==> #[trigger] ibm_sector_syms(cyl, head, sec_id, gap2, gap3, fill)[t]
            == sector_sym_at(cyl, head, sec_id, gap2, fill, t),
{
    let ss = ibm_sector_syms(cyl, head, sec_id, gap2, gap3, fill);
    assert(ss.len() == 552 + gap2 + gap3);
    assert forall|t: int| 0 <= t < 552 + gap2 + gap3 implies #[trigger] ss[t] == sector_sym_at(
        cyl,
        head,
        sec_id,
        gap2,
        fill,
        t,
    ) by {
        if t < 12 {
        } else if t < 15 {
        } else if t < 22 {
        } else if t < 22 + gap2 {
        } else if t < 34 + gap2 {
        } else if t < 37 + gap2 {
        } else if t < 38 + gap2 {
        } else if t < 550 + gap2 {
        } else if t < 552 + gap2 {
        } else {
        }
    }
}

/// Symbol `t` of sector `m` among the first `n` sectors.
proof fn lemma_sectors_syms_index(
    cyl: u8,
    head: u8,
    first: u8,
    n: nat,
    gap2: nat,
    gap3: nat,
    fill: u8,
    m: int,
    t: int,
)
    requires
        0 <= m < n,
        0 <= t < 552 + gap2 + gap3,
    ensures
        ibm_sectors_syms(cyl, head, first, n, gap2, gap3, fill).len() == n * (552 + gap2 + gap3),
        ibm_sectors_syms(cyl, head, first, n, gap2, gap3, fill)[m * (552 + gap2 + gap3) + t]
            == ibm_sector_syms(cyl, head, (first + m) as u8, gap2, gap3, fill)[t],
    decreases n,
{
    let l = 552 + gap2 + gap3;
    let k = (n - 1) as nat;
    lemma_ibm_sectors_len(cyl, head, first, n, gap2, gap3, fill);
    lemma_ibm_sectors_len(cyl, head, first, k, gap2, gap3, fill);
    lemma_sector_shape(cyl, head, (first + k) as u8, gap2, gap3, fill);
    assert(ibm_sectors_syms(cyl, head, first, n, gap2, gap3, fill) == ibm_sectors_syms(cyl, head, first, k, gap2, gap3, fill)
        + ibm_sector_syms(cyl, head, (first + n - 1) as u8, gap2, gap3, fill));
    if m < k {
        lemma_sectors_syms_index(cyl, head, first, k, gap2, gap3, fill, m, t);
        assert(m * l + t < k * l) by (nonlinear_arith)
            requires
                0 <= m < k,
                0 <= t < l,
        ;
    } else {
        assert(m * l == k * l);
    }
}

/// Symbols of the formatted IBM track of a preset.
pub open spec fn ibm_syms(p: PresetProfile, cyl: u8, head: u8) -> Seq<Option<u8>> {
    let l = ibm_layout(p);
    ibm_track_syms(cyl, head, l.0, l.1, l.2, l.3, l.4, 0xE5, l.5)
}

/// Symbols per sector of a preset's IBM track.
pub open spec fn sector_len(p: PresetProfile) -> nat {
    552 + ibm_layout(p).3 + ibm_layout(p).4
}

/// First symbol of sector `m` of a preset's IBM track.
pub open spec fn sector_base(p: PresetProfile, m: int) -> int {
    ibm_layout(p).2 + m * sector_len(p)
}

/// Where the sectors of a preset's IBM track lie, and that gap 1 and the
/// fill after the last sector are 0x4E bytes.
proof fn lemma_track_layout(p: PresetProfile, cyl: u8, head: u8)
    requires
        p != PresetProfile::Amiga35Dd,
    ensures
        ibm_syms(p, cyl, head).len() >= sector_base(p, ibm_layout(p).0 as int),
        ibm_syms(p, cyl, head).len() <= 200_000,
        forall|q: int| 0 <= q < ibm_layout(p).2 ==> #[trigger] ibm_syms(p, cyl, head)[q] == Some(0x4Eu8),
        forall|q: int| sector_base(p, ibm_layout(p).0 as int) <= q < ibm_syms(p, cyl, head).len()
            ==> #[trigger] ibm_syms(p, cyl, head)[q] == Some(0x4Eu8),
{
    let l = ibm_layout(p);
    let n = l.0 as nat;
    let sl = sector_len(p);
    lemma_ibm_sectors_len(cyl, head, l.1, n, l.3, l.4, 0xE5);
    let body = ibm_track_body(cyl, head, l.0, l.1, l.2, l.3, l.4, 0xE5);
    assert(body.len() == l.2 + n * sl);
    assert(n * sl <= 18 * 660) by (nonlinear_arith)
        requires
            n <= 18,
            sl <= 660,
    ;
    let syms = ibm_syms(p, cyl, head);
    let pad = pad_count(16 * body.len(), l.5 + l.5 / 64);
    assert(syms == body + rep(0x4E, pad));
    assert(pad <= 110_000);
}

/// Symbol `t` of sector `m` of a preset's IBM track.
proof fn lemma_track_sym(p: PresetProfile, cyl: u8, head: u8, m: int, t: int)
    requires
        p != PresetProfile::Amiga35Dd,
        0 <= m < ibm_layout(p).0,
        0 <= t < sector_len(p),
    ensures
        sector_base(p, m) + t < sector_base(p, ibm_layout(p).0 as int),
        ibm_syms(p, cyl, head)[sector_base(p, m) + t] == sector_sym_at(
            cyl,
            head,
            (ibm_layout(p).1 + m) as u8,
            ibm_layout(p).3,
            0xE5,
            t,
        ),
{
    let l = ibm_layout(p);
    let n = l.0 as nat;
    let sl = sector_len(p);
    lemma_track_layout(p, cyl, head);
    lemma_sectors_syms_index(cyl, head, l.1, n, l.3, l.4, 0xE5, m, t);
    lemma_sector_shape(cyl, head, (l.1 + m) as u8, l.3, l.4, 0xE5);
    assert(m * sl + t < n * sl) by (nonlinear_arith)
        requires
            0 <= m < n,
            0 <= t < sl,
    ;
    let body = ibm_track_body(cyl, head, l.0, l.1, l.2, l.3, l.4, 0xE5);
    let pad = pad_count(16 * body.len(), l.5 + l.5 / 64);
    assert(ibm_syms(p, cyl, head) == body + rep(0x4E, pad));
}

/// Symbols `a` to `b` (excluded) are all data bytes.
pub open spec fn all_data(syms: Seq<Option<u8>>, a: int, b: int) -> bool {
    forall|q: int| a <= q < b ==> (#[trigger] syms[q]) is Some
}

/// The decoder's sync test fails wherever the symbols are data bytes.
proof fn lemma_no_sync_in(prev: bool, syms: Seq<Option<u8>>, a: int, b: int, p: int)
    requires
        all_data(syms, a, b),
        0 <= 16 * a <= p < 16 * b,
        p + 48 <= 16 * syms.len(),
    ensures
        !mfm_sync_at(syms_bits(prev, syms), p),
{
    if mfm_sync_at(syms_bits(prev, syms), p) {
        lemma_sync_only_at_symbols(prev, syms, p);
        assert(a <= p / 16 < b);
    }
}

/// The sector scan passes over data bytes without stopping.
proof fn lemma_scan_skip(prev: bool, syms: Seq<Option<u8>>, a: int, b: int, i: int, e: int, acc: Seq<DecodedSector>)
    requires
        all_data(syms, a, b),
        0 <= 16 * a <= i <= e <= 16 * b,
    ensures
        idam_scan(syms_bits(prev, syms), i, acc) == idam_scan(syms_bits(prev, syms), e, acc),
    decreases e - i,
{
    let bits = syms_bits(prev, syms);
    lemma_syms_bits_len(prev, syms);
    if i < e && i + 160 <= bits.len() {
        lemma_no_sync_in(prev, syms, a, b, i);
        lemma_scan_skip(prev, syms, a, b, i + 1, e, acc);
    }
}

/// The data mark search passes over data bytes without stopping.
proof fn lemma_dam_skip(prev: bool, syms: Seq<Option<u8>>, a: int, b: int, pos: int, e: int, limit: int, size_code: u8)
    requires
        all_data(syms, a, b),
        0 <= 16 * a <= pos <= e <= 16 * b,
        limit <= 16 * syms.len(),
    ensures
        dam_status(syms_bits(prev, syms), pos, limit, size_code) == dam_status(
            syms_bits(prev, syms),
            e,
            limit,
            size_code,
        ),
    decreases e - pos,
{
    let bits = syms_bits(prev, syms);
    lemma_syms_bits_len(prev, syms);
    if pos < e && pos + 64 <= limit {
        lemma_no_sync_in(prev, syms, a, b, pos);
        lemma_dam_skip(prev, syms, a, b, pos + 1, e, limit, size_code);
    }
}

/// The ID field of sector `m` of a preset's IBM track, as the decoder reads
/// it after the sync at its first sync symbol, and the sector's status.
#[verifier::spinoff_prover]
#[verifier::rlimit(60)]
proof fn lemma_id_field(p: PresetProfile, cyl: u8, head: u8, m: int)
    requires
        p != PresetProfile::Amiga35Dd,
        0 <= m < ibm_layout(p).0,
    ensures
        ({
            let bits = syms_bits(false, ibm_syms(p, cyl, head));
            let i = 16 * (sector_base(p, m) + 12);
            let hdr = idam_header(bits, i);
            &&& hdr[3] == 0xFEu8
            &&& hdr[4] == cyl
            &&& hdr[5] == head
            &&& hdr[6] == (ibm_layout(p).1 + m) as u8
            &&& hdr[7] == 2u8
            &&& crc16_spec(hdr) == 0
        }),
{
    let syms = ibm_syms(p, cyl, head);
    let bits = syms_bits(false, syms);
    let b = sector_base(p, m);
    let i = 16 * (b + 12);
    let sec = (ibm_layout(p).1 + m) as u8;
    let hdr = idam_header(bits, i);
    let bs = mfm_bytes(bits, i + 48, 7);
    lemma_track_layout(p, cyl, head);
    assert forall|u: int| 0 <= u < 7 implies #[trigger] bs[u] == syms[b + 15 + u]->0 by {
        lemma_track_sym(p, cyl, head, m, 15 + u);
        lemma_symbol_reads(false, syms, b + 15 + u);
        assert(i + 48 + 16 * u == 16 * (b + 15 + u));
    }
    let idc = id_field_crc(cyl, head, sec);
    let data = seq![0xA1u8, 0xA1, 0xA1, 0xFE, cyl, head, sec, 2];
    lemma_track_sym(p, cyl, head, m, 15);
    lemma_track_sym(p, cyl, head, m, 16);
    lemma_track_sym(p, cyl, head, m, 17);
    lemma_track_sym(p, cyl, head, m, 18);
    lemma_track_sym(p, cyl, head, m, 19);
    lemma_track_sym(p, cyl, head, m, 20);
    lemma_track_sym(p, cyl, head, m, 21);
    assert(hdr =~= data.push((idc >> 8u16) as u8).push((idc & 0xFFu16) as u8));
    lemma_crc16_append_is_zero(data);
}

/// The data field of sector `m`: its sync, its 0xFB mark and a CRC that
/// checks, so the data mark search ends there with a good sector.
#[verifier::spinoff_prover]
#[verifier::rlimit(60)]
proof fn lemma_data_field(p: PresetProfile, cyl: u8, head: u8, m: int, limit: int)
    requires
        p != PresetProfile::Amiga35Dd,
        0 <= m < ibm_layout(p).0,
        16 * (sector_base(p, m) + 56) + 64 <= limit,
    ensures
        ({
            let bits = syms_bits(false, ibm_syms(p, cyl, head));
            let d = 16 * (sector_base(p, m) + 56);
            &&& mfm_sync_at(bits, d)
            &&& mfm_byte_at(bits, d + 48) == 0xFBu8
            &&& dam_status(bits, d, limit, 2) == SectorStatus::Good
        }),
{
    let syms = ibm_syms(p, cyl, head);
    let bits = syms_bits(false, syms);
    let b = sector_base(p, m);
    let dj = b + 56;
    let d = 16 * dj;
    lemma_track_layout(p, cyl, head);
    lemma_syms_bits_len(false, syms);
    assert(ibm_layout(p).3 == 22);
    lemma_track_sym(p, cyl, head, m, 56);
    lemma_track_sym(p, cyl, head, m, 57);
    lemma_track_sym(p, cyl, head, m, 58);
    lemma_sync_symbols_found(false, syms, dj);
    lemma_track_sym(p, cyl, head, m, 59);
    lemma_symbol_reads(false, syms, dj + 3);
    assert(16 * (dj + 3) == d + 48);
    let bs = mfm_bytes(bits, d + 64, 514);
    let dc = data_field_crc(0xE5);
    let data = seq![0xA1u8, 0xA1, 0xA1, 0xFB] + Seq::new(512, |k: int| 0xE5u8);
    assert forall|u: int| 0 <= u < 514 implies #[trigger] bs[u] == (if u < 512 {
        0xE5u8
    } else if u == 512 {
        (dc >> 8u16) as u8
    } else {
        (dc & 0xFFu16) as u8
    }) by {
        lemma_track_sym(p, cyl, head, m, 60 + u);
        lemma_symbol_reads(false, syms, dj + 4 + u);
        assert(d + 64 + 16 * u == 16 * (dj + 4 + u));
    }
    assert(seq![0xA1u8, 0xA1, 0xA1, 0xFB] + bs =~= data.push((dc >> 8u16) as u8).push(
        (dc & 0xFFu16) as u8,
    ));
    lemma_crc16_append_is_zero(data);
    assert(d + 48 + (1 + 512 + 2) * 16 <= bits.len());
}

/// The first `k` records that a freshly formatted IBM track decodes to:
/// consecutive sector ids from the preset's first id, size code 2, all good.
pub open spec fn ibm_formatted_sectors(p: PresetProfile, cyl: u8, head: u8, k: nat) -> Seq<DecodedSector> {
    Seq::new(
        k,
        |i: int| sector_of(cyl, head, (ibm_layout(p).1 + i) as u8, 2, true, SectorStatus::Good),
    )
}

/// The decoder finds sector `m` good: past its leading gap, its ID field,
/// its data field and its trailing gap, the scan has added exactly it.
#[verifier::spinoff_prover]
#[verifier::rlimit(60)]
proof fn lemma_scan_sector(p: PresetProfile, cyl: u8, head: u8, m: int)
    requires
        p != PresetProfile::Amiga35Dd,
        0 <= m < ibm_layout(p).0,
    ensures
        idam_scan(
            syms_bits(false, ibm_syms(p, cyl, head)),
            16 * sector_base(p, m),
            ibm_formatted_sectors(p, cyl, head, m as nat),
        ) == idam_scan(
            syms_bits(false, ibm_syms(p, cyl, head)),
            16 * (sector_base(p, m) + sector_len(p)),
            ibm_formatted_sectors(p, cyl, head, (m + 1) as nat),
        ),
{
    let syms = ibm_syms(p, cyl, head);
    let bits = syms_bits(false, syms);
    let b = sector_base(p, m);
    let sl = sector_len(p);
    let acc = ibm_formatted_sectors(p, cyl, head, m as nat);
    let acc2 = ibm_formatted_sectors(p, cyl, head, (m + 1) as nat);
    let sec = (ibm_layout(p).1 + m) as u8;
    lemma_track_layout(p, cyl, head);
    lemma_syms_bits_len(false, syms);
    lemma_track_sym(p, cyl, head, m, sl - 1);
    assert(ibm_layout(p).3 == 22);
    // leading gap: twelve zero bytes
    assert forall|q: int| b <= q < b + 12 implies (#[trigger] syms[q]) is Some by {
        lemma_track_sym(p, cyl, head, m, q - b);
    }
    lemma_scan_skip(false, syms, b, b + 12, 16 * b, 16 * (b + 12), acc);
    // ID field
    let ia = 16 * (b + 12);
    lemma_track_sym(p, cyl, head, m, 12);
    lemma_track_sym(p, cyl, head, m, 13);
    lemma_track_sym(p, cyl, head, m, 14);
    lemma_sync_symbols_found(false, syms, b + 12);
    lemma_id_field(p, cyl, head, m);
    assert forall|q: int| b + 15 <= q < b + 56 implies (#[trigger] syms[q]) is Some by {
        lemma_track_sym(p, cyl, head, m, q - b);
    }
    assert(dam_limit(bits, ia) == ia + 1160);
    lemma_dam_skip(false, syms, b + 15, b + 56, ia + 160, 16 * (b + 56), ia + 1160, 2);
    lemma_data_field(p, cyl, head, m, ia + 1160);
    assert(idam_status(bits, ia) == SectorStatus::Good);
    assert(valid_sector_id(sec));
    assert forall|k: int| 0 <= k < acc.len() implies #[trigger] acc[k].sec_id != sec by {
        assert((ibm_layout(p).1 + k) as u8 == ibm_layout(p).1 + k);
    }
    lemma_find_absent(acc, sec, cyl);
    assert(idam_add(bits, ia, acc) =~= acc2);
    // gap 2 up to the data field's sync
    lemma_scan_skip(false, syms, b + 15, b + 56, ia + 160, 16 * (b + 56), acc2);
    // data field: its mark is not an ID mark, so nothing is added
    let da = 16 * (b + 56);
    assert(idam_header(bits, da)[3] == mfm_byte_at(bits, da + 48));
    assert(idam_add(bits, da, acc2) == acc2);
    // data bytes, CRC and gap 3
    assert forall|q: int| b + 59 <= q < b + sl implies (#[trigger] syms[q]) is Some by {
        lemma_track_sym(p, cyl, head, m, q - b);
    }
    lemma_scan_skip(false, syms, b + 59, b + sl, da + 160, 16 * (b + sl), acc2);
}

/// From the start of sector `m` on, the scan adds sectors `m` to the last.
proof fn lemma_scan_from(p: PresetProfile, cyl: u8, head: u8, m: int)
    requires
        p != PresetProfile::Amiga35Dd,
        0 <= m <= ibm_layout(p).0,
    ensures
        idam_scan(
            syms_bits(false, ibm_syms(p, cyl, head)),
            16 * sector_base(p, m),
            ibm_formatted_sectors(p, cyl, head, m as nat),
        ) == ibm_formatted_sectors(p, cyl, head, ibm_layout(p).0 as nat),
    decreases ibm_layout(p).0 - m,
{
    let syms = ibm_syms(p, cyl, head);
    let bits = syms_bits(false, syms);
    let n = ibm_layout(p).0 as int;
    let sl = sector_len(p);
    lemma_track_layout(p, cyl, head);
    lemma_syms_bits_len(false, syms);
    if m < n {
        lemma_scan_sector(p, cyl, head, m);
        assert((m + 1) * sl == m * sl + sl) by (nonlinear_arith);
        assert(sector_base(p, m + 1) == sector_base(p, m) + sl);
        lemma_scan_from(p, cyl, head, m + 1);
    } else {
        let acc = ibm_formatted_sectors(p, cyl, head, m as nat);
        lemma_scan_skip(false, syms, sector_base(p, n), syms.len() as int, 16 * sector_base(p, m), 16 * (syms.len() as int), acc);
    }
}

/// Law: the IBM sector decoder reads a track that the synthesiser formatted
/// for an IBM-layout preset back as all its sectors, good, with consecutive
/// ids from the preset's first id, size code 2, and the cylinder and head
/// that were formatted.
pub proof fn lemma_ibm_track_reads_back(p: PresetProfile, cyl: u8, head: u8)
    requires
        p != PresetProfile::Amiga35Dd,
    ensures
        idam_scan(track_bits_spec(p, cyl, head), 0, Seq::empty()) == ibm_formatted_sectors(
            p,
            cyl,
            head,
            ibm_layout(p).0 as nat,
        ),
{
    let syms = ibm_syms(p, cyl, head);
    lemma_track_layout(p, cyl, head);
    let acc = ibm_formatted_sectors(p, cyl, head, 0);
    assert(acc =~= Seq::<DecodedSector>::empty());
    lemma_scan_skip(false, syms, 0, ibm_layout(p).2 as int, 0, 16 * sector_base(p, 0), acc);
    lemma_scan_from(p, cyl, head, 0);
}

} // verus!
