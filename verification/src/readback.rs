//! What the Amiga sector decoder reads back from a track that the
//! synthesiser formatted.
use vstd::prelude::*;
use crate::mfm::{
    amiga_checksum_spec, amiga_even_half, amiga_odd_half, bits_value, lemma_amiga_split_roundtrip,
    lemma_bits_value_bound, pow2_u32, u16_bits, u32_bits, xor_fold,
};
use crate::sectors::{
    amiga_scan, amiga_merge, find_sector, DecodedSector, amiga_data_ok, amiga_header_ok, amiga_sector, amiga_status, cell_words, cells_u32, sector_of, SectorStatus,
};
use crate::synth::{
    amiga_data_chk, amiga_data_lw, amiga_header_chk, amiga_info, amiga_pad_words, amiga_sector_bits, amiga_sector_words, amiga_sectors_bits, amiga_track_bits,
    lemma_amiga_sector_len, lemma_amiga_sectors_len, lemma_words_bits_len, track_bits_spec, words_bits,
};
use crate::protocol::PresetProfile;

verus! {

/// Shift facts behind reading a longword cell by cell.
proof fn lemma_u32_shift_facts(w: u32, sh: u32)
    by (bit_vector)
    ensures
        (w >> 31u32) & 1u32 == (w >> 31u32),
        (w >> 31u32) <= 1u32,
        sh < 31u32 ==> (w >> sh) as nat == 2 * ((w >> ((sh + 1) as u32)) as nat) + ((w >> sh) & 1u32) as nat,
        (w >> sh) & 1u32 <= 1u32,
        w >> 0u32 == w,
{
}

/// The first `k` cells of a longword read back as its top `k` bits.
proof fn lemma_u32_prefix_value(w: u32, k: nat)
    requires
        1 <= k <= 32,
    ensures
        bits_value(u32_bits(w).subrange(0, k as int)) == (w >> ((32 - k) as u32)) as nat,
    decreases k,
{
    let s = u32_bits(w).subrange(0, k as int);
    if k == 1 {
        assert(s.drop_last() =~= Seq::<bool>::empty());
        lemma_u32_shift_facts(w, 0);
        assert(s.last() == ((w >> 31u32) & 1u32 == 1u32));
        assert(bits_value(s.drop_last()) == 0);
        assert(bits_value(s) == 2 * bits_value(s.drop_last()) + (if s.last() { 1nat } else { 0nat }));
        assert(bits_value(s) == (w >> 31u32) as nat);
    } else {
        lemma_u32_prefix_value(w, (k - 1) as nat);
        assert(s.drop_last() =~= u32_bits(w).subrange(0, k - 1));
        let sh: u32 = (32 - k) as u32;
        lemma_u32_shift_facts(w, sh);
        assert(sh + 1 == 33 - k);
        assert(s.last() == ((w >> sh) & 1u32 == 1u32));
        let hi: u32 = (33 - k) as u32;
        assert(bits_value(s.drop_last()) == (w >> hi) as nat);
        assert(bits_value(s) == 2 * bits_value(s.drop_last()) + (if s.last() { 1nat } else { 0nat }));
        assert(bits_value(s) == (w >> sh) as nat);
    }
}

/// The 32 cells of a longword read back as the longword.
pub proof fn lemma_u32_bits_value(w: u32)
    ensures
        bits_value(u32_bits(w)) == w as nat,
{
    lemma_u32_prefix_value(w, 32);
    assert(u32_bits(w).subrange(0, 32) =~= u32_bits(w));
    lemma_u32_shift_facts(w, 0);
}

/// Cell `t` of longword `j` of a run of longwords.
pub proof fn lemma_words_bits_index(ws: Seq<u32>, j: int, t: int)
    requires
        0 <= j < ws.len(),
        0 <= t < 32,
    ensures
        words_bits(ws).len() == 32 * ws.len(),
        words_bits(ws)[32 * j + t] == u32_bits(ws[j])[t],
    decreases ws.len(),
{
    lemma_words_bits_len(ws);
    lemma_words_bits_len(ws.drop_last());
    if j < ws.len() - 1 {
        lemma_words_bits_index(ws.drop_last(), j, t);
    }
}

/// Two 0x4489 sync words form the sync longword.
proof fn lemma_sync_words()
    ensures
        u16_bits(0x4489u16) + u16_bits(0x4489u16) == u32_bits(0x4489_4489u32),
{
    let a = u16_bits(0x4489u16) + u16_bits(0x4489u16);
    let b = u32_bits(0x4489_4489u32);
    assert forall|i: int| 0 <= i < 32 implies a[i] == b[i] by {
        let x: u32 = i as u32;
        assert({
            &&& x < 16u32 ==> (((0x4489u16 >> ((15 - x) as u16)) & 1u16 == 1u16) == ((0x4489_4489u32
                >> ((31 - x) as u32)) & 1u32 == 1u32))
            &&& 16u32 <= x < 32u32 ==> (((0x4489u16 >> ((31 - x) as u16)) & 1u16 == 1u16) == ((
            0x4489_4489u32 >> ((31 - x) as u32)) & 1u32 == 1u32))
        }) by (bit_vector);
    }
    assert(a =~= b);
}

/// Runs of cells of one length with the same value are the same cells.
pub(crate) proof fn lemma_bits_value_injective(a: Seq<bool>, b: Seq<bool>)
    requires
        a.len() == b.len(),
        bits_value(a) == bits_value(b),
    ensures
        a == b,
    decreases a.len(),
{
    if a.len() > 0 {
        lemma_bits_value_injective(a.drop_last(), b.drop_last());
        assert(a.last() == b.last());
        assert forall|i: int| 0 <= i < a.len() implies a[i] == b[i] by {
            if i < a.len() - 1 {
                assert(a[i] == a.drop_last()[i]);
                assert(b[i] == b.drop_last()[i]);
            }
        }
        assert(a =~= b);
    }
}

/// A window of 32 cells reads as `w` exactly when it holds the cells of `w`.
pub proof fn lemma_cells_u32_is(bits: Seq<bool>, p: int, w: u32)
    requires
        0 <= p,
        p + 32 <= bits.len(),
    ensures
        (cells_u32(bits, p) == w) <==> (bits.subrange(p, p + 32) == u32_bits(w)),
{
    let s = bits.subrange(p, p + 32);
    lemma_u32_bits_value(w);
    lemma_bits_value_bound(s);
    reveal_with_fuel(pow2_u32, 33);
    assert(pow2_u32(32) == 0x1_0000_0000);
    if cells_u32(bits, p) == w {
        assert(bits_value(s) == w as nat);
        lemma_bits_value_injective(s, u32_bits(w));
    }
}

/// Track number written into the sector headers of a cylinder and head.
pub open spec fn amiga_track_num(cyl: u8, head: u8) -> u8 {
    ((cyl << 1u8) | (head & 1u8)) as u8
}

/// Cell `t` of sector `m` among the first `k` sectors.
proof fn lemma_sectors_index(track_num: u8, k: nat, m: int, t: int)
    requires
        0 <= m < k,
        k <= 11,
        0 <= t < 8672,
    ensures
        amiga_sectors_bits(track_num, k).len() == 8672 * k,
        amiga_sectors_bits(track_num, k)[8672 * m + t] == amiga_sector_bits(track_num, m as u8)[t],
    decreases k,
{
    lemma_amiga_sectors_len(track_num, k);
    lemma_amiga_sectors_len(track_num, (k - 1) as nat);
    lemma_amiga_sector_len(track_num, m as u8);
    if m < k - 1 {
        lemma_sectors_index(track_num, (k - 1) as nat, m, t);
    }
}

/// The formatted Amiga track is the pre-gap longword followed by the eleven
/// sectors, 95,424 cells in all.
proof fn lemma_track_shape(cyl: u8, head: u8)
    ensures
        amiga_track_bits(cyl, head) == u32_bits(0xAAAA_AAAAu32) + amiga_sectors_bits(
            amiga_track_num(cyl, head),
            11,
        ),
        amiga_track_bits(cyl, head).len() == 95_424,
{
    let tnum = amiga_track_num(cyl, head);
    lemma_amiga_sectors_len(tnum, 11);
    let body = u32_bits(0xAAAA_AAAAu32) + amiga_sectors_bits(tnum, 11);
    assert(amiga_pad_words(body.len()) == 0);
    let pad = Seq::new(amiga_pad_words(body.len()), |i: int| 0xAAAA_AAAAu32);
    assert(words_bits(pad) =~= Seq::<bool>::empty());
    assert(amiga_track_bits(cyl, head) =~= body);
}

/// Cell `t` of sector `m` of the formatted track.
proof fn lemma_track_index(cyl: u8, head: u8, m: int, t: int)
    requires
        0 <= m < 11,
        0 <= t < 8672,
    ensures
        amiga_track_bits(cyl, head)[32 + 8672 * m + t] == amiga_sector_bits(
            amiga_track_num(cyl, head),
            m as u8,
        )[t],
{
    lemma_track_shape(cyl, head);
    lemma_sectors_index(amiga_track_num(cyl, head), 11, m, t);
}

/// Sector `m` of the formatted track starts with the sync longword, and
/// longword `j` of its body sits 32 cells further on per longword.
proof fn lemma_track_windows(cyl: u8, head: u8, m: int, j: int)
    requires
        0 <= m < 11,
        0 <= j < 270,
    ensures
        amiga_track_bits(cyl, head).subrange(32 + 8672 * m, 64 + 8672 * m) == u32_bits(
            0x4489_4489u32,
        ),
        amiga_track_bits(cyl, head).subrange(64 + 8672 * m + 32 * j, 96 + 8672 * m + 32 * j)
            == u32_bits(amiga_sector_words(amiga_track_num(cyl, head), m as u8)[j]),
{
    let tnum = amiga_track_num(cyl, head);
    let tb = amiga_track_bits(cyl, head);
    let ws = amiga_sector_words(tnum, m as u8);
    lemma_track_shape(cyl, head);
    lemma_sync_words();
    lemma_words_bits_len(ws);
    assert(ws.len() == 270);
    assert forall|t: int| 0 <= t < 32 implies tb.subrange(32 + 8672 * m, 64 + 8672 * m)[t]
        == u32_bits(0x4489_4489u32)[t] by {
        lemma_track_index(cyl, head, m, t);
        assert(amiga_sector_bits(tnum, m as u8)[t] == (u16_bits(0x4489u16) + u16_bits(0x4489u16))[t]);
    }
    assert(tb.subrange(32 + 8672 * m, 64 + 8672 * m) =~= u32_bits(0x4489_4489u32));
    assert forall|t: int| 0 <= t < 32 implies tb.subrange(64 + 8672 * m + 32 * j, 96 + 8672 * m + 32 * j)[t]
        == u32_bits(ws[j])[t] by {
        lemma_track_index(cyl, head, m, 32 + 32 * j + t);
        lemma_words_bits_index(ws, j, t);
        assert(amiga_sector_bits(tnum, m as u8)[32 + 32 * j + t] == words_bits(ws)[32 * j + t]);
    }
    assert(tb.subrange(64 + 8672 * m + 32 * j, 96 + 8672 * m + 32 * j) =~= u32_bits(ws[j]));
}

/// Zero, associativity and regrouping laws of XOR on longwords.
proof fn lemma_xor_laws()
    by (bit_vector)
    ensures
        forall|x: u32| #[trigger] (x ^ 0u32) == x,
        forall|x: u32| #[trigger] (0u32 ^ x) == x,
        forall|x: u32, y: u32, z: u32| #[trigger] ((x ^ y) ^ z) == x ^ (y ^ z),
        forall|a: u32, b: u32, x: u32, y: u32| #[trigger] ((a ^ x) ^ (b ^ y)) == (a ^ b) ^ (x ^ y),
{
}

/// XOR over a concatenation is the XOR of the two parts.
proof fn lemma_xor_fold_concat(a: Seq<u32>, b: Seq<u32>)
    ensures
        xor_fold(a + b) == xor_fold(a) ^ xor_fold(b),
    decreases b.len(),
{
    let x = xor_fold(a);
    if b.len() == 0 {
        assert(a + b =~= a);
        lemma_xor_laws();
    } else {
        lemma_xor_fold_concat(a, b.drop_last());
        assert((a + b).drop_last() =~= a + b.drop_last());
        let y = xor_fold(b.drop_last());
        let l = b.last();
        lemma_xor_laws();
        assert((x ^ y) ^ l == x ^ (y ^ l));
    }
}

/// XOR of two runs taken together equals the XOR of their pairwise XORs.
proof fn lemma_xor_fold_pairwise(f: spec_fn(int) -> u32, g: spec_fn(int) -> u32, n: nat)
    ensures
        xor_fold(Seq::new(n, f)) ^ xor_fold(Seq::new(n, g)) == xor_fold(
            Seq::new(n, |i: int| f(i) ^ g(i)),
        ),
    decreases n,
{
    if n == 0 {
        lemma_xor_laws();
        assert(0u32 ^ 0u32 == 0u32);
    } else {
        let k = (n - 1) as nat;
        lemma_xor_fold_pairwise(f, g, k);
        assert(Seq::new(n, f).drop_last() =~= Seq::new(k, f));
        assert(Seq::new(n, g).drop_last() =~= Seq::new(k, g));
        assert(Seq::new(n, |i: int| f(i) ^ g(i)).drop_last() =~= Seq::new(k, |i: int| f(i) ^ g(i)));
        let a = xor_fold(Seq::new(k, f));
        let b = xor_fold(Seq::new(k, g));
        let x = f(k as int);
        let y = g(k as int);
        lemma_xor_laws();
        assert((a ^ x) ^ (b ^ y) == (a ^ b) ^ (x ^ y));
    }
}

/// A checksum stored as its even and odd halves reads back as itself.
proof fn lemma_stored_checksum(x: u32)
    ensures
        amiga_checksum_spec(seq![amiga_even_half(x & 0x5555_5555u32), amiga_odd_half(x & 0x5555_5555u32)])
            == x & 0x5555_5555u32,
{
    let s = seq![amiga_even_half(x & 0x5555_5555u32), amiga_odd_half(x & 0x5555_5555u32)];
    reveal_with_fuel(xor_fold, 3);
    assert(s.drop_last().drop_last() =~= Seq::<u32>::empty());
    assert(((0u32 ^ (((x & 0x5555_5555u32) >> 1u32) & 0x5555_5555u32)) ^ ((x & 0x5555_5555u32)
        & 0x5555_5555u32)) & 0x5555_5555u32 == x & 0x5555_5555u32) by (bit_vector);
}

/// The longwords of sector `m` of the formatted track, read from the cells.
proof fn lemma_sector_cells(cyl: u8, head: u8, m: int, a: int, n: nat)
    requires
        0 <= m < 11,
        0 <= a,
        a + n <= 270,
    ensures
        cell_words(amiga_track_bits(cyl, head), 64 + 8672 * m + 32 * a, n) == amiga_sector_words(
            amiga_track_num(cyl, head),
            m as u8,
        ).subrange(a, a + n),
{
    let tb = amiga_track_bits(cyl, head);
    let ws = amiga_sector_words(amiga_track_num(cyl, head), m as u8);
    lemma_track_shape(cyl, head);
    let cw = cell_words(tb, 64 + 8672 * m + 32 * a, n);
    let sub = ws.subrange(a, a + n);
    assert forall|j: int| 0 <= j < n implies #[trigger] cw[j] == sub[j] by {
        lemma_track_windows(cyl, head, m, a + j);
        lemma_cells_u32_is(tb, 64 + 8672 * m + 32 * (a + j), ws[a + j]);
        assert(64 + 8672 * m + 32 * a + 32 * j == 64 + 8672 * m + 32 * (a + j));
    }
    assert(cw =~= sub);
}

/// Fields of the info longword of sector `m`.
proof fn lemma_info_fields(track_num: u8, m: u8)
    requires
        m < 11,
    ensures
        (amiga_info(track_num, m) >> 24u32) as u8 == 0xFFu8,
        ((amiga_info(track_num, m) >> 16u32) & 0xFFu32) as u8 == track_num,
        ((amiga_info(track_num, m) >> 8u32) & 0xFFu32) as u8 == m,
{
    let t: u32 = track_num as u32;
    let mm: u32 = m as u32;
    let r: u32 = (11 - m) as u32;
    assert(amiga_info(track_num, m) == ((0xFFu32 << 24u32) | (t << 16u32) | (mm << 8u32) | r) as u32);
    assert(t < 256u32 && mm < 11u32 && r <= 11u32 ==> {
        let v = ((0xFFu32 << 24u32) | (t << 16u32) | (mm << 8u32) | r) as u32;
        &&& (v >> 24u32) == 0xFFu32
        &&& ((v >> 16u32) & 0xFFu32) == t
        &&& ((v >> 8u32) & 0xFFu32) == mm
    }) by (bit_vector);
}

/// XOR of a header: the two info halves followed by eight zero longwords.
proof fn lemma_header_xor(e: u32, od: u32)
    ensures
        xor_fold(seq![e, od, 0u32, 0u32, 0u32, 0u32, 0u32, 0u32, 0u32, 0u32]) == e ^ od,
{
    let z = seq![e, od, 0u32, 0u32, 0u32, 0u32, 0u32, 0u32, 0u32, 0u32];
    let two = seq![e, od];
    assert(z =~= two + Seq::new(8, |i: int| 0u32));
    lemma_xor_fold_concat(two, Seq::new(8, |i: int| 0u32));
    lemma_xor_fold_zeros(8);
    reveal_with_fuel(xor_fold, 3);
    assert(two.drop_last().drop_last() =~= Seq::<u32>::empty());
    lemma_xor_laws();
    assert(0u32 ^ e == e);
}

/// XOR of zero longwords is zero.
proof fn lemma_xor_fold_zeros(n: nat)
    ensures
        xor_fold(Seq::new(n, |i: int| 0u32)) == 0u32,
    decreases n,
{
    if n > 0 {
        lemma_xor_fold_zeros((n - 1) as nat);
        assert(Seq::new(n, |i: int| 0u32).drop_last() =~= Seq::new((n - 1) as nat, |i: int| 0u32));
        lemma_xor_laws();
    }
}

/// Sector `m` of the formatted track decodes as a good sector with its own
/// id, on the cylinder and head that the track number names.
#[verifier::spinoff_prover]
proof fn lemma_sector_reads_back(cyl: u8, head: u8, m: int)
    requires
        0 <= m < 11,
    ensures
        amiga_sector(amiga_track_bits(cyl, head), 64 + 8672 * m) == sector_of(
            amiga_track_num(cyl, head) / 2,
            amiga_track_num(cyl, head) % 2,
            m as u8,
            2,
            true,
            SectorStatus::Good,
        ),
{
    let tb = amiga_track_bits(cyl, head);
    let tnum = amiga_track_num(cyl, head);
    let sec = m as u8;
    let o = 64 + 8672 * m;
    let ws = amiga_sector_words(tnum, sec);
    let info = amiga_info(tnum, sec);
    let e = amiga_even_half(info);
    let od = amiga_odd_half(info);
    assert(ws.len() == 270);
    // info longword
    lemma_sector_cells(cyl, head, m, 0, 2);
    assert(cell_words(tb, o, 2)[0] == cells_u32(tb, o));
    assert(cell_words(tb, o, 2)[1] == cells_u32(tb, o + 32));
    lemma_amiga_split_roundtrip(info);
    assert(crate::sectors::amiga_info(tb, o) == info);
    lemma_info_fields(tnum, sec);
    // header checksum
    lemma_sector_cells(cyl, head, m, 0, 10);
    let hw = ws.subrange(0, 10);
    assert(hw =~= seq![e, od, 0u32, 0u32, 0u32, 0u32, 0u32, 0u32, 0u32, 0u32]);
    lemma_header_xor(e, od);
    assert(amiga_checksum_spec(hw) == amiga_header_chk(tnum, sec));
    lemma_sector_cells(cyl, head, m, 10, 2);
    assert(64 + 8672 * m + 32 * 10 == o + 320);
    assert(ws.subrange(10, 12) =~= seq![
        amiga_even_half((e ^ od) & 0x5555_5555u32),
        amiga_odd_half((e ^ od) & 0x5555_5555u32),
    ]);
    lemma_stored_checksum(e ^ od);
    assert(amiga_header_ok(tb, o));
    // data checksum
    let f = |i: int| amiga_even_half(amiga_data_lw(sec, i));
    let g = |i: int| amiga_odd_half(amiga_data_lw(sec, i));
    lemma_sector_cells(cyl, head, m, 14, 256);
    assert(64 + 8672 * m + 32 * 14 == o + 448);
    assert(ws.subrange(14, 270) =~= Seq::new(128, f) + Seq::new(128, g));
    lemma_xor_fold_concat(Seq::new(128, f), Seq::new(128, g));
    lemma_xor_fold_pairwise(f, g, 128);
    let d = xor_fold(Seq::new(128, |i: int| f(i) ^ g(i)));
    assert(Seq::new(128, |i: int| f(i) ^ g(i)) =~= Seq::new(
        128,
        |i: int| amiga_even_half(amiga_data_lw(sec, i)) ^ amiga_odd_half(amiga_data_lw(sec, i)),
    ));
    assert(amiga_data_chk(sec) == d & 0x5555_5555u32);
    lemma_sector_cells(cyl, head, m, 12, 2);
    assert(64 + 8672 * m + 32 * 12 == o + 384);
    assert(ws.subrange(12, 14) =~= seq![
        amiga_even_half(d & 0x5555_5555u32),
        amiga_odd_half(d & 0x5555_5555u32),
    ]);
    lemma_stored_checksum(d);
    assert(amiga_data_ok(tb, o));
    assert(amiga_status(tb, o) == SectorStatus::Good);
}

/// The pre-gap longword alternates one and zero cells; the sync longword
/// starts with cells 0, 1, 0, 0, 0.
proof fn lemma_sync_prefix_cells(x: u32)
    by (bit_vector)
    ensures
        x < 32u32 ==> (((0xAAAA_AAAAu32 >> ((31 - x) as u32)) & 1u32 == 1u32) == (x % 2u32 == 0u32)),
        ((0x4489_4489u32 >> 31u32) & 1u32 == 1u32) == false,
        ((0x4489_4489u32 >> 30u32) & 1u32 == 1u32) == true,
        ((0x4489_4489u32 >> 29u32) & 1u32 == 1u32) == false,
        ((0x4489_4489u32 >> 28u32) & 1u32 == 1u32) == false,
        ((0x4489_4489u32 >> 27u32) & 1u32 == 1u32) == false,
{
}

/// No window of 32 cells starting before the first sync longword reads
/// as the sync longword.
proof fn lemma_no_early_sync(cyl: u8, head: u8, i: int)
    requires
        0 <= i < 32,
    ensures
        cells_u32(amiga_track_bits(cyl, head), i) != 0x4489_4489u32,
{
    let tb = amiga_track_bits(cyl, head);
    let sy = u32_bits(0x4489_4489u32);
    let pre = u32_bits(0xAAAA_AAAAu32);
    lemma_track_shape(cyl, head);
    lemma_track_windows(cyl, head, 0, 0);
    lemma_cells_u32_is(tb, i, 0x4489_4489u32);
    let win = tb.subrange(i, i + 32);
    assert(tb.subrange(32, 64) == sy);
    assert forall|p: int| 0 <= p < 32 implies #[trigger] tb[p] == (p % 2 == 0) by {
        let x: u32 = p as u32;
        assert(tb[p] == pre[p]);
        lemma_sync_prefix_cells(x);
    }
    lemma_sync_prefix_cells(0);
    assert(!sy[0] && sy[1] && !sy[2] && !sy[3] && !sy[4]);
    if i == 0 {
        assert(win =~= pre);
        assert(win[0] != sy[0]);
    } else if i <= 28 {
        assert(win[2] == tb[i + 2] && win[3] == tb[i + 3]);
        assert(win[2] != sy[2] || win[3] != sy[3]);
    } else if i == 29 {
        assert(win[4] == tb[33] && tb[33] == sy[1]);
        assert(win[4] != sy[4]);
    } else if i == 30 {
        assert(win[0] == tb[30]);
        assert(win[0] != sy[0]);
    } else {
        assert(win[1] == tb[32] && tb[32] == sy[0]);
        assert(win[1] != sy[1]);
    }
}

/// The scan walks past the pre-gap cells to the first sync longword.
proof fn lemma_scan_prefix(cyl: u8, head: u8, i: int)
    requires
        0 <= i <= 32,
    ensures
        amiga_scan(amiga_track_bits(cyl, head), i, Seq::empty()) == amiga_scan(
            amiga_track_bits(cyl, head),
            32,
            Seq::empty(),
        ),
    decreases 32 - i,
{
    if i < 32 {
        lemma_track_shape(cyl, head);
        lemma_no_early_sync(cyl, head, i);
        lemma_scan_prefix(cyl, head, i + 1);
    }
}

/// The eleven records that a freshly formatted Amiga track decodes to:
/// sector ids 0 to 10, all good, on the cylinder and head that the track
/// number names.
pub open spec fn amiga_formatted_sectors(cyl: u8, head: u8, k: nat) -> Seq<DecodedSector> {
    Seq::new(
        k,
        |i: int|
            sector_of(
                amiga_track_num(cyl, head) / 2,
                amiga_track_num(cyl, head) % 2,
                i as u8,
                2,
                true,
                SectorStatus::Good,
            ),
    )
}

/// No record before the one with this id carries it.
pub(crate) proof fn lemma_find_absent(acc: Seq<DecodedSector>, sec_id: u8, cyl: u8)
    requires
        forall|i: int| 0 <= i < acc.len() ==> #[trigger] acc[i].sec_id != sec_id,
    ensures
        find_sector(acc, sec_id, cyl) == -1,
    decreases acc.len(),
{
    if acc.len() > 0 {
        let d = acc.drop_last();
        assert forall|i: int| 0 <= i < d.len() implies #[trigger] d[i].sec_id != sec_id by {
            assert(d[i] == acc[i]);
        }
        lemma_find_absent(d, sec_id, cyl);
    }
}

/// From the sync longword of sector `m` on, the scan adds sectors `m`..10.
proof fn lemma_scan_sectors(cyl: u8, head: u8, m: int)
    requires
        0 <= m <= 11,
    ensures
        amiga_scan(amiga_track_bits(cyl, head), 32 + 8672 * m, amiga_formatted_sectors(cyl, head, m as nat))
            == amiga_formatted_sectors(cyl, head, 11),
    decreases 11 - m,
{
    let tb = amiga_track_bits(cyl, head);
    lemma_track_shape(cyl, head);
    if m == 11 {
        assert(amiga_scan(tb, 32 + 8672 * m, amiga_formatted_sectors(cyl, head, 11))
            == amiga_formatted_sectors(cyl, head, 11));
    } else {
        let acc = amiga_formatted_sectors(cyl, head, m as nat);
        lemma_track_windows(cyl, head, m, 0);
        lemma_cells_u32_is(tb, 32 + 8672 * m, 0x4489_4489u32);
        lemma_sector_reads_back(cyl, head, m);
        let sct = amiga_sector(tb, 64 + 8672 * m);
        assert forall|i: int| 0 <= i < acc.len() implies #[trigger] acc[i].sec_id != sct.sec_id by {
            assert((i as u8) as int == i);
        }
        lemma_find_absent(acc, sct.sec_id, sct.cyl);
        assert(amiga_merge(acc, sct) =~= amiga_formatted_sectors(cyl, head, (m + 1) as nat));
        lemma_scan_sectors(cyl, head, m + 1);
        assert(32 + 8672 * m + 32 + 8640 == 32 + 8672 * (m + 1));
    }
}

/// Law: the Amiga sector decoder reads a track that the synthesiser
/// formatted back as eleven good sectors, ids 0 to 10 in order, each on the
/// cylinder and head that the track number names.
pub proof fn lemma_amiga_track_reads_back(cyl: u8, head: u8)
    ensures
        amiga_scan(track_bits_spec(PresetProfile::Amiga35Dd, cyl, head), 0, Seq::empty())
            == amiga_formatted_sectors(cyl, head, 11),
{
    lemma_scan_prefix(cyl, head, 0);
    lemma_scan_sectors(cyl, head, 0);
    assert(amiga_formatted_sectors(cyl, head, 0) =~= Seq::<DecodedSector>::empty());
}

} // verus!
