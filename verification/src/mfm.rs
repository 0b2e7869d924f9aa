//! MFM (Modified Frequency Modulation) cell encoding, the inverse data-bit
//! extraction, and the Amiga Paula odd/even longword split.
use vstd::prelude::*;

verus! {

/// Data bit `k` (0 = least significant) of a byte.
pub open spec fn byte_bit(b: u8, k: u8) -> bool {
    (b >> k) & 1u8 == 1u8
}

/// The two MFM cells for one data bit: the clock cell is set only between
/// two zero data bits; the data cell carries the bit.
pub open spec fn mfm_pair(prev: bool, bit: bool) -> u16 {
    if bit {
        1u16
    } else if !prev {
        2u16
    } else {
        0u16
    }
}

/// MFM encoding of one byte (most significant bit first) given the last
/// data bit written before it.
pub open spec fn mfm_encode_word(prev: bool, b: u8) -> u16 {
    ((mfm_pair(prev, byte_bit(b, 7)) << 14u16) | (mfm_pair(byte_bit(b, 7), byte_bit(b, 6)) << 12u16)
        | (mfm_pair(byte_bit(b, 6), byte_bit(b, 5)) << 10u16) | (mfm_pair(byte_bit(b, 5), byte_bit(b, 4))
        << 8u16) | (mfm_pair(byte_bit(b, 4), byte_bit(b, 3)) << 6u16) | (mfm_pair(
        byte_bit(b, 3),
        byte_bit(b, 2),
    ) << 4u16) | (mfm_pair(byte_bit(b, 2), byte_bit(b, 1)) << 2u16) | mfm_pair(
        byte_bit(b, 1),
        byte_bit(b, 0),
    )) as u16
}

/// The data cells of an MFM word (bits 14, 12, .., 0) gathered into a byte.
pub open spec fn mfm_data_bits(w: u16) -> u8 {
    ((((w >> 14u16) & 1u16) << 7u16) | (((w >> 12u16) & 1u16) << 6u16) | (((w >> 10u16) & 1u16)
        << 5u16) | (((w >> 8u16) & 1u16) << 4u16) | (((w >> 6u16) & 1u16) << 3u16) | (((w >> 4u16)
        & 1u16) << 2u16) | (((w >> 2u16) & 1u16) << 1u16) | (w & 1u16)) as u8
}

/// The 16 cells of a word, most significant first.
pub open spec fn u16_bits(w: u16) -> Seq<bool> {
    Seq::new(16, |i: int| (w >> ((15 - i) as u16)) & 1u16 == 1u16)
}

/// The 32 cells of a longword, most significant first.
pub open spec fn u32_bits(w: u32) -> Seq<bool> {
    Seq::new(32, |i: int| (w >> ((31 - i) as u32)) & 1u32 == 1u32)
}

/// The integer formed by a run of cells read most significant first.
pub open spec fn bits_value(bits: Seq<bool>) -> nat
    decreases bits.len(),
{
    if bits.len() == 0 {
        0
    } else {
        2 * bits_value(bits.drop_last()) + if bits.last() {
            1nat
        } else {
            0nat
        }
    }
}

/// Encodes one byte into its 16-cell MFM word.
pub fn mfm_encode_byte(prev: bool, b: u8) -> (w: u16)
    ensures
        w == mfm_encode_word(prev, b),
{
    let b7 = (b >> 7u8) & 1u8 == 1u8;
    let b6 = (b >> 6u8) & 1u8 == 1u8;
    let b5 = (b >> 5u8) & 1u8 == 1u8;
    let b4 = (b >> 4u8) & 1u8 == 1u8;
    let b3 = (b >> 3u8) & 1u8 == 1u8;
    let b2 = (b >> 2u8) & 1u8 == 1u8;
    let b1 = (b >> 1u8) & 1u8 == 1u8;
    let b0 = b & 1u8 == 1u8;
    assert(b0 == byte_bit(b, 0)) by (bit_vector)
        requires
            b0 == (b & 1u8 == 1u8),
    ;
    (pair(prev, b7) << 14u16) | (pair(b7, b6) << 12u16) | (pair(b6, b5) << 10u16) | (pair(b5, b4)
        << 8u16) | (pair(b4, b3) << 6u16) | (pair(b3, b2) << 4u16) | (pair(b2, b1) << 2u16) | pair(
        b1,
        b0,
    )
}

fn pair(prev: bool, bit: bool) -> (r: u16)
    ensures
        r == mfm_pair(prev, bit),
{
    if bit {
        1
    } else if !prev {
        2
    } else {
        0
    }
}

/// Extracts the eight data bits of a 16-cell MFM word.
pub fn decode_byte_word(w: u16) -> (b: u8)
    ensures
        b == mfm_data_bits(w),
{
    let index: u16 = w & 0x5555u16;
    assert(index + (index >> 1u16) < 0x8000 && ((index + (index >> 1u16)) as u16 & 0x3333u16) < 0x4000 && (((((index + (index >> 1u16)) as u16 & 0x3333u16) + ((((index + (index >> 1u16)) as u16) & 0x3333u16) >> 2u16)) as u16) & 0x0F0Fu16) < 0x1000) by (bit_vector)
        requires
            index == w & 0x5555u16,
    ;
    let y1: u16 = (index + (index >> 1u16)) & 0x3333u16;
    assert(y1 + (y1 >> 2u16) < 0x8000) by (bit_vector)
        requires
            y1 == ((index + (index >> 1u16)) as u16) & 0x3333u16,
    ;
    let y2: u16 = (y1 + (y1 >> 2u16)) & 0x0F0Fu16;
    assert(y2 + (y2 >> 4u16) < 0x8000) by (bit_vector)
        requires
            y2 == ((y1 + (y1 >> 2u16)) as u16) & 0x0F0Fu16,
    ;
    let y3: u16 = (y2 + (y2 >> 4u16)) & 0x00FFu16;
    assert(y3 == mfm_data_bits(w) as u16) by (bit_vector)
        requires
            index == w & 0x5555u16,
            y1 == ((index + (index >> 1u16)) as u16) & 0x3333u16,
            y2 == ((y1 + (y1 >> 2u16)) as u16) & 0x0F0Fu16,
            y3 == ((y2 + (y2 >> 4u16)) as u16) & 0x00FFu16,
    ;
    let y = y3;
    y as u8
}

/// Law: the data cells of an MFM-encoded byte are the byte itself,
/// whatever bit preceded it.
pub proof fn lemma_mfm_decode_encode(prev: bool, b: u8)
    ensures
        mfm_data_bits(mfm_encode_word(prev, b)) == b,
{
    assert(mfm_data_bits(mfm_encode_word(prev, b)) == b) by (bit_vector);
}

/// Law: the last data cell of an encoded byte is the byte's low bit.
pub proof fn lemma_mfm_last_cell(prev: bool, b: u8)
    ensures
        (mfm_encode_word(prev, b) & 1u16 == 1u16) == (b & 1u8 == 1u8),
{
    assert((mfm_encode_word(prev, b) & 1u16 == 1u16) == (b & 1u8 == 1u8)) by (bit_vector);
}

/// Builds the 2 x 256 MFM lookup table: row 0 for a preceding 0 bit, row 1
/// for a preceding 1 bit.
pub fn generate_mfm_encode_table() -> (table: [[u16; 256]; 2])
    ensures
        forall|p: int, b: int|
            0 <= p < 2 && 0 <= b < 256 ==> #[trigger] table@[p]@[b] == mfm_encode_word(p == 1, b as u8),
{
    let mut row0 = [0u16; 256];
    let mut row1 = [0u16; 256];
    let mut i: usize = 0;
    while i < 256
        invariant
            i <= 256,
            forall|b: int| 0 <= b < i ==> #[trigger] row0@[b] == mfm_encode_word(false, b as u8),
            forall|b: int| 0 <= b < i ==> #[trigger] row1@[b] == mfm_encode_word(true, b as u8),
        decreases 256 - i,
    {
        row0[i] = mfm_encode_byte(false, i as u8);
        row1[i] = mfm_encode_byte(true, i as u8);
        i = i + 1;
    }
    let table = [row0, row1];
    assert forall|p: int, b: int| 0 <= p < 2 && 0 <= b < 256 implies #[trigger] table@[p]@[b]
        == mfm_encode_word(p == 1, b as u8) by {
        if p == 0 {
            assert(table@[p] == row0);
        } else {
            assert(table@[p] == row1);
        }
    }
    table
}

/// Reads the data byte of an MFM word given as 16 cells (the odd cells,
/// most significant first).
pub fn mfm_word_to_byte(bits: &[bool]) -> (b: u8)
    requires
        bits@.len() >= 16,
    ensures
        forall|i: int| 0 <= i < 8 ==> (#[trigger] byte_bit(b, (7 - i) as u8)) == bits@[2 * i + 1],
{
    let mut b: u8 = 0;
    let mut i: usize = 0;
    assert forall|k: int| 0 <= k < 8 implies !(#[trigger] byte_bit(0u8, (7 - k) as u8)) by {
        let kk: u8 = (7 - k) as u8;
        assert(((0u8 >> kk) & 1u8) == 0u8) by (bit_vector);
    }
    while i < 8
        invariant
            i <= 8,
            bits@.len() >= 16,
            forall|k: int| 0 <= k < i ==> (#[trigger] byte_bit(b, (7 - k) as u8)) == bits@[2 * k + 1],
            forall|k: int| i <= k < 8 ==> !(#[trigger] byte_bit(b, (7 - k) as u8)),
        decreases 8 - i,
    {
        let ghost old_b = b;
        let sh: u8 = (7 - i) as u8;
        if bits[i * 2 + 1] {
            b = b | (1u8 << sh);
        }
        assert forall|k: int| 0 <= k < 8 implies (#[trigger] byte_bit(b, (7 - k) as u8)) == (if k
            == i {
            bits@[2 * i + 1]
        } else {
            byte_bit(old_b, (7 - k) as u8)
        }) by {
            let kk: u8 = (7 - k) as u8;
            if bits@[2 * i + 1] {
                assert(b == old_b | (1u8 << sh));
                assert(sh < 8 && kk < 8 ==> (((old_b | (1u8 << sh)) >> kk) & 1u8 == 1u8) == (if kk
                    == sh {
                    true
                } else {
                    (old_b >> kk) & 1u8 == 1u8
                })) by (bit_vector);
            } else {
                assert(!(kk == sh) || !byte_bit(old_b, kk));
            }
        }
        i = i + 1;
    }
    b
}

/// Reads a 32-cell longword starting at `start` (most significant first).
pub fn extract_u32_from_bits(bits: &[bool], start: usize) -> (w: u32)
    requires
        start + 32 <= bits@.len(),
    ensures
        w as nat == bits_value(bits@.subrange(start as int, start + 32)),
{
    let mut w: u32 = 0;
    let mut k: usize = 0;
    let n = bits.len();
    while k < 32
        invariant
            k <= 32,
            n == bits@.len(),
            start + 32 <= bits@.len(),
            w as nat == bits_value(bits@.subrange(start as int, start + k)),
        decreases 32 - k,
    {
        proof {
            lemma_bits_value_bound(bits@.subrange(start as int, start + k));
            lemma_pow2_bound(k as nat);
            assert(bits@.subrange(start as int, start + k + 1).drop_last() =~= bits@.subrange(
                start as int,
                start + k,
            ));
        }
        let bit: u32 = if bits[start + k] {
            1
        } else {
            0
        };
        proof {
            lemma_shift_in_u32(w, bit);
        }
        w = (w << 1u32) | bit;
        k = k + 1;
    }
    w
}

/// Reads a 16-cell word starting at `start` (most significant first).
pub fn extract_u16_from_bits(bits: &[bool], start: usize) -> (w: u16)
    requires
        start + 16 <= bits@.len(),
    ensures
        w as nat == bits_value(bits@.subrange(start as int, start + 16)),
{
    let mut w: u16 = 0;
    let mut k: usize = 0;
    let n = bits.len();
    while k < 16
        invariant
            k <= 16,
            n == bits@.len(),
            start + 16 <= bits@.len(),
            w as nat == bits_value(bits@.subrange(start as int, start + k)),
        decreases 16 - k,
    {
        proof {
            lemma_bits_value_bound(bits@.subrange(start as int, start + k));
            lemma_pow2_bound(k as nat);
            assert(bits@.subrange(start as int, start + k + 1).drop_last() =~= bits@.subrange(
                start as int,
                start + k,
            ));
        }
        let bit: u16 = if bits[start + k] {
            1
        } else {
            0
        };
        proof {
            lemma_shift_in_u16(w, bit, k as nat);
        }
        w = (w << 1u16) | bit;
        k = k + 1;
    }
    w
}

pub open spec fn pow2_u32(k: nat) -> nat
    decreases k,
{
    if k == 0 {
        1
    } else {
        2 * pow2_u32((k - 1) as nat)
    }
}

pub proof fn lemma_bits_value_bound(s: Seq<bool>)
    ensures
        bits_value(s) < pow2_u32(s.len()),
    decreases s.len(),
{
    if s.len() > 0 {
        lemma_bits_value_bound(s.drop_last());
    }
}

proof fn lemma_pow2_mono(a: nat, b: nat)
    requires
        a <= b,
    ensures
        pow2_u32(a) <= pow2_u32(b),
    decreases b - a,
{
    if a < b {
        lemma_pow2_mono(a, (b - 1) as nat);
    }
}

proof fn lemma_pow2_bound(k: nat)
    requires
        k < 32,
    ensures
        pow2_u32(k) <= 0x8000_0000,
        k < 16 ==> pow2_u32(k) <= 0x8000,
{
    reveal_with_fuel(pow2_u32, 32);
    assert(pow2_u32(15) == 0x8000);
    assert(pow2_u32(31) == 0x8000_0000);
    lemma_pow2_mono(k, 31);
    if k < 16 {
        lemma_pow2_mono(k, 15);
    }
}

proof fn lemma_shift_in_u32(w: u32, bit: u32)
    requires
        bit <= 1,
        w < 0x8000_0000u32,
    ensures
        ((w << 1u32) | bit) as int == 2 * w + bit,
{
    assert(w < 0x8000_0000u32 && bit <= 1 ==> ((w << 1u32) | bit) == 2 * w + bit) by (bit_vector);
}

proof fn lemma_shift_in_u16(w: u16, bit: u16, k: nat)
    requires
        bit <= 1,
        k < 16,
        (w as nat) < pow2_u32(k),
        pow2_u32(k) <= 0x8000,
    ensures
        ((w << 1u16) | bit) as int == 2 * w + bit,
{
    assert(w < 0x8000u16 && bit <= 1 ==> ((w << 1u16) | bit) == 2 * w + bit) by (bit_vector);
}

/// The odd-position (even-numbered, shifted) half of a Paula longword split.
pub open spec fn amiga_even_half(v: u32) -> u32 {
    (v >> 1u32) & 0x5555_5555u32
}

/// The data-position half of a Paula longword split.
pub open spec fn amiga_odd_half(v: u32) -> u32 {
    v & 0x5555_5555u32
}

/// Recombines a longword from its Paula even and odd MFM halves.
pub fn decode_amiga_longword(even_mfm: u32, odd_mfm: u32) -> (r: u32)
    ensures
        r == ((even_mfm & 0x5555_5555u32) << 1u32) | (odd_mfm & 0x5555_5555u32),
{
    ((even_mfm & 0x5555_5555u32) << 1u32) | (odd_mfm & 0x5555_5555u32)
}

/// Law: splitting a longword into its even and odd halves and decoding them
/// gives the longword back.
pub proof fn lemma_amiga_split_roundtrip(v: u32)
    ensures
        ((amiga_even_half(v) & 0x5555_5555u32) << 1u32) | (amiga_odd_half(v) & 0x5555_5555u32) == v,
{
    assert((((((v >> 1u32) & 0x5555_5555u32) & 0x5555_5555u32) << 1u32) | ((v & 0x5555_5555u32)
        & 0x5555_5555u32)) == v) by (bit_vector);
}

/// XOR of all longwords of a sequence.
pub open spec fn xor_fold(s: Seq<u32>) -> u32
    decreases s.len(),
{
    if s.len() == 0 {
        0
    } else {
        xor_fold(s.drop_last()) ^ s.last()
    }
}

/// Amiga checksum: XOR of the longwords, masked to the data cells.
pub open spec fn amiga_checksum_spec(s: Seq<u32>) -> u32 {
    xor_fold(s) & 0x5555_5555u32
}

/// Computes the Paula checksum (XOR of all longwords masked with 0x55555555).
pub fn calculate_amiga_checksum(longwords: &[u32]) -> (r: u32)
    ensures
        r == amiga_checksum_spec(longwords@),
{
    let mut chk: u32 = 0;
    let mut i: usize = 0;
    while i < longwords.len()
        invariant
            i <= longwords@.len(),
            chk == xor_fold(longwords@.subrange(0, i as int)),
        decreases longwords@.len() - i,
    {
        assert(longwords@.subrange(0, i + 1).drop_last() =~= longwords@.subrange(0, i as int));
        chk = chk ^ longwords[i];
        i = i + 1;
    }
    assert(longwords@.subrange(0, longwords@.len() as int) =~= longwords@);
    chk & 0x5555_5555u32
}

} // verus!
