//! CRC16-CCITT (polynomial 0x1021, initial value 0xFFFF) as used in the
//! address and data fields of IBM / ISO MFM sectors.
use vstd::prelude::*;

verus! {

/// One bit of the CRC shift register: shift left, xor the polynomial when
/// the bit shifted out was set.
pub open spec fn crc_bit_step(c: u16) -> u16 {
    if c & 0x8000u16 != 0 {
        ((c << 1u16) ^ 0x1021u16) as u16
    } else {
        (c << 1u16) as u16
    }
}

/// Eight shift steps (one byte's worth of bits).
pub open spec fn crc_eight_steps(c: u16) -> u16 {
    crc_bit_step(
        crc_bit_step(
            crc_bit_step(
                crc_bit_step(crc_bit_step(crc_bit_step(crc_bit_step(crc_bit_step(c))))),
            ),
        ),
    )
}

/// The bitwise reference CRC update for one data byte.
pub open spec fn crc_byte(crc: u16, b: u8) -> u16 {
    crc_eight_steps(crc ^ ((b as u16) << 8u16))
}

/// Entry `i` of the 256-entry lookup table.
pub open spec fn crc_table_entry(i: u8) -> u16 {
    crc_eight_steps((i as u16) << 8u16)
}

/// CRC of a byte sequence starting from register value `init`.
pub open spec fn crc_from(init: u16, data: Seq<u8>) -> u16
    decreases data.len(),
{
    if data.len() == 0 {
        init
    } else {
        crc_byte(crc_from(init, data.drop_last()), data.last())
    }
}

/// CRC16-CCITT of a byte sequence with the standard seed 0xFFFF.
pub open spec fn crc16_spec(data: Seq<u8>) -> u16 {
    crc_from(0xFFFFu16, data)
}

proof fn lemma_bit_step_linear(a: u16, b: u16)
    ensures
        crc_bit_step(a ^ b) == crc_bit_step(a) ^ crc_bit_step(b),
{
    assert(crc_bit_step(a ^ b) == crc_bit_step(a) ^ crc_bit_step(b)) by (bit_vector);
}

proof fn lemma_bit_step_small(a: u16)
    requires
        a < 0x8000u16,
    ensures
        crc_bit_step(a) == (a << 1u16) as u16,
{
    assert(a < 0x8000u16 ==> crc_bit_step(a) == (a << 1u16) as u16) by (bit_vector);
}

/// The eight-step shift is linear over xor.
proof fn lemma_eight_steps_linear(a: u16, b: u16)
    ensures
        crc_eight_steps(a ^ b) == crc_eight_steps(a) ^ crc_eight_steps(b),
{
    lemma_bit_step_linear(a, b);
    let a1 = crc_bit_step(a);
    let b1 = crc_bit_step(b);
    lemma_bit_step_linear(a1, b1);
    let a2 = crc_bit_step(a1);
    let b2 = crc_bit_step(b1);
    lemma_bit_step_linear(a2, b2);
    let a3 = crc_bit_step(a2);
    let b3 = crc_bit_step(b2);
    lemma_bit_step_linear(a3, b3);
    let a4 = crc_bit_step(a3);
    let b4 = crc_bit_step(b3);
    lemma_bit_step_linear(a4, b4);
    let a5 = crc_bit_step(a4);
    let b5 = crc_bit_step(b4);
    lemma_bit_step_linear(a5, b5);
    let a6 = crc_bit_step(a5);
    let b6 = crc_bit_step(b5);
    lemma_bit_step_linear(a6, b6);
    let a7 = crc_bit_step(a6);
    let b7 = crc_bit_step(b6);
    lemma_bit_step_linear(a7, b7);
}

/// A value below 256 is only shifted (the polynomial never comes in).
proof fn lemma_eight_steps_low(x: u16)
    requires
        x < 256,
    ensures
        crc_eight_steps(x) == (x << 8u16) as u16,
{
    assert(x < 256 ==> (x << 1u16) < 0x8000u16 && ((x << 1u16) << 1u16) < 0x8000u16
        && (((x << 1u16) << 1u16) << 1u16) < 0x8000u16 && ((((x << 1u16) << 1u16) << 1u16) << 1u16)
        < 0x8000u16 && (((((x << 1u16) << 1u16) << 1u16) << 1u16) << 1u16) < 0x8000u16
        && ((((((x << 1u16) << 1u16) << 1u16) << 1u16) << 1u16) << 1u16) < 0x8000u16
        && (((((((x << 1u16) << 1u16) << 1u16) << 1u16) << 1u16) << 1u16) << 1u16) < 0x8000u16
        && ((((((((x << 1u16) << 1u16) << 1u16) << 1u16) << 1u16) << 1u16) << 1u16) << 1u16)
        == (x << 8u16)) by (bit_vector);
    lemma_bit_step_small(x);
    let x1 = (x << 1u16) as u16;
    lemma_bit_step_small(x1);
    let x2 = (x1 << 1u16) as u16;
    lemma_bit_step_small(x2);
    let x3 = (x2 << 1u16) as u16;
    lemma_bit_step_small(x3);
    let x4 = (x3 << 1u16) as u16;
    lemma_bit_step_small(x4);
    let x5 = (x4 << 1u16) as u16;
    lemma_bit_step_small(x5);
    let x6 = (x5 << 1u16) as u16;
    lemma_bit_step_small(x6);
    let x7 = (x6 << 1u16) as u16;
    lemma_bit_step_small(x7);
}

/// Table-driven form of one update step equals the bitwise form.
pub proof fn lemma_crc_table_step(crc: u16, b: u8)
    ensures
        crc_byte(crc, b) == ((crc << 8u16) ^ crc_table_entry((((crc >> 8u16) as u8) ^ b) as u8)) as u16,
{
    let hi: u16 = ((((crc >> 8u16) as u8) ^ b) as u8) as u16;
    let lo: u16 = crc & 0xFFu16;
    assert(crc ^ ((b as u16) << 8u16) == (hi << 8u16) ^ lo && lo < 256 && (lo << 8u16) == (crc
        << 8u16)) by (bit_vector)
        requires
            hi == ((((crc >> 8u16) as u8) ^ b) as u8) as u16,
            lo == crc & 0xFFu16,
    ;
    lemma_eight_steps_linear((hi << 8u16) as u16, lo);
    lemma_eight_steps_low(lo);
    assert(crc_eight_steps((hi << 8u16) as u16) ^ ((lo << 8u16) as u16) == ((crc << 8u16)
        ^ crc_eight_steps((hi << 8u16) as u16)) as u16) by (bit_vector)
        requires
            (lo << 8u16) == (crc << 8u16),
    ;
}

/// Appending the register value (high byte first) to the data drives the
/// register to zero: the CRC of a block followed by its own CRC is 0.
pub proof fn lemma_crc_self_zeroing_step(c: u16)
    ensures
        crc_byte(crc_byte(c, (c >> 8u16) as u8), (c & 0xFFu16) as u8) == 0,
{
    let lo: u16 = c & 0xFFu16;
    assert(c ^ ((((c >> 8u16) as u8) as u16) << 8u16) == lo && lo < 256) by (bit_vector)
        requires
            lo == c & 0xFFu16,
    ;
    lemma_eight_steps_low(lo);
    let d: u16 = (lo << 8u16) as u16;
    assert(d ^ ((((c & 0xFFu16) as u8) as u16) << 8u16) == 0) by (bit_vector)
        requires
            lo == c & 0xFFu16,
            d == (lo << 8u16) as u16,
    ;
    lemma_eight_steps_low(0);
    assert((0u16 << 8u16) == 0u16) by (bit_vector);
}

pub proof fn lemma_crc_from_push(init: u16, data: Seq<u8>, b: u8)
    ensures
        crc_from(init, data.push(b)) == crc_byte(crc_from(init, data), b),
{
    assert(data.push(b).drop_last() =~= data);
}

pub proof fn lemma_crc_from_concat(init: u16, a: Seq<u8>, b: Seq<u8>)
    ensures
        crc_from(init, a + b) == crc_from(crc_from(init, a), b),
    decreases b.len(),
{
    if b.len() == 0 {
        assert(a + b =~= a);
    } else {
        assert((a + b).drop_last() =~= a + b.drop_last());
        lemma_crc_from_concat(init, a, b.drop_last());
    }
}

/// Law: a block followed by its CRC16 (most significant byte first) has CRC 0.
pub proof fn lemma_crc16_append_is_zero(data: Seq<u8>)
    ensures
        ({
            let c = crc16_spec(data);
            crc16_spec(data.push((c >> 8u16) as u8).push((c & 0xFFu16) as u8)) == 0
        }),
{
    let c = crc16_spec(data);
    lemma_crc_from_push(0xFFFFu16, data, (c >> 8u16) as u8);
    lemma_crc_from_push(0xFFFFu16, data.push((c >> 8u16) as u8), (c & 0xFFu16) as u8);
    lemma_crc_self_zeroing_step(c);
}

/// Law: the table-driven update agrees with the bitwise reference for every
/// register value and byte.
pub proof fn lemma_crc16_table_matches_bitwise(crc: u16, b: u8)
    ensures
        ((crc << 8u16) ^ crc_table_entry((((crc >> 8u16) as u8) ^ b) as u8)) as u16 == crc_eight_steps(
            crc ^ ((b as u16) << 8u16),
        ),
{
    lemma_crc_table_step(crc, b);
}

/// Computes lookup table entry `i` by eight bitwise shift steps.
pub fn crc16_table_entry(i: u8) -> (r: u16)
    ensures
        r == crc_table_entry(i),
{
    let mut curr: u16 = (i as u16) << 8u16;
    let ghost start = curr;
    let mut j: u8 = 0;
    while j < 8
        invariant
            j <= 8,
            start == (i as u16) << 8u16,
            j == 0 ==> curr == start,
            j == 1 ==> curr == crc_bit_step(start),
            j == 2 ==> curr == crc_bit_step(crc_bit_step(start)),
            j == 3 ==> curr == crc_bit_step(crc_bit_step(crc_bit_step(start))),
            j == 4 ==> curr == crc_bit_step(crc_bit_step(crc_bit_step(crc_bit_step(start)))),
            j == 5 ==> curr == crc_bit_step(
                crc_bit_step(crc_bit_step(crc_bit_step(crc_bit_step(start)))),
            ),
            j == 6 ==> curr == crc_bit_step(
                crc_bit_step(crc_bit_step(crc_bit_step(crc_bit_step(crc_bit_step(start))))),
            ),
            j == 7 ==> curr == crc_bit_step(
                crc_bit_step(
                    crc_bit_step(crc_bit_step(crc_bit_step(crc_bit_step(crc_bit_step(start))))),
                ),
            ),
            j == 8 ==> curr == crc_eight_steps(start),
        decreases 8 - j,
    {
        let ghost before = curr;
        if (curr & 0x8000u16) != 0 {
            curr = (curr << 1u16) ^ 0x1021u16;
        } else {
            curr = curr << 1u16;
        }
        assert(curr == crc_bit_step(before));
        j = j + 1;
    }
    curr
}

/// Generates the 256-entry CRC16-CCITT lookup table (polynomial 0x1021).
pub fn generate_crc16_table() -> (table: [u16; 256])
    ensures
        forall|i: int| 0 <= i < 256 ==> #[trigger] table@[i] == crc_table_entry(i as u8),
{
    let mut table = [0u16; 256];
    let mut i: usize = 0;
    while i < 256
        invariant
            i <= 256,
            table@.len() == 256,
            forall|k: int| 0 <= k < i ==> #[trigger] table@[k] == crc_table_entry(k as u8),
        decreases 256 - i,
    {
        let e = crc16_table_entry(i as u8);
        table[i] = e;
        i = i + 1;
    }
    table
}

/// One CRC16-CCITT update step in table form: `(crc << 8) ^ T[(crc >> 8) ^ byte]`.
pub fn crc16_update(crc: u16, byte: u8) -> (r: u16)
    ensures
        r == crc_byte(crc, byte),
{
    let idx: u8 = ((crc >> 8u16) as u8) ^ byte;
    let t = crc16_table_entry(idx);
    proof {
        lemma_crc_table_step(crc, byte);
    }
    (crc << 8u16) ^ t
}

/// CRC16-CCITT of a byte slice with the initial seed 0xFFFF (table form).
pub fn compute_crc16(data: &[u8]) -> (r: u16)
    ensures
        r == crc16_spec(data@),
{
    let mut crc: u16 = 0xFFFF;
    let mut i: usize = 0;
    while i < data.len()
        invariant
            i <= data@.len(),
            crc == crc_from(0xFFFFu16, data@.subrange(0, i as int)),
        decreases data@.len() - i,
    {
        proof {
            lemma_crc_from_push(0xFFFFu16, data@.subrange(0, i as int), data@[i as int]);
            assert(data@.subrange(0, i as int).push(data@[i as int]) =~= data@.subrange(0, i + 1));
        }
        crc = crc16_update(crc, data[i]);
        i = i + 1;
    }
    assert(data@.subrange(0, data@.len() as int) =~= data@);
    crc
}

/// CRC16-CCITT of a byte slice with the initial seed 0xFFFF (bitwise form).
pub fn crc16_ccitt(data: &[u8]) -> (r: u16)
    ensures
        r == crc16_spec(data@),
{
    let mut crc: u16 = 0xFFFF;
    let mut i: usize = 0;
    while i < data.len()
        invariant
            i <= data@.len(),
            crc == crc_from(0xFFFFu16, data@.subrange(0, i as int)),
        decreases data@.len() - i,
    {
        proof {
            lemma_crc_from_push(0xFFFFu16, data@.subrange(0, i as int), data@[i as int]);
            assert(data@.subrange(0, i as int).push(data@[i as int]) =~= data@.subrange(0, i + 1));
        }
        let b = data[i];
        let ghost before = crc;
        crc = crc ^ ((b as u16) << 8u16);
        let ghost start = crc;
        let mut k: u8 = 0;
        while k < 8
            invariant
                k <= 8,
                start == before ^ ((b as u16) << 8u16),
                k == 0 ==> crc == start,
                k == 1 ==> crc == crc_bit_step(start),
                k == 2 ==> crc == crc_bit_step(crc_bit_step(start)),
                k == 3 ==> crc == crc_bit_step(crc_bit_step(crc_bit_step(start))),
                k == 4 ==> crc == crc_bit_step(crc_bit_step(crc_bit_step(crc_bit_step(start)))),
                k == 5 ==> crc == crc_bit_step(
                    crc_bit_step(crc_bit_step(crc_bit_step(crc_bit_step(start)))),
                ),
                k == 6 ==> crc == crc_bit_step(
                    crc_bit_step(crc_bit_step(crc_bit_step(crc_bit_step(crc_bit_step(start))))),
                ),
                k == 7 ==> crc == crc_bit_step(
                    crc_bit_step(
                        crc_bit_step(
                            crc_bit_step(crc_bit_step(crc_bit_step(crc_bit_step(start)))),
                        ),
                    ),
                ),
                k == 8 ==> crc == crc_eight_steps(start),
            decreases 8 - k,
        {
            let ghost prev = crc;
            if (crc & 0x8000u16) != 0 {
                crc = (crc << 1u16) ^ 0x1021u16;
            } else {
                crc = crc << 1u16;
            }
            assert(crc == crc_bit_step(prev));
            k = k + 1;
        }
        i = i + 1;
    }
    assert(data@.subrange(0, data@.len() as int) =~= data@);
    crc
}

} // verus!
