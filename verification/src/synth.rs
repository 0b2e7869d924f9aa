//! MFM track synthesis for low-level formatting: IBM / ISO track layouts
//! (address mark, ID field with CRC, data field with CRC, gaps) and the
//! AmigaDOS Paula odd/even track layout, plus the single-pass conversion of
//! a synthesised track into a Greaseweazle flux stream.
use vstd::prelude::*;
use crate::crc::{crc16_spec, crc_byte, crc_from, lemma_crc_from_push, compute_crc16, crc16_update};
use crate::flux::{flux_ticks_spec, gw_encode_stream, FluxSynthesizer};
use crate::mfm::{
    amiga_even_half, amiga_odd_half, mfm_encode_byte, mfm_encode_word, u16_bits, u32_bits, xor_fold,
};
use crate::protocol::PresetProfile;

verus! {

/// Altered MFM sync word for 0xA1 with the missing clock cell.
pub const MFM_SYNC_A1_DROPPED: u16 = 0x4489;

/// AmigaDOS sync word.
pub const AMIGA_SYNC_WORD: u16 = 0x4489;

/// One element of an MFM byte stream: a data byte, or the A1 sync mark
/// with its missing clock cell (written as the raw word 0x4489).
pub open spec fn sym_bits(prev: bool, s: Option<u8>) -> Seq<bool> {
    match s {
        Some(b) => u16_bits(mfm_encode_word(prev, b)),
        None => u16_bits(0x4489u16),
    }
}

/// The last data bit after a symbol.
pub open spec fn sym_last(prev: bool, s: Option<u8>) -> bool {
    match s {
        Some(b) => b & 1u8 == 1u8,
        None => true,
    }
}

/// Last data bit after a run of symbols.
pub open spec fn syms_last(prev: bool, syms: Seq<Option<u8>>) -> bool
    decreases syms.len(),
{
    if syms.len() == 0 {
        prev
    } else {
        sym_last(syms_last(prev, syms.drop_last()), syms.last())
    }
}

/// MFM cells of a run of symbols.
pub open spec fn syms_bits(prev: bool, syms: Seq<Option<u8>>) -> Seq<bool>
    decreases syms.len(),
{
    if syms.len() == 0 {
        Seq::empty()
    } else {
        syms_bits(prev, syms.drop_last()) + sym_bits(syms_last(prev, syms.drop_last()), syms.last())
    }
}

/// `n` copies of a data byte.
pub open spec fn rep(b: u8, n: nat) -> Seq<Option<u8>> {
    Seq::new(n, |i: int| Some(b))
}

/// Three A1 sync marks.
pub open spec fn sync3() -> Seq<Option<u8>> {
    seq![None::<u8>, None::<u8>, None::<u8>]
}

/// CRC of a sector ID field (including the three A1 marks).
pub open spec fn id_field_crc(cyl: u8, head: u8, sec_id: u8) -> u16 {
    crc16_spec(seq![0xA1u8, 0xA1, 0xA1, 0xFE, cyl, head, sec_id, 2])
}

/// CRC of a 512-byte data field filled with one byte.
pub open spec fn data_field_crc(fill: u8) -> u16 {
    crc16_spec(seq![0xA1u8, 0xA1, 0xA1, 0xFB] + Seq::new(512, |i: int| fill))
}

/// One IBM sector: sync, ID field with CRC, gap 2, sync, data field with
/// CRC, gap 3.
pub open spec fn ibm_sector_syms(cyl: u8, head: u8, sec_id: u8, gap2: nat, gap3: nat, fill: u8) -> Seq<Option<u8>> {
    let idc = id_field_crc(cyl, head, sec_id);
    let dc = data_field_crc(fill);
    rep(0x00, 12) + sync3() + seq![
        Some(0xFEu8),
        Some(cyl),
        Some(head),
        Some(sec_id),
        Some(2u8),
        Some((idc >> 8u16) as u8),
        Some((idc & 0xFFu16) as u8),
    ] + rep(0x4E, gap2) + rep(0x00, 12) + sync3() + seq![Some(0xFBu8)] + rep(fill, 512) + seq![
        Some((dc >> 8u16) as u8),
        Some((dc & 0xFFu16) as u8),
    ] + rep(0x4E, gap3)
}

/// The first `k` sectors of an IBM track, IDs counting up from `first`.
pub open spec fn ibm_sectors_syms(cyl: u8, head: u8, first: u8, k: nat, gap2: nat, gap3: nat, fill: u8) -> Seq<Option<u8>>
    decreases k,
{
    if k == 0 {
        Seq::empty()
    } else {
        ibm_sectors_syms(cyl, head, first, (k - 1) as nat, gap2, gap3, fill) + ibm_sector_syms(
            cyl,
            head,
            (first + k - 1) as u8,
            gap2,
            gap3,
            fill,
        )
    }
}

/// Number of gap 4 bytes appended so that the track reaches `target` cells.
pub open spec fn pad_count(len: nat, target: nat) -> nat {
    if len >= target {
        0
    } else {
        ((target - len + 15) / 16) as nat
    }
}

/// The full IBM track before the gap 4 fill.
pub open spec fn ibm_track_body(cyl: u8, head: u8, count: u8, first: u8, gap1: nat, gap2: nat, gap3: nat, fill: u8) -> Seq<Option<u8>> {
    rep(0x4E, gap1) + ibm_sectors_syms(cyl, head, first, count as nat, gap2, gap3, fill)
}

/// The full IBM track: body, then gap 4 bytes until the nominal revolution
/// length plus a 1/64 splice margin is reached.
pub open spec fn ibm_track_syms(cyl: u8, head: u8, count: u8, first: u8, gap1: nat, gap2: nat, gap3: nat, fill: u8, nominal: nat) -> Seq<Option<u8>> {
    let body = ibm_track_body(cyl, head, count, first, gap1, gap2, gap3, fill);
    body + rep(0x4E, pad_count(16 * body.len(), nominal + nominal / 64))
}

/// The cells of a run of longwords.
pub open spec fn words_bits(ws: Seq<u32>) -> Seq<bool>
    decreases ws.len(),
{
    if ws.len() == 0 {
        Seq::empty()
    } else {
        words_bits(ws.drop_last()) + u32_bits(ws.last())
    }
}

/// Amiga sector info longword: format 0xFF, track, sector, sectors to gap.
pub open spec fn amiga_info(track_num: u8, sec: u8) -> u32 {
    ((0xFFu32 << 24u32) | ((track_num as u32) << 16u32) | ((sec as u32) << 8u32) | ((11 - sec) as u32)) as u32
}

/// Data longword `i` of a freshly formatted Amiga sector.
pub open spec fn amiga_data_lw(sec: u8, i: int) -> u32 {
    if i == 0 {
        0xE5E5_0000u32 | (sec as u32)
    } else {
        0xE5E5_E5E5u32
    }
}

pub open spec fn amiga_header_chk(track_num: u8, sec: u8) -> u32 {
    (amiga_even_half(amiga_info(track_num, sec)) ^ amiga_odd_half(amiga_info(track_num, sec)))
        & 0x5555_5555u32
}

pub open spec fn amiga_data_chk(sec: u8) -> u32 {
    xor_fold(
        Seq::new(
            128,
            |i: int| amiga_even_half(amiga_data_lw(sec, i)) ^ amiga_odd_half(amiga_data_lw(sec, i)),
        ),
    ) & 0x5555_5555u32
}

/// Longwords of an Amiga sector after the two sync words.
pub open spec fn amiga_sector_words(track_num: u8, sec: u8) -> Seq<u32> {
    let info = amiga_info(track_num, sec);
    let h = amiga_header_chk(track_num, sec);
    let d = amiga_data_chk(sec);
    seq![
        amiga_even_half(info),
        amiga_odd_half(info),
        0u32,
        0u32,
        0u32,
        0u32,
        0u32,
        0u32,
        0u32,
        0u32,
        amiga_even_half(h),
        amiga_odd_half(h),
        amiga_even_half(d),
        amiga_odd_half(d),
    ] + Seq::new(128, |i: int| amiga_even_half(amiga_data_lw(sec, i))) + Seq::new(
        128,
        |i: int| amiga_odd_half(amiga_data_lw(sec, i)),
    )
}

/// Cells of one Amiga sector: two sync words then the sector longwords.
pub open spec fn amiga_sector_bits(track_num: u8, sec: u8) -> Seq<bool> {
    u16_bits(0x4489u16) + u16_bits(0x4489u16) + words_bits(amiga_sector_words(track_num, sec))
}

/// Cells of the first `k` Amiga sectors.
pub open spec fn amiga_sectors_bits(track_num: u8, k: nat) -> Seq<bool>
    decreases k,
{
    if k == 0 {
        Seq::empty()
    } else {
        amiga_sectors_bits(track_num, (k - 1) as nat) + amiga_sector_bits(track_num, (k - 1) as u8)
    }
}

/// Number of filler longwords so that the track reaches 50,800 cells.
pub open spec fn amiga_pad_words(len: nat) -> nat {
    if len >= 50_800 {
        0
    } else {
        ((50_800 - len + 31) / 32) as nat
    }
}

/// The full Amiga track: pre-gap longword, eleven sectors, filler.
pub open spec fn amiga_track_bits(cyl: u8, head: u8) -> Seq<bool> {
    let track_num = ((cyl << 1u8) | (head & 1u8)) as u8;
    let body = u32_bits(0xAAAA_AAAAu32) + amiga_sectors_bits(track_num, 11);
    body + words_bits(Seq::new(amiga_pad_words(body.len()), |i: int| 0xAAAA_AAAAu32))
}

/// Track layout parameters of a preset: sector count, first sector ID,
/// gap 1, gap 2, gap 3 and nominal cells per revolution.
pub open spec fn ibm_layout(p: PresetProfile) -> (u8, u8, nat, nat, nat, nat) {
    match p {
        PresetProfile::Pc35Hd => (18, 1, 80, 22, 84, 100_000),
        PresetProfile::Pc525Hd => (15, 1, 80, 22, 84, 83_333),
        PresetProfile::Cpc30Data => (9, 0xC1, 32, 22, 54, 50_000),
        _ => (9, 1, 32, 22, 54, 50_000),
    }
}

/// The cell stream of a formatted track for a preset, cylinder and head.
pub open spec fn track_bits_spec(p: PresetProfile, cyl: u8, head: u8) -> Seq<bool> {
    if p == PresetProfile::Amiga35Dd {
        amiga_track_bits(cyl, head)
    } else {
        let l = ibm_layout(p);
        syms_bits(false, ibm_track_syms(cyl, head, l.0, l.1, l.2, l.3, l.4, 0xE5, l.5))
    }
}

/// Reusable scratch buffers: MFM cells, flux intervals and the flux byte stream.
pub struct MfmTrackBuffer {
    pub bits: Vec<bool>,
    pub flux_ticks: Vec<u32>,
    pub gw_flux_bytes: Vec<u8>,
}

impl MfmTrackBuffer {
    /// Creates empty buffers with room for the longest synthesised track
    /// (190,784 cells) and its flux.
    pub fn new() -> (b: Self)
        ensures
            b.bits@.len() == 0,
            b.flux_ticks@.len() == 0,
            b.gw_flux_bytes@.len() == 0,
    {
        MfmTrackBuffer {
            bits: Vec::with_capacity(200_000),
            flux_ticks: Vec::with_capacity(100_000),
            gw_flux_bytes: Vec::with_capacity(131_072),
        }
    }

    /// Empties all buffers.
    pub fn clear(&mut self)
        ensures
            final(self).bits@.len() == 0,
            final(self).flux_ticks@.len() == 0,
            final(self).gw_flux_bytes@.len() == 0,
    {
        self.bits.clear();
        self.flux_ticks.clear();
        self.gw_flux_bytes.clear();
    }
}

impl Default for MfmTrackBuffer {
    fn default() -> (b: Self)
        ensures
            b.bits@.len() == 0,
            b.flux_ticks@.len() == 0,
            b.gw_flux_bytes@.len() == 0,
    {
        Self::new()
    }
}

/// MFM track encoder for the supported disk layouts.
pub struct MfmTrackEncoder;

fn push_u16_cells(bits: &mut Vec<bool>, w: u16)
    ensures
        final(bits)@ == old(bits)@ + u16_bits(w),
{
    let mut k: u16 = 0;
    while k < 16
        invariant
            k <= 16,
            bits@ == old(bits)@ + u16_bits(w).subrange(0, k as int),
        decreases 16 - k,
    {
        let shift: u16 = 15 - k;
        let cell = ((w >> shift) & 1u16) != 0;
        assert(cell == ((w >> shift) & 1u16 == 1u16)) by (bit_vector)
            requires
                cell == (((w >> shift) & 1u16) != 0),
        ;
        bits.push(cell);
        k = k + 1;
        assert(bits@ =~= old(bits)@ + u16_bits(w).subrange(0, k as int));
    }
    assert(u16_bits(w).subrange(0, 16) =~= u16_bits(w));
}

proof fn lemma_syms_push(prev: bool, syms: Seq<Option<u8>>, s: Option<u8>)
    ensures
        syms_bits(prev, syms.push(s)) == syms_bits(prev, syms) + sym_bits(syms_last(prev, syms), s),
        syms_last(prev, syms.push(s)) == sym_last(syms_last(prev, syms), s),
{
    assert(syms.push(s).drop_last() =~= syms);
}

proof fn lemma_syms_concat(prev: bool, a: Seq<Option<u8>>, b: Seq<Option<u8>>)
    ensures
        syms_bits(prev, a + b) == syms_bits(prev, a) + syms_bits(syms_last(prev, a), b),
        syms_last(prev, a + b) == syms_last(syms_last(prev, a), b),
    decreases b.len(),
{
    if b.len() == 0 {
        assert(a + b =~= a);
        assert(syms_bits(prev, a) + syms_bits(syms_last(prev, a), b) =~= syms_bits(prev, a));
    } else {
        assert((a + b).drop_last() =~= a + b.drop_last());
        lemma_syms_concat(prev, a, b.drop_last());
        assert(syms_bits(prev, a + b) =~= syms_bits(prev, a) + syms_bits(syms_last(prev, a), b));
    }
}

proof fn lemma_words_push(ws: Seq<u32>, w: u32)
    ensures
        words_bits(ws.push(w)) == words_bits(ws) + u32_bits(w),
{
    assert(ws.push(w).drop_last() =~= ws);
}

impl MfmTrackEncoder {
    /// Appends the 16 MFM cells of one byte, updating the last data bit.
    pub fn push_mfm_byte(bits: &mut Vec<bool>, byte: u8, last_bit: &mut bool)
        ensures
            final(bits)@ == old(bits)@ + sym_bits(*old(last_bit), Some(byte)),
            *final(last_bit) == sym_last(*old(last_bit), Some(byte)),
    {
        let w = mfm_encode_byte(*last_bit, byte);
        push_u16_cells(bits, w);
        let lb = (byte & 1u8) != 0;
        assert(lb == (byte & 1u8 == 1u8)) by (bit_vector)
            requires
                lb == ((byte & 1u8) != 0),
        ;
        *last_bit = lb;
    }

    /// Appends `count` copies of a byte.
    pub fn push_mfm_repeat(bits: &mut Vec<bool>, byte: u8, count: usize, last_bit: &mut bool)
        ensures
            final(bits)@ == old(bits)@ + syms_bits(*old(last_bit), rep(byte, count as nat)),
            *final(last_bit) == syms_last(*old(last_bit), rep(byte, count as nat)),
    {
        let mut i: usize = 0;
        while i < count
            invariant
                i <= count,
                bits@ == old(bits)@ + syms_bits(*old(last_bit), rep(byte, i as nat)),
                *last_bit == syms_last(*old(last_bit), rep(byte, i as nat)),
            decreases count - i,
        {
            let ghost before = bits@;
            proof {
                lemma_syms_push(*old(last_bit), rep(byte, i as nat), Some(byte));
                assert(rep(byte, i as nat).push(Some(byte)) =~= rep(byte, (i + 1) as nat));
            }
            Self::push_mfm_byte(bits, byte, last_bit);
            i = i + 1;
            assert(bits@ =~= old(bits)@ + syms_bits(*old(last_bit), rep(byte, i as nat)));
        }
    }

    /// Appends the altered sync word 0x4489 (A1 with a missing clock cell).
    pub fn push_altered_sync_a1(bits: &mut Vec<bool>, last_bit: &mut bool)
        ensures
            final(bits)@ == old(bits)@ + sym_bits(*old(last_bit), None),
            *final(last_bit) == sym_last(*old(last_bit), None),
    {
        push_u16_cells(bits, MFM_SYNC_A1_DROPPED);
        *last_bit = true;
    }

    /// Appends an Amiga sync word 0x4489.
    pub fn push_amiga_sync_word(bits: &mut Vec<bool>, last_bit: &mut bool)
        ensures
            final(bits)@ == old(bits)@ + u16_bits(0x4489u16),
            *final(last_bit) == true,
    {
        push_u16_cells(bits, AMIGA_SYNC_WORD);
        *last_bit = true;
    }

    /// Appends the 32 cells of a raw longword, most significant first.
    pub fn push_u32_bits(bits: &mut Vec<bool>, val: u32)
        ensures
            final(bits)@ == old(bits)@ + u32_bits(val),
    {
        let mut k: u32 = 0;
        while k < 32
            invariant
                k <= 32,
                bits@ == old(bits)@ + u32_bits(val).subrange(0, k as int),
            decreases 32 - k,
        {
            let shift: u32 = 31 - k;
            let cell = ((val >> shift) & 1u32) != 0;
            assert(cell == ((val >> shift) & 1u32 == 1u32)) by (bit_vector)
                requires
                    cell == (((val >> shift) & 1u32) != 0),
            ;
            bits.push(cell);
            k = k + 1;
            assert(bits@ =~= old(bits)@ + u32_bits(val).subrange(0, k as int));
        }
        assert(u32_bits(val).subrange(0, 32) =~= u32_bits(val));
    }
}

pub(crate) proof fn lemma_syms_bits_len(prev: bool, syms: Seq<Option<u8>>)
    ensures
        syms_bits(prev, syms).len() == 16 * syms.len(),
    decreases syms.len(),
{
    if syms.len() > 0 {
        lemma_syms_bits_len(prev, syms.drop_last());
    }
}

pub(crate) proof fn lemma_words_bits_len(ws: Seq<u32>)
    ensures
        words_bits(ws).len() == 32 * ws.len(),
    decreases ws.len(),
{
    if ws.len() > 0 {
        lemma_words_bits_len(ws.drop_last());
    }
}

pub(crate) proof fn lemma_ibm_sectors_len(cyl: u8, head: u8, first: u8, k: nat, gap2: nat, gap3: nat, fill: u8)
    ensures
        ibm_sectors_syms(cyl, head, first, k, gap2, gap3, fill).len() == k * (552 + gap2 + gap3),
    decreases k,
{
    if k > 0 {
        lemma_ibm_sectors_len(cyl, head, first, (k - 1) as nat, gap2, gap3, fill);
        assert(ibm_sector_syms(cyl, head, (first + k - 1) as u8, gap2, gap3, fill).len() == 552 + gap2
            + gap3);
        let c = 552 + gap2 + gap3;
        let km1 = (k - 1) as nat;
        assert(km1 * c + c == k * c) by (nonlinear_arith)
            requires
                km1 + 1 == k,
        ;
        assert(ibm_sectors_syms(cyl, head, first, k, gap2, gap3, fill) == ibm_sectors_syms(cyl, head, first, km1, gap2, gap3, fill) + ibm_sector_syms(cyl, head, (first + k - 1) as u8, gap2, gap3, fill));
    } else {
        assert(0 * (552 + gap2 + gap3) == 0);
    }
}

fn emit_byte(bits: &mut Vec<bool>, last_bit: &mut bool, b: u8, Ghost(syms): Ghost<Seq<Option<u8>>>)
    requires
        old(bits)@ == syms_bits(false, syms),
        *old(last_bit) == syms_last(false, syms),
    ensures
        final(bits)@ == syms_bits(false, syms.push(Some(b))),
        *final(last_bit) == syms_last(false, syms.push(Some(b))),
{
    proof {
        lemma_syms_push(false, syms, Some(b));
    }
    MfmTrackEncoder::push_mfm_byte(bits, b, last_bit);
}

fn emit_sync3(bits: &mut Vec<bool>, last_bit: &mut bool, Ghost(syms): Ghost<Seq<Option<u8>>>)
    requires
        old(bits)@ == syms_bits(false, syms),
        *old(last_bit) == syms_last(false, syms),
    ensures
        final(bits)@ == syms_bits(false, syms + sync3()),
        *final(last_bit) == syms_last(false, syms + sync3()),
{
    proof {
        lemma_syms_push(false, syms, None);
        lemma_syms_push(false, syms.push(None), None);
        lemma_syms_push(false, syms.push(None).push(None), None);
        assert(syms.push(None).push(None).push(None) =~= syms + sync3());
    }
    MfmTrackEncoder::push_altered_sync_a1(bits, last_bit);
    MfmTrackEncoder::push_altered_sync_a1(bits, last_bit);
    MfmTrackEncoder::push_altered_sync_a1(bits, last_bit);
}

fn emit_repeat(bits: &mut Vec<bool>, last_bit: &mut bool, b: u8, n: usize, Ghost(syms): Ghost<Seq<Option<u8>>>)
    requires
        old(bits)@ == syms_bits(false, syms),
        *old(last_bit) == syms_last(false, syms),
    ensures
        final(bits)@ == syms_bits(false, syms + rep(b, n as nat)),
        *final(last_bit) == syms_last(false, syms + rep(b, n as nat)),
{
    proof {
        lemma_syms_concat(false, syms, rep(b, n as nat));
    }
    MfmTrackEncoder::push_mfm_repeat(bits, b, n, last_bit);
}

/// The ID part of an IBM sector: sync bytes, marks, ID field and CRC.
pub open spec fn ibm_id_part(cyl: u8, head: u8, sec_id: u8) -> Seq<Option<u8>> {
    let idc = id_field_crc(cyl, head, sec_id);
    rep(0x00, 12) + sync3() + seq![
        Some(0xFEu8),
        Some(cyl),
        Some(head),
        Some(sec_id),
        Some(2u8),
        Some((idc >> 8u16) as u8),
        Some((idc & 0xFFu16) as u8),
    ]
}

/// The data part of an IBM sector: sync bytes, marks, data mark, fill and CRC.
pub open spec fn ibm_data_part(fill: u8) -> Seq<Option<u8>> {
    let dc = data_field_crc(fill);
    rep(0x00, 12) + sync3() + seq![Some(0xFBu8)] + rep(fill, 512) + seq![
        Some((dc >> 8u16) as u8),
        Some((dc & 0xFFu16) as u8),
    ]
}

proof fn lemma_ibm_sector_parts(cyl: u8, head: u8, sec_id: u8, gap2: nat, gap3: nat, fill: u8)
    ensures
        ibm_sector_syms(cyl, head, sec_id, gap2, gap3, fill) == ibm_id_part(cyl, head, sec_id) + rep(
            0x4E,
            gap2,
        ) + ibm_data_part(fill) + rep(0x4E, gap3),
{
    assert(ibm_sector_syms(cyl, head, sec_id, gap2, gap3, fill) =~= ibm_id_part(cyl, head, sec_id)
        + rep(0x4E, gap2) + ibm_data_part(fill) + rep(0x4E, gap3));
}

fn emit_id_part(
    bits: &mut Vec<bool>,
    last_bit: &mut bool,
    cyl: u8,
    head: u8,
    sec_id: u8,
    Ghost(syms): Ghost<Seq<Option<u8>>>,
)
    requires
        old(bits)@ == syms_bits(false, syms),
        *old(last_bit) == syms_last(false, syms),
    ensures
        final(bits)@ == syms_bits(false, syms + ibm_id_part(cyl, head, sec_id)),
        *final(last_bit) == syms_last(false, syms + ibm_id_part(cyl, head, sec_id)),
{
    let ghost s0 = syms;
    let ghost mut syms = syms;
    emit_repeat(bits, last_bit, 0x00, 12, Ghost(syms));
    proof {
        syms = syms + rep(0x00, 12);
    }
    emit_sync3(bits, last_bit, Ghost(syms));
    proof {
        syms = syms + sync3();
    }
    let id_data = vec![0xA1u8, 0xA1, 0xA1, 0xFE, cyl, head, sec_id, 2];
    let id_crc = compute_crc16(id_data.as_slice());
    assert(id_data@ =~= seq![0xA1u8, 0xA1, 0xA1, 0xFE, cyl, head, sec_id, 2]);
    emit_byte(bits, last_bit, 0xFE, Ghost(syms));
    proof {
        syms = syms.push(Some(0xFEu8));
    }
    emit_byte(bits, last_bit, cyl, Ghost(syms));
    proof {
        syms = syms.push(Some(cyl));
    }
    emit_byte(bits, last_bit, head, Ghost(syms));
    proof {
        syms = syms.push(Some(head));
    }
    emit_byte(bits, last_bit, sec_id, Ghost(syms));
    proof {
        syms = syms.push(Some(sec_id));
    }
    emit_byte(bits, last_bit, 2, Ghost(syms));
    proof {
        syms = syms.push(Some(2u8));
    }
    emit_byte(bits, last_bit, (id_crc >> 8u16) as u8, Ghost(syms));
    proof {
        syms = syms.push(Some((id_crc >> 8u16) as u8));
    }
    emit_byte(bits, last_bit, (id_crc & 0xFFu16) as u8, Ghost(syms));
    proof {
        syms = syms.push(Some((id_crc & 0xFFu16) as u8));
        assert(id_crc == id_field_crc(cyl, head, sec_id));
        assert(syms =~= s0 + ibm_id_part(cyl, head, sec_id));
    }
}

#[verifier::rlimit(30)]
fn emit_data_part(bits: &mut Vec<bool>, last_bit: &mut bool, fill_byte: u8, Ghost(syms): Ghost<Seq<Option<u8>>>)
    requires
        old(bits)@ == syms_bits(false, syms),
        *old(last_bit) == syms_last(false, syms),
    ensures
        final(bits)@ == syms_bits(false, syms + ibm_data_part(fill_byte)),
        *final(last_bit) == syms_last(false, syms + ibm_data_part(fill_byte)),
{
    let ghost s0 = syms;
    let ghost mut syms = syms;
    emit_repeat(bits, last_bit, 0x00, 12, Ghost(syms));
    proof {
        syms = syms + rep(0x00, 12);
    }
    emit_sync3(bits, last_bit, Ghost(syms));
    proof {
        syms = syms + sync3();
    }
    let mut data_crc: u16 = 0xFFFF;
    data_crc = crc16_update(data_crc, 0xA1);
    data_crc = crc16_update(data_crc, 0xA1);
    data_crc = crc16_update(data_crc, 0xA1);
    data_crc = crc16_update(data_crc, 0xFB);
    proof {
        reveal_with_fuel(crc_from, 5);
        assert(seq![0xA1u8, 0xA1, 0xA1, 0xFB].drop_last() =~= seq![0xA1u8, 0xA1, 0xA1]);
        assert(seq![0xA1u8, 0xA1, 0xA1].drop_last() =~= seq![0xA1u8, 0xA1]);
        assert(seq![0xA1u8, 0xA1].drop_last() =~= seq![0xA1u8]);
        assert(seq![0xA1u8].drop_last() =~= Seq::<u8>::empty());
        assert(seq![0xA1u8, 0xA1, 0xA1, 0xFB] + Seq::new(0, |i: int| fill_byte) =~= seq![0xA1u8, 0xA1, 0xA1, 0xFB]);
    }
    emit_byte(bits, last_bit, 0xFB, Ghost(syms));
    proof {
        syms = syms.push(Some(0xFBu8));
    }
    let ghost s_data = syms;
    let mut j: usize = 0;
    while j < 512
        invariant
            j <= 512,
            data_crc == crc_from(
                0xFFFFu16,
                seq![0xA1u8, 0xA1, 0xA1, 0xFB] + Seq::new(j as nat, |i: int| fill_byte),
            ),
            syms == s_data + rep(fill_byte, j as nat),
            bits@ == syms_bits(false, syms),
            *last_bit == syms_last(false, syms),
        decreases 512 - j,
    {
        proof {
            let pre = seq![0xA1u8, 0xA1, 0xA1, 0xFB] + Seq::new(j as nat, |i: int| fill_byte);
            lemma_crc_from_push(0xFFFFu16, pre, fill_byte);
            assert(pre.push(fill_byte) =~= seq![0xA1u8, 0xA1, 0xA1, 0xFB] + Seq::new(
                (j + 1) as nat,
                |i: int| fill_byte,
            ));
        }
        data_crc = crc16_update(data_crc, fill_byte);
        emit_byte(bits, last_bit, fill_byte, Ghost(syms));
        proof {
            assert(syms.push(Some(fill_byte)) =~= s_data + rep(fill_byte, (j + 1) as nat));
            syms = syms.push(Some(fill_byte));
        }
        j = j + 1;
    }
    emit_byte(bits, last_bit, (data_crc >> 8u16) as u8, Ghost(syms));
    proof {
        syms = syms.push(Some((data_crc >> 8u16) as u8));
    }
    emit_byte(bits, last_bit, (data_crc & 0xFFu16) as u8, Ghost(syms));
    proof {
        syms = syms.push(Some((data_crc & 0xFFu16) as u8));
        assert(data_crc == data_field_crc(fill_byte));
        assert(syms =~= s0 + ibm_data_part(fill_byte));
    }
}

fn emit_ibm_sector(
    bits: &mut Vec<bool>,
    last_bit: &mut bool,
    cyl: u8,
    head: u8,
    sec_id: u8,
    gap2_len: usize,
    gap3_len: usize,
    fill_byte: u8,
    Ghost(syms): Ghost<Seq<Option<u8>>>,
)
    requires
        old(bits)@ == syms_bits(false, syms),
        *old(last_bit) == syms_last(false, syms),
    ensures
        final(bits)@ == syms_bits(
            false,
            syms + ibm_sector_syms(cyl, head, sec_id, gap2_len as nat, gap3_len as nat, fill_byte),
        ),
        *final(last_bit) == syms_last(
            false,
            syms + ibm_sector_syms(cyl, head, sec_id, gap2_len as nat, gap3_len as nat, fill_byte),
        ),
{
    let ghost s0 = syms;
    let ghost mut syms = syms;
    emit_id_part(bits, last_bit, cyl, head, sec_id, Ghost(syms));
    proof {
        syms = syms + ibm_id_part(cyl, head, sec_id);
    }
    emit_repeat(bits, last_bit, 0x4E, gap2_len, Ghost(syms));
    proof {
        syms = syms + rep(0x4E, gap2_len as nat);
    }
    emit_data_part(bits, last_bit, fill_byte, Ghost(syms));
    proof {
        syms = syms + ibm_data_part(fill_byte);
    }
    emit_repeat(bits, last_bit, 0x4E, gap3_len, Ghost(syms));
    proof {
        syms = syms + rep(0x4E, gap3_len as nat);
        lemma_ibm_sector_parts(cyl, head, sec_id, gap2_len as nat, gap3_len as nat, fill_byte);
        assert(syms =~= s0 + ibm_sector_syms(cyl, head, sec_id, gap2_len as nat, gap3_len as nat, fill_byte));
    }
}

impl MfmTrackEncoder {
    /// Writes one IBM / ISO track: gap 1, then per sector the ID field
    /// (three A1 marks, FE, C, H, R, N=2, CRC), gap 2, the data field (three
    /// A1 marks, FB, 512 fill bytes, CRC) and gap 3, then gap 4 bytes until
    /// the nominal revolution plus a 1/64 splice margin is covered.
    fn encode_ibm_track(
        cyl: u8,
        head: u8,
        sector_count: u8,
        first_sector_id: u8,
        gap1_len: usize,
        gap2_len: usize,
        gap3_len: usize,
        fill_byte: u8,
        nominal_rev_bits: usize,
        bits: &mut Vec<bool>,
        last_bit: &mut bool,
    )
        requires
            old(bits)@.len() == 0,
            *old(last_bit) == false,
            first_sector_id + sector_count <= 256,
            sector_count <= 36,
            gap1_len <= 1000,
            gap2_len <= 1000,
            gap3_len <= 1000,
            nominal_rev_bits <= 1_000_000,
        ensures
            final(bits)@ == syms_bits(
                false,
                ibm_track_syms(
                    cyl,
                    head,
                    sector_count,
                    first_sector_id,
                    gap1_len as nat,
                    gap2_len as nat,
                    gap3_len as nat,
                    fill_byte,
                    nominal_rev_bits as nat,
                ),
            ),
    {
        let ghost mut syms: Seq<Option<u8>> = Seq::empty();
        assert(bits@ =~= syms_bits(false, syms));
        emit_repeat(bits, last_bit, 0x4E, gap1_len, Ghost(syms));
        proof {
            syms = syms + rep(0x4E, gap1_len as nat);
        }
        let mut sec_idx: u8 = 0;
        while sec_idx < sector_count
            invariant
                sec_idx <= sector_count,
                first_sector_id + sector_count <= 256,
                sector_count <= 36,
                gap2_len <= 1000,
                gap3_len <= 1000,
                syms == rep(0x4E, gap1_len as nat) + ibm_sectors_syms(
                    cyl,
                    head,
                    first_sector_id,
                    sec_idx as nat,
                    gap2_len as nat,
                    gap3_len as nat,
                    fill_byte,
                ),
                bits@ == syms_bits(false, syms),
                *last_bit == syms_last(false, syms),
            decreases sector_count - sec_idx,
        {
            let ghost s0 = syms;
            let sec_id: u8 = first_sector_id + sec_idx;
            emit_ibm_sector(bits, last_bit, cyl, head, sec_id, gap2_len, gap3_len, fill_byte, Ghost(syms));
            proof {
                syms = syms + ibm_sector_syms(
                    cyl,
                    head,
                    sec_id,
                    gap2_len as nat,
                    gap3_len as nat,
                    fill_byte,
                );
                assert((first_sector_id + (sec_idx + 1) - 1) as u8 == sec_id);
                assert(syms =~= rep(0x4E, gap1_len as nat) + ibm_sectors_syms(
                    cyl,
                    head,
                    first_sector_id,
                    (sec_idx + 1) as nat,
                    gap2_len as nat,
                    gap3_len as nat,
                    fill_byte,
                ));
            }
            sec_idx = sec_idx + 1;
        }
        let ghost body = syms;
        proof {
            lemma_syms_bits_len(false, syms);
            lemma_ibm_sectors_len(
                cyl,
                head,
                first_sector_id,
                sector_count as nat,
                gap2_len as nat,
                gap3_len as nat,
                fill_byte,
            );
            assert(sector_count * (552 + gap2_len + gap3_len) <= 36 * 2552) by (nonlinear_arith)
                requires
                    sector_count <= 36,
                    gap2_len <= 1000,
                    gap3_len <= 1000,
            ;
        }
        let target_len: usize = nominal_rev_bits + (nominal_rev_bits / 64);
        let ghost mut pad: nat = 0;
        let ghost blen = bits@.len();
        while bits.len() < target_len
            invariant
                target_len == nominal_rev_bits + nominal_rev_bits / 64,
                target_len <= 1_100_000,
                body.len() <= 1000 + 36 * 2552,
                syms == body + rep(0x4E, pad),
                bits@ == syms_bits(false, syms),
                bits@.len() == 16 * syms.len(),
                *last_bit == syms_last(false, syms),
                pad <= pad_count(16 * body.len(), target_len as nat),
                pad < pad_count(16 * body.len(), target_len as nat) <==> 16 * (body.len() + pad)
                    < target_len,
            decreases pad_count(16 * body.len(), target_len as nat) - pad,
        {
            emit_byte(bits, last_bit, 0x4E, Ghost(syms));
            proof {
                assert(syms.push(Some(0x4Eu8)) =~= body + rep(0x4E, pad + 1));
                syms = syms.push(Some(0x4Eu8));
                pad = pad + 1;
                lemma_syms_bits_len(false, syms);
                assert(bits@.len() == 16 * syms.len());
            }
        }
        proof {
            assert(pad == pad_count(16 * body.len(), target_len as nat));
            assert(syms =~= ibm_track_syms(
                cyl,
                head,
                sector_count,
                first_sector_id,
                gap1_len as nat,
                gap2_len as nat,
                gap3_len as nat,
                fill_byte,
                nominal_rev_bits as nat,
            ));
        }
    }
}

proof fn lemma_xor_zero(x: u32)
    ensures
        x ^ 0u32 == x,
        ((0u32 >> 1u32) & 0x5555_5555u32) == 0u32,
        (0u32 & 0x5555_5555u32) == 0u32,
{
    assert(x ^ 0u32 == x) by (bit_vector);
    assert(((0u32 >> 1u32) & 0x5555_5555u32) == 0u32) by (bit_vector);
    assert((0u32 & 0x5555_5555u32) == 0u32) by (bit_vector);
}

fn emit_word(bits: &mut Vec<bool>, w: u32, Ghost(base): Ghost<Seq<bool>>, Ghost(ws): Ghost<Seq<u32>>)
    requires
        old(bits)@ == base + words_bits(ws),
    ensures
        final(bits)@ == base + words_bits(ws.push(w)),
{
    proof {
        lemma_words_push(ws, w);
    }
    MfmTrackEncoder::push_u32_bits(bits, w);
    assert(bits@ =~= base + words_bits(ws.push(w)));
}

#[verifier::rlimit(40)]
fn emit_amiga_sector(bits: &mut Vec<bool>, last_bit: &mut bool, track_num: u8, sec_id: u8)
    requires
        sec_id < 11,
    ensures
        final(bits)@ == old(bits)@ + amiga_sector_bits(track_num, sec_id),
        *final(last_bit) == true,
{
    MfmTrackEncoder::push_amiga_sync_word(bits, last_bit);
    MfmTrackEncoder::push_amiga_sync_word(bits, last_bit);
    let ghost base = bits@;
    let ghost mut ws: Seq<u32> = Seq::empty();
    assert(bits@ =~= base + words_bits(ws));
    let format_byte: u32 = 0xFF;
    let secs_to_gap: u32 = (11 - sec_id) as u32;
    let info: u32 = (format_byte << 24u32) | ((track_num as u32) << 16u32) | ((sec_id as u32)
        << 8u32) | secs_to_gap;
    let even_info = (info >> 1u32) & 0x5555_5555u32;
    let odd_info = info & 0x5555_5555u32;
    emit_word(bits, even_info, Ghost(base), Ghost(ws));
    proof {
        ws = ws.push(even_info);
    }
    emit_word(bits, odd_info, Ghost(base), Ghost(ws));
    proof {
        ws = ws.push(odd_info);
    }
    proof {
        lemma_xor_zero(0);
    }
    let label: [u32; 4] = [0u32; 4];
    let mut even_labels: [u32; 4] = [0u32; 4];
    let mut odd_labels: [u32; 4] = [0u32; 4];
    let mut i: usize = 0;
    while i < 4
        invariant
            i <= 4,
            label@ == seq![0u32, 0, 0, 0],
            forall|k: int| 0 <= k < 4 ==> #[trigger] even_labels@[k] == 0u32,
            forall|k: int| 0 <= k < 4 ==> #[trigger] odd_labels@[k] == 0u32,
            ws.len() == 2 + i,
            bits@ == base + words_bits(ws),
            ws == seq![even_info, odd_info] + Seq::new(i as nat, |k: int| 0u32),
        decreases 4 - i,
    {
        proof {
            lemma_xor_zero(0u32);
            assert(label@[i as int] == 0u32);
        }
        even_labels[i] = (label[i] >> 1u32) & 0x5555_5555u32;
        odd_labels[i] = label[i] & 0x5555_5555u32;
        assert(even_labels@[i as int] == 0u32);
        assert(odd_labels@[i as int] == 0u32);
        emit_word(bits, even_labels[i], Ghost(base), Ghost(ws));
        proof {
            assert(ws.push(0u32) =~= seq![even_info, odd_info] + Seq::new((i + 1) as nat, |k: int| 0u32));
            ws = ws.push(0u32);
        }
        i = i + 1;
    }
    let mut i: usize = 0;
    while i < 4
        invariant
            i <= 4,
            forall|k: int| 0 <= k < 4 ==> #[trigger] odd_labels@[k] == 0u32,
            bits@ == base + words_bits(ws),
            ws == seq![even_info, odd_info] + Seq::new((4 + i) as nat, |k: int| 0u32),
        decreases 4 - i,
    {
        emit_word(bits, odd_labels[i], Ghost(base), Ghost(ws));
        proof {
            assert(ws.push(0u32) =~= seq![even_info, odd_info] + Seq::new((4 + i + 1) as nat, |k: int| 0u32));
            ws = ws.push(0u32);
        }
        i = i + 1;
    }
    let mut hdr_chk = even_info ^ odd_info;
    let mut i: usize = 0;
    while i < 4
        invariant
            i <= 4,
            forall|k: int| 0 <= k < 4 ==> #[trigger] even_labels@[k] == 0u32,
            forall|k: int| 0 <= k < 4 ==> #[trigger] odd_labels@[k] == 0u32,
            hdr_chk == even_info ^ odd_info,
        decreases 4 - i,
    {
        proof {
            lemma_xor_zero(hdr_chk);
            lemma_xor_zero(0u32);
        }
        hdr_chk = hdr_chk ^ (even_labels[i] ^ odd_labels[i]);
        i = i + 1;
    }
    hdr_chk = hdr_chk & 0x5555_5555u32;
    let even_hdr_chk = (hdr_chk >> 1u32) & 0x5555_5555u32;
    let odd_hdr_chk = hdr_chk & 0x5555_5555u32;
    emit_word(bits, even_hdr_chk, Ghost(base), Ghost(ws));
    proof {
        ws = ws.push(even_hdr_chk);
    }
    emit_word(bits, odd_hdr_chk, Ghost(base), Ghost(ws));
    proof {
        ws = ws.push(odd_hdr_chk);
    }
    let mut data_lws: [u32; 128] = [0xE5E5_E5E5u32; 128];
    data_lws[0] = 0xE5E5_0000u32 | (sec_id as u32);
    let mut even_data: [u32; 128] = [0u32; 128];
    let mut odd_data: [u32; 128] = [0u32; 128];
    let mut data_chk: u32 = 0;
    let mut i: usize = 0;
    while i < 128
        invariant
            i <= 128,
            forall|k: int| 0 <= k < 128 ==> #[trigger] data_lws@[k] == amiga_data_lw(sec_id, k),
            forall|k: int| 0 <= k < i ==> #[trigger] even_data@[k] == amiga_even_half(amiga_data_lw(sec_id, k)),
            forall|k: int| 0 <= k < i ==> #[trigger] odd_data@[k] == amiga_odd_half(amiga_data_lw(sec_id, k)),
            data_chk == xor_fold(
                Seq::new(
                    i as nat,
                    |k: int| amiga_even_half(amiga_data_lw(sec_id, k)) ^ amiga_odd_half(
                        amiga_data_lw(sec_id, k),
                    ),
                ),
            ),
        decreases 128 - i,
    {
        even_data[i] = (data_lws[i] >> 1u32) & 0x5555_5555u32;
        odd_data[i] = data_lws[i] & 0x5555_5555u32;
        proof {
            let f = |k: int| amiga_even_half(amiga_data_lw(sec_id, k)) ^ amiga_odd_half(amiga_data_lw(sec_id, k));
            assert(Seq::new((i + 1) as nat, f).drop_last() =~= Seq::new(i as nat, f));
        }
        data_chk = data_chk ^ (even_data[i] ^ odd_data[i]);
        i = i + 1;
    }
    data_chk = data_chk & 0x5555_5555u32;
    let even_data_chk = (data_chk >> 1u32) & 0x5555_5555u32;
    let odd_data_chk = data_chk & 0x5555_5555u32;
    emit_word(bits, even_data_chk, Ghost(base), Ghost(ws));
    proof {
        ws = ws.push(even_data_chk);
    }
    emit_word(bits, odd_data_chk, Ghost(base), Ghost(ws));
    proof {
        ws = ws.push(odd_data_chk);
    }
    let ghost ws_head = ws;
    let mut i: usize = 0;
    while i < 128
        invariant
            i <= 128,
            forall|k: int| 0 <= k < 128 ==> #[trigger] even_data@[k] == amiga_even_half(amiga_data_lw(sec_id, k)),
            bits@ == base + words_bits(ws),
            ws == ws_head + Seq::new(i as nat, |k: int| amiga_even_half(amiga_data_lw(sec_id, k))),
        decreases 128 - i,
    {
        emit_word(bits, even_data[i], Ghost(base), Ghost(ws));
        proof {
            assert(ws.push(even_data@[i as int]) =~= ws_head + Seq::new((i + 1) as nat, |k: int| amiga_even_half(amiga_data_lw(sec_id, k))));
            ws = ws.push(even_data@[i as int]);
        }
        i = i + 1;
    }
    let ghost ws_mid = ws;
    let mut i: usize = 0;
    while i < 128
        invariant
            i <= 128,
            forall|k: int| 0 <= k < 128 ==> #[trigger] odd_data@[k] == amiga_odd_half(amiga_data_lw(sec_id, k)),
            bits@ == base + words_bits(ws),
            ws == ws_mid + Seq::new(i as nat, |k: int| amiga_odd_half(amiga_data_lw(sec_id, k))),
        decreases 128 - i,
    {
        emit_word(bits, odd_data[i], Ghost(base), Ghost(ws));
        proof {
            assert(ws.push(odd_data@[i as int]) =~= ws_mid + Seq::new((i + 1) as nat, |k: int| amiga_odd_half(amiga_data_lw(sec_id, k))));
            ws = ws.push(odd_data@[i as int]);
        }
        i = i + 1;
    }
    proof {
        assert(info == amiga_info(track_num, sec_id));
        assert(hdr_chk == amiga_header_chk(track_num, sec_id));
        assert(data_chk == amiga_data_chk(sec_id));
        assert(ws =~= amiga_sector_words(track_num, sec_id));
        assert(bits@ =~= old(bits)@ + amiga_sector_bits(track_num, sec_id));
    }
}

pub(crate) proof fn lemma_amiga_sector_len(track_num: u8, sec: u8)
    ensures
        amiga_sector_bits(track_num, sec).len() == 8672,
{
    lemma_words_bits_len(amiga_sector_words(track_num, sec));
}

pub(crate) proof fn lemma_amiga_sectors_len(track_num: u8, k: nat)
    ensures
        amiga_sectors_bits(track_num, k).len() == 8672 * k,
    decreases k,
{
    if k > 0 {
        lemma_amiga_sectors_len(track_num, (k - 1) as nat);
        lemma_amiga_sector_len(track_num, (k - 1) as u8);
    }
}

/// Cells of a synthesised track: the sectors and gaps of the layout, which
/// already exceed the nominal revolution plus its 1/64 splice margin, so no
/// gap 4 fill is added.
pub open spec fn track_cells(p: PresetProfile) -> nat {
    match p {
        PresetProfile::Pc35Hd => 190_784,
        PresetProfile::Pc525Hd => 159_200,
        PresetProfile::Amiga35Dd => 95_424,
        _ => 90_944,
    }
}

/// Law: a synthesised track has exactly `track_cells(p)` cells, a whole
/// number of 16-cell words, at least the nominal revolution plus 1/64 for
/// an IBM layout (at least 50,800 cells for Amiga) and never more than 14
/// million cells.
pub proof fn lemma_track_bits_len(p: PresetProfile, cyl: u8, head: u8)
    ensures
        track_bits_spec(p, cyl, head).len() == track_cells(p),
        track_bits_spec(p, cyl, head).len() % 16 == 0,
        p != PresetProfile::Amiga35Dd ==> track_bits_spec(p, cyl, head).len() >= ibm_layout(p).5
            + ibm_layout(p).5 / 64,
        p == PresetProfile::Amiga35Dd ==> track_bits_spec(p, cyl, head).len() >= 50_800,
        track_bits_spec(p, cyl, head).len() <= 14_000_000,
        p != PresetProfile::Amiga35Dd ==> track_bits_spec(p, cyl, head).len() >= ibm_layout(p).5,
        p == PresetProfile::Amiga35Dd ==> track_bits_spec(p, cyl, head).len() == 95_424,
{
    if p == PresetProfile::Amiga35Dd {
        let track_num = ((cyl << 1u8) | (head & 1u8)) as u8;
        lemma_amiga_sectors_len(track_num, 11);
        let body = u32_bits(0xAAAA_AAAAu32) + amiga_sectors_bits(track_num, 11);
        assert(body.len() == 95_424);
        assert(amiga_pad_words(body.len()) == 0);
        lemma_words_bits_len(Seq::new(0, |i: int| 0xAAAA_AAAAu32));
    } else {
        let l = ibm_layout(p);
        lemma_ibm_sectors_len(cyl, head, l.1, l.0 as nat, l.3, l.4, 0xE5);
        let body = ibm_track_body(cyl, head, l.0, l.1, l.2, l.3, l.4, 0xE5);
        assert(body.len() == l.2 + (l.0 as nat) * (552 + l.3 + l.4));
        let cnt = l.0 as nat;
        let per = 552 + l.3 + l.4;
        assert(cnt <= 18 && per <= 658 && l.2 <= 80);
        assert(cnt * per <= 18 * 658) by (nonlinear_arith)
            requires
                cnt <= 18,
                per <= 658,
        ;
        assert(body.len() <= 20_000);
        let syms = ibm_track_syms(cyl, head, l.0, l.1, l.2, l.3, l.4, 0xE5, l.5);
        assert(cnt * per == (if p == PresetProfile::Pc35Hd {
            18 * 658
        } else if p == PresetProfile::Pc525Hd {
            15 * 658
        } else {
            9 * 628
        })) by (nonlinear_arith)
            requires
                (p == PresetProfile::Pc35Hd ==> cnt == 18 && per == 658),
                (p == PresetProfile::Pc525Hd ==> cnt == 15 && per == 658),
                (p != PresetProfile::Pc35Hd && p != PresetProfile::Pc525Hd ==> cnt == 9 && per == 628),
        ;
        assert(pad_count(16 * body.len(), l.5 + l.5 / 64) == 0);
        assert(syms =~= body);
        lemma_syms_bits_len(false, syms);
    }
}

impl MfmTrackEncoder {
    /// Writes an AmigaDOS DD track: a pre-gap longword, eleven Paula sectors
    /// (two sync words, odd/even info, label, header checksum, data checksum
    /// and 512 data bytes) and filler up to 50,800 cells.
    fn encode_amiga_track(cyl: u8, head: u8, bits: &mut Vec<bool>, last_bit: &mut bool)
        requires
            old(bits)@.len() == 0,
        ensures
            final(bits)@ == amiga_track_bits(cyl, head),
    {
        Self::push_u32_bits(bits, 0xAAAA_AAAAu32);
        let track_num: u8 = (cyl << 1u8) | (head & 1u8);
        let mut sec_id: u8 = 0;
        while sec_id < 11
            invariant
                sec_id <= 11,
                track_num == ((cyl << 1u8) | (head & 1u8)) as u8,
                bits@ == u32_bits(0xAAAA_AAAAu32) + amiga_sectors_bits(track_num, sec_id as nat),
            decreases 11 - sec_id,
        {
            emit_amiga_sector(bits, last_bit, track_num, sec_id);
            sec_id = sec_id + 1;
            assert(bits@ =~= u32_bits(0xAAAA_AAAAu32) + amiga_sectors_bits(track_num, sec_id as nat));
        }
        let ghost body = bits@;
        proof {
            lemma_amiga_sectors_len(track_num, 11);
        }
        let ghost mut pad: nat = 0;
        assert(bits@ =~= body + words_bits(Seq::new(pad, |i: int| 0xAAAA_AAAAu32)));
        while bits.len() < 50_800
            invariant
                body.len() == 95_424,
                bits@ == body + words_bits(Seq::new(pad, |i: int| 0xAAAA_AAAAu32)),
                pad == 0,
            decreases 50_800 - bits@.len(),
        {
            proof {
                lemma_words_bits_len(Seq::new(pad, |i: int| 0xAAAA_AAAAu32));
            }
            Self::push_u32_bits(bits, 0xAAAA_AAAAu32);
        }
        proof {
            assert(amiga_pad_words(body.len()) == 0);
        }
    }

    /// Synthesises the MFM cell stream of a whole track for a preset into
    /// `buffer.bits` (the other buffers are left as they were).
    pub fn encode_track_into(preset: PresetProfile, cyl: u8, head: u8, buffer: &mut MfmTrackBuffer)
        ensures
            final(buffer).bits@ == track_bits_spec(preset, cyl, head),
            final(buffer).bits@.len() == track_cells(preset),
            final(buffer).bits@.len() % 16 == 0,
            final(buffer).flux_ticks@ == old(buffer).flux_ticks@,
            final(buffer).gw_flux_bytes@ == old(buffer).gw_flux_bytes@,
    {
        proof {
            lemma_track_bits_len(preset, cyl, head);
        }
        buffer.bits.clear();
        let mut last_bit = false;
        match preset {
            PresetProfile::Amiga35Dd => {
                Self::encode_amiga_track(cyl, head, &mut buffer.bits, &mut last_bit);
            },
            PresetProfile::Pc35Hd => {
                Self::encode_ibm_track(cyl, head, 18, 1, 80, 22, 84, 0xE5, 100_000, &mut buffer.bits, &mut last_bit);
            },
            PresetProfile::Pc35Dd => {
                Self::encode_ibm_track(cyl, head, 9, 1, 32, 22, 54, 0xE5, 50_000, &mut buffer.bits, &mut last_bit);
            },
            PresetProfile::Pc525Hd => {
                Self::encode_ibm_track(cyl, head, 15, 1, 80, 22, 84, 0xE5, 83_333, &mut buffer.bits, &mut last_bit);
            },
            PresetProfile::Pc525DdOnHd => {
                Self::encode_ibm_track(cyl, head, 9, 1, 32, 22, 54, 0xE5, 50_000, &mut buffer.bits, &mut last_bit);
            },
            PresetProfile::Pc525Dd => {
                Self::encode_ibm_track(cyl, head, 9, 1, 32, 22, 54, 0xE5, 50_000, &mut buffer.bits, &mut last_bit);
            },
            PresetProfile::Atari35Dd => {
                Self::encode_ibm_track(cyl, head, 9, 1, 32, 22, 54, 0xE5, 50_000, &mut buffer.bits, &mut last_bit);
            },
            PresetProfile::Cpc30Data => {
                Self::encode_ibm_track(cyl, head, 9, 0xC1, 32, 22, 54, 0xE5, 50_000, &mut buffer.bits, &mut last_bit);
            },
        }
    }
}

impl FluxSynthesizer {
    /// Single-pass synthesis of a formatted track: MFM cells, then flux
    /// intervals at the preset's data rate, then the Greaseweazle byte stream.
    pub fn synthesize_track(preset: PresetProfile, cyl: u8, head: u8, buffer: &mut MfmTrackBuffer)
        ensures
            final(buffer).bits@ == track_bits_spec(preset, cyl, head),
            final(buffer).flux_ticks@ == flux_ticks_spec(
                track_bits_spec(preset, cyl, head),
                preset.spec_target_data_rate(),
                cyl,
            ),
            final(buffer).gw_flux_bytes@ == gw_encode_stream(final(buffer).flux_ticks@),
    {
        MfmTrackEncoder::encode_track_into(preset, cyl, head, buffer);
        proof {
            lemma_track_bits_len(preset, cyl, head);
            crate::flux::lemma_flux_fits_short(buffer.bits@, crate::flux::spec_base_tick_clock(preset.spec_target_data_rate()));
        }
        let rate = preset.target_data_rate();
        Self::bits_to_flux_ticks(buffer.bits.as_slice(), rate, cyl, &mut buffer.flux_ticks);
        Self::flux_ticks_to_gw_bytes(buffer.flux_ticks.as_slice(), &mut buffer.gw_flux_bytes);
    }
}

} // verus!
