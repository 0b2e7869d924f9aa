//! IBM System/34 MFM sector decoder: finds ID address marks in a recovered
//! cell stream, checks their CRC, follows each good header to its data
//! address mark and checks the data CRC.
use vstd::prelude::*;
use std::collections::HashMap;
use crate::crc::{crc16_ccitt, crc16_spec};
use crate::mfm::{bits_value, decode_byte_word, extract_u16_from_bits, lemma_bits_value_bound, mfm_data_bits, pow2_u32};
use crate::sectors::{
    find_sector, find_sector_index, lemma_find_sector, same_key, sector_of, status_readable, DecodedSector, SectorStatus,
};

verus! {

/// The 16 cells at `start` read as a word, most significant first.
pub open spec fn cells_u16(bits: Seq<bool>, start: int) -> u16 {
    bits_value(bits.subrange(start, start + 16)) as u16
}

/// Three missing-clock A1 sync words (0x4489 each) start at cell `i`.
pub open spec fn mfm_sync_at(bits: Seq<bool>, i: int) -> bool {
    &&& cells_u16(bits, i) == 0x4489u16
    &&& cells_u16(bits, i + 16) == 0x4489u16
    &&& cells_u16(bits, i + 32) == 0x4489u16
}

/// The data byte of the MFM word at cell `p`.
pub open spec fn mfm_byte_at(bits: Seq<bool>, p: int) -> u8 {
    mfm_data_bits(cells_u16(bits, p))
}

/// `n` consecutive data bytes starting at cell `start`.
pub open spec fn mfm_bytes(bits: Seq<bool>, start: int, n: nat) -> Seq<u8> {
    Seq::new(n, |k: int| mfm_byte_at(bits, start + 16 * k))
}

/// The ID field after a sync at `i`, with the three A1 bytes the CRC covers:
/// A1 A1 A1, mark, cylinder, head, sector, size code, CRC high, CRC low.
pub open spec fn idam_header(bits: Seq<bool>, i: int) -> Seq<u8> {
    seq![0xA1u8, 0xA1, 0xA1] + mfm_bytes(bits, i + 48, 7)
}

/// Bytes of a sector with the given size code (code 4 and above mean 2048).
pub open spec fn sector_bytes(size_code: u8) -> nat {
    if size_code == 0 {
        128
    } else if size_code == 1 {
        256
    } else if size_code == 2 {
        512
    } else if size_code == 3 {
        1024
    } else {
        2048
    }
}

/// Looks for the data address mark from cell `pos` while a sync and its mark
/// fit before `limit`. The first sync followed by 0xFB or 0xF8 decides: the
/// data CRC gives `Good`/`DelDam` or `CrcData`; a sector that runs past the
/// stream, or no such mark at all, leaves the header's `Good`.
pub open spec fn dam_status(bits: Seq<bool>, pos: int, limit: int, size_code: u8) -> SectorStatus
    decreases limit - pos,
{
    if pos + 64 <= limit {
        let mark = mfm_byte_at(bits, pos + 48);
        if mfm_sync_at(bits, pos) && (mark == 0xFB || mark == 0xF8) {
            let size = sector_bytes(size_code);
            if pos + 48 + (1 + size + 2) * 16 <= bits.len() {
                if crc16_spec(seq![0xA1u8, 0xA1, 0xA1, mark] + mfm_bytes(bits, pos + 64, size + 2)) == 0 {
                    if mark == 0xF8 {
                        SectorStatus::DelDam
                    } else {
                        SectorStatus::Good
                    }
                } else {
                    SectorStatus::CrcData
                }
            } else {
                SectorStatus::Good
            }
        } else {
            dam_status(bits, pos + 1, limit, size_code)
        }
    } else {
        SectorStatus::Good
    }
}

/// Sector ids the decoder accepts: 0..=36, Amstrad system 0x41..=0x4A and
/// Amstrad data 0xC1..=0xCA.
pub open spec fn valid_sector_id(id: u8) -> bool {
    id <= 36 || (0x41 <= id && id <= 0x4A) || (0xC1 <= id && id <= 0xCA)
}

/// How far after a header the data address mark is looked for.
pub open spec fn dam_limit(bits: Seq<bool>, i: int) -> int {
    if i + 160 + 1000 <= bits.len() {
        i + 160 + 1000
    } else {
        bits.len() as int
    }
}

/// Status of the sector whose ID field follows the sync at `i`.
pub open spec fn idam_status(bits: Seq<bool>, i: int) -> SectorStatus {
    let hdr = idam_header(bits, i);
    if crc16_spec(hdr) == 0 {
        dam_status(bits, i + 160, dam_limit(bits, i), hdr[7])
    } else {
        SectorStatus::CrcId
    }
}

/// Adds the sector after the sync at `i` when its mark is an ID mark, its id
/// and size code are valid and its (id, cylinder) is not known yet.
pub open spec fn idam_add(bits: Seq<bool>, i: int, acc: Seq<DecodedSector>) -> Seq<DecodedSector> {
    let hdr = idam_header(bits, i);
    let st = idam_status(bits, i);
    if hdr[3] == 0xFE && valid_sector_id(hdr[6]) && hdr[7] <= 4 && find_sector(acc, hdr[6], hdr[4]) == -1 {
        acc.push(sector_of(hdr[4], hdr[5], hdr[6], hdr[7], status_readable(st), st))
    } else {
        acc
    }
}

/// Scans the cell stream from `i`: each sync with room for an ID field is
/// decoded and skipped; elsewhere the scan moves one cell on.
pub open spec fn idam_scan(bits: Seq<bool>, i: int, acc: Seq<DecodedSector>) -> Seq<DecodedSector>
    decreases bits.len() - i,
    when 0 <= i
{
    if i + 160 <= bits.len() {
        if mfm_sync_at(bits, i) {
            idam_scan(bits, i + 160, idam_add(bits, i, acc))
        } else {
            idam_scan(bits, i + 1, acc)
        }
    } else {
        acc
    }
}

/// A record the IBM decoder keeps: size code at most 4, an id it accepts,
/// the CRC flag set exactly for good or deleted data, and a status that is
/// neither "no data mark" nor "missing".
pub open spec fn idam_record_ok(d: DecodedSector) -> bool {
    &&& d.size_code <= 4
    &&& valid_sector_id(d.sec_id)
    &&& d.crc_ok == status_readable(d.status)
    &&& d.status != SectorStatus::NoDam
    &&& d.status != SectorStatus::Missing
}

/// Every record is well formed and no two share a (sector id, cylinder).
pub open spec fn idam_records_ok(acc: Seq<DecodedSector>) -> bool {
    &&& forall|i: int| 0 <= i < acc.len() ==> idam_record_ok(#[trigger] acc[i])
    &&& forall|i: int, j: int| 0 <= j < i < acc.len() ==> !same_key(#[trigger] acc[i], #[trigger] acc[j])
}

proof fn lemma_dam_status_kind(bits: Seq<bool>, pos: int, limit: int, size_code: u8)
    ensures
        dam_status(bits, pos, limit, size_code) == SectorStatus::Good || dam_status(bits, pos, limit, size_code)
            == SectorStatus::DelDam || dam_status(bits, pos, limit, size_code) == SectorStatus::CrcData,
    decreases limit - pos,
{
    if pos + 64 <= limit {
        let mark = mfm_byte_at(bits, pos + 48);
        if !(mfm_sync_at(bits, pos) && (mark == 0xFB || mark == 0xF8)) {
            lemma_dam_status_kind(bits, pos + 1, limit, size_code);
        }
    }
}

proof fn lemma_idam_scan_ok(bits: Seq<bool>, i: int, acc: Seq<DecodedSector>)
    requires
        0 <= i,
        idam_records_ok(acc),
    ensures
        idam_records_ok(idam_scan(bits, i, acc)),
    decreases bits.len() - i,
{
    if i + 160 <= bits.len() {
        if mfm_sync_at(bits, i) {
            let hdr = idam_header(bits, i);
            let st = idam_status(bits, i);
            lemma_dam_status_kind(bits, i + 160, dam_limit(bits, i), hdr[7]);
            lemma_find_sector(acc, hdr[6], hdr[4]);
            let r = idam_add(bits, i, acc);
            if hdr[3] == 0xFE && valid_sector_id(hdr[6]) && hdr[7] <= 4 && find_sector(acc, hdr[6], hdr[4]) == -1 {
                assert forall|a: int, b: int| 0 <= b < a < r.len() implies !same_key(#[trigger] r[a], #[trigger] r[b]) by {
                    if a == acc.len() {
                        assert(!(acc[b].sec_id == hdr[6] && acc[b].cyl == hdr[4]));
                    } else {
                        assert(!same_key(acc[a], acc[b]));
                    }
                }
                assert forall|a: int| 0 <= a < r.len() implies idam_record_ok(#[trigger] r[a]) by {
                    if a < acc.len() {
                        assert(idam_record_ok(acc[a]));
                    }
                }
            }
            lemma_idam_scan_ok(bits, i + 160, r);
        } else {
            lemma_idam_scan_ok(bits, i + 1, acc);
        }
    }
}

/// Law: every record the IBM decoder returns has size code at most 4, an
/// accepted id (0..=36, 0x41..=0x4A or 0xC1..=0xCA), the CRC flag set
/// exactly for good or deleted data and a status other than "no data mark"
/// or "missing"; no two records share a (sector id, cylinder).
pub proof fn lemma_idam_records_ok(bits: Seq<bool>)
    ensures
        idam_records_ok(idam_scan(bits, 0, Seq::empty())),
{
    lemma_idam_scan_ok(bits, 0, Seq::empty());
}

/// Reads the word at cell `start`.
fn read_cells_u16(bits: &[bool], start: usize) -> (w: u16)
    requires
        start + 16 <= bits@.len(),
    ensures
        w == cells_u16(bits@, start as int),
{
    extract_u16_from_bits(bits, start)
}

/// Whether three A1 sync words start at cell `i`.
pub fn mfm_sync_at_cells(bits: &[bool], i: usize) -> (r: bool)
    requires
        i + 48 <= bits@.len(),
    ensures
        r == mfm_sync_at(bits@, i as int),
{
    let len = bits.len();
    read_cells_u16(bits, i) == 0x4489u16 && read_cells_u16(bits, i + 16) == 0x4489u16
        && read_cells_u16(bits, i + 32) == 0x4489u16
}

/// Appends `n` data bytes read from cell `start` on.
fn push_mfm_bytes(bits: &[bool], start: usize, n: usize, out: &mut Vec<u8>)
    requires
        start + 16 * n <= bits@.len(),
    ensures
        final(out)@ == old(out)@ + mfm_bytes(bits@, start as int, n as nat),
{
    let len = bits.len();
    let mut k: usize = 0;
    while k < n
        invariant
            k <= n,
            len == bits@.len(),
            start + 16 * n <= len,
            out@ == old(out)@ + mfm_bytes(bits@, start as int, k as nat),
        decreases n - k,
    {
        let w = read_cells_u16(bits, start + 16 * k);
        let b = decode_byte_word(w);
        out.push(b);
        assert(mfm_bytes(bits@, start as int, (k + 1) as nat) =~= mfm_bytes(bits@, start as int, k as nat).push(b));
        k = k + 1;
    }
}

/// Reads the ID field that follows the sync at `i`.
fn read_idam_header(bits: &[bool], i: usize) -> (hdr: Vec<u8>)
    requires
        i + 160 <= bits@.len(),
    ensures
        hdr@ == idam_header(bits@, i as int),
{
    let len = bits.len();
    let mut hdr: Vec<u8> = vec![0xA1u8, 0xA1, 0xA1];
    push_mfm_bytes(bits, i + 48, 7, &mut hdr);
    hdr
}

fn sector_size_bytes(size_code: u8) -> (r: usize)
    ensures
        r as nat == sector_bytes(size_code),
{
    if size_code == 0 {
        128
    } else if size_code == 1 {
        256
    } else if size_code == 2 {
        512
    } else if size_code == 3 {
        1024
    } else {
        2048
    }
}

/// Follows a good header to its data address mark (see `dam_status`).
fn find_dam_status(bits: &[bool], start: usize, limit: usize, size_code: u8) -> (st: SectorStatus)
    requires
        limit <= bits@.len(),
    ensures
        st == dam_status(bits@, start as int, limit as int, size_code),
{
    let len = bits.len();
    let mut pos: usize = start;
    while pos <= limit && limit - pos >= 64
        invariant
            len == bits@.len(),
            limit <= len,
            start <= pos,
            dam_status(bits@, start as int, limit as int, size_code) == dam_status(
                bits@,
                pos as int,
                limit as int,
                size_code,
            ),
        decreases limit - pos,
    {
        if mfm_sync_at_cells(bits, pos) {
            let mark = decode_byte_word(read_cells_u16(bits, pos + 48));
            if mark == 0xFB || mark == 0xF8 {
                let size = sector_size_bytes(size_code);
                if len - (pos + 48) >= (1 + size + 2) * 16 {
                    let mut data_buf: Vec<u8> = vec![0xA1u8, 0xA1, 0xA1, mark];
                    push_mfm_bytes(bits, pos + 64, size + 2, &mut data_buf);
                    assert(data_buf@ =~= seq![0xA1u8, 0xA1, 0xA1, mark] + mfm_bytes(
                        bits@,
                        pos + 64,
                        (size + 2) as nat,
                    ));
                    let data_crc = crc16_ccitt(data_buf.as_slice());
                    if data_crc == 0 {
                        if mark == 0xF8 {
                            return SectorStatus::DelDam;
                        } else {
                            return SectorStatus::Good;
                        }
                    } else {
                        return SectorStatus::CrcData;
                    }
                }
                return SectorStatus::Good;
            }
        }
        pos = pos + 1;
    }
    SectorStatus::Good
}

/// Decodes the ID field after the sync at `i` and adds its sector as
/// `idam_add` describes.
fn add_idam_sector(bits: &[bool], i: usize, sectors: &mut Vec<DecodedSector>)
    requires
        i + 160 <= bits@.len(),
    ensures
        final(sectors)@ == idam_add(bits@, i as int, old(sectors)@),
{
    let len = bits.len();
    let hdr = read_idam_header(bits, i);
    if hdr[3] == 0xFE {
        let cyl = hdr[4];
        let head = hdr[5];
        let sec_id = hdr[6];
        let size_code = hdr[7];
        let crc_res = crc16_ccitt(hdr.as_slice());
        let status = if crc_res == 0 {
            let limit: usize = if len - (i + 160) >= 1000 {
                i + 160 + 1000
            } else {
                len
            };
            find_dam_status(bits, i + 160, limit, size_code)
        } else {
            SectorStatus::CrcId
        };
        let final_crc_ok = match status {
            SectorStatus::Good | SectorStatus::DelDam => true,
            _ => false,
        };
        let valid_sec_id = sec_id <= 36 || (0x41 <= sec_id && sec_id <= 0x4A) || (0xC1 <= sec_id
            && sec_id <= 0xCA);
        if valid_sec_id && size_code <= 4 {
            match find_sector_index(sectors, sec_id, cyl) {
                Some(_) => {},
                None => {
                    sectors.push(
                        DecodedSector { cyl, head, sec_id, size_code, crc_ok: final_crc_ok, status },
                    );
                },
            }
        }
    }
}

/// Decodes every IBM MFM sector of the cell stream, keeping the first
/// record of each (id, cylinder).
pub fn decode_idam_sectors_from_bits(bits: &[bool]) -> (r: Vec<DecodedSector>)
    ensures
        r@ == idam_scan(bits@, 0, Seq::empty()),
{
    let mut sectors: Vec<DecodedSector> = Vec::new();
    let n = bits.len();
    let mut i: usize = 0;
    while i <= n && n - i >= 160
        invariant
            i <= n,
            n == bits@.len(),
            idam_scan(bits@, 0, Seq::empty()) == idam_scan(bits@, i as int, sectors@),
        decreases n - i,
    {
        if mfm_sync_at_cells(bits, i) {
            add_idam_sector(bits, i, &mut sectors);
            i = i + 160;
        } else {
            i = i + 1;
        }
    }
    sectors
}


/// Ticks between two cells `d` cells apart at `clock` ticks per cell,
/// saturated to 32 bits.
pub open spec fn delta_ticks(d: int, clock: u32) -> u32 {
    if d * clock > 0xFFFF_FFFF {
        0xFFFF_FFFFu32
    } else {
        (d * clock) as u32
    }
}

/// Revolutions per minute for one revolution of `t` ticks of the 72 MHz
/// sample clock, rounded to nearest (halves up).
pub open spec fn rpm_round(t: u32) -> int {
    (8_640_000_000 + t) / (2 * t)
}

/// Whether the ID field at sync `i` can time a revolution: ID mark, good
/// CRC and a sector id 1..=36.
pub open spec fn timing_header(bits: Seq<bool>, i: int) -> bool {
    let hdr = idam_header(bits, i);
    hdr[3] == 0xFE && crc16_spec(hdr) == 0 && 1 <= hdr[6] <= 36
}

/// Key of a (cylinder, sector) pair.
pub open spec fn header_key(cyl: u8, sec_id: u8) -> u16 {
    (cyl * 256 + sec_id) as u16
}

/// Scans for the first header seen again one revolution later: each timing
/// header's first position is remembered; a repeat whose tick distance gives
/// 100..=800 RPM ends the scan with (rpm, ticks).
pub open spec fn rpm_scan(bits: Seq<bool>, clock: u32, i: int, seen: Map<u16, usize>) -> Option<(u32, u32)>
    decreases bits.len() - i,
    when 0 <= i
{
    if i + 160 <= bits.len() {
        if mfm_sync_at(bits, i) {
            let hdr = idam_header(bits, i);
            if timing_header(bits, i) {
                let key = header_key(hdr[4], hdr[6]);
                if seen.contains_key(key) {
                    let t = delta_ticks(i - seen[key], clock);
                    if t > 0 && 100 <= rpm_round(t) <= 800 {
                        Some((rpm_round(t) as u32, t))
                    } else {
                        rpm_scan(bits, clock, i + 160, seen)
                    }
                } else {
                    rpm_scan(bits, clock, i + 160, seen.insert(key, i as usize))
                }
            } else {
                rpm_scan(bits, clock, i + 160, seen)
            }
        } else {
            rpm_scan(bits, clock, i + 1, seen)
        }
    } else {
        None
    }
}

/// The rounded count is the nearest integer to 4,320,000,000 / t (halves up).
pub proof fn lemma_rpm_round_nearest(t: u32)
    requires
        t > 0,
    ensures
        2 * rpm_round(t) * t - t <= 8_640_000_000 < 2 * rpm_round(t) * t + t,
{
    let q = rpm_round(t);
    let a: int = 8_640_000_000;
    assert(2 * q * t - t <= a < 2 * q * t + t) by (nonlinear_arith)
        requires
            t > 0,
            q == (a + t) / (2 * t),
    ;
}

/// Law: a revolution timed from the headers has a positive tick count, an
/// RPM between 100 and 800, and that RPM is 4,320,000,000 / ticks rounded
/// to nearest.
pub proof fn lemma_rpm_scan_result(bits: Seq<bool>, clock: u32, i: int, seen: Map<u16, usize>)
    requires
        0 <= i,
    ensures
        rpm_scan(bits, clock, i, seen) matches Some((rpm, t)) ==> {
            &&& t > 0
            &&& 100 <= rpm <= 800
            &&& rpm == rpm_round(t)
            &&& 2 * rpm * t - t <= 8_640_000_000 < 2 * rpm * t + t
        },
    decreases bits.len() - i,
{
    if i + 160 <= bits.len() {
        if mfm_sync_at(bits, i) {
            let hdr = idam_header(bits, i);
            if timing_header(bits, i) {
                let key = header_key(hdr[4], hdr[6]);
                if seen.contains_key(key) {
                    let t = delta_ticks(i - seen[key], clock);
                    if t > 0 && 100 <= rpm_round(t) <= 800 {
                        lemma_rpm_round_nearest(t);
                    } else {
                        lemma_rpm_scan_result(bits, clock, i + 160, seen);
                    }
                } else {
                    lemma_rpm_scan_result(bits, clock, i + 160, seen.insert(key, i as usize));
                }
            } else {
                lemma_rpm_scan_result(bits, clock, i + 160, seen);
            }
        } else {
            lemma_rpm_scan_result(bits, clock, i + 1, seen);
        }
    }
}

fn ticks_between(d: usize, clock: u32) -> (t: u32)
    ensures
        t == delta_ticks(d as int, clock),
{
    if clock == 0 {
        assert(d * clock == 0);
        return 0;
    }
    if d > 0xFFFF_FFFF {
        assert(d * clock > 0xFFFF_FFFF) by (nonlinear_arith)
            requires
                d > 0xFFFF_FFFF,
                clock >= 1,
        ;
        0xFFFF_FFFFu32
    } else {
        assert(d * clock <= 0xFFFF_FFFF * 0xFFFF_FFFF) by (nonlinear_arith)
            requires
                d <= 0xFFFF_FFFF,
                clock <= 0xFFFF_FFFF,
        ;
        let p: u64 = (d as u64) * (clock as u64);
        assert(p == d * clock);
        if p > 0xFFFF_FFFF {
            0xFFFF_FFFFu32
        } else {
            p as u32
        }
    }
}

/// Measures one revolution from a recovered IBM MFM cell stream (`clock`
/// sample ticks per cell): the first (cylinder, sector) header met again at
/// a distance giving 100..=800 RPM yields (rpm, ticks).
pub fn rpm_from_header_bits(bits: &[bool], clock: u32) -> (r: Option<(u32, u32)>)
    ensures
        r == rpm_scan(bits@, clock, 0, Map::empty()),
{
    broadcast use vstd::std_specs::hash::group_hash_axioms;

    let mut first_seen: HashMap<u16, usize> = HashMap::new();
    let n = bits.len();
    let mut i: usize = 0;
    while i <= n && n - i >= 160
        invariant
            i <= n,
            n == bits@.len(),
            rpm_scan(bits@, clock, 0, Map::empty()) == rpm_scan(bits@, clock, i as int, first_seen@),
            forall|k: u16| first_seen@.contains_key(k) ==> first_seen@[k] <= i,
        decreases n - i,
    {
        if mfm_sync_at_cells(bits, i) {
            let hdr = read_idam_header(bits, i);
            if hdr[3] == 0xFE {
                let cyl = hdr[4];
                let sec_id = hdr[6];
                let crc_res = crc16_ccitt(hdr.as_slice());
                if crc_res == 0 && 1 <= sec_id && sec_id <= 36 {
                    let key: u16 = (cyl as u16) * 256 + (sec_id as u16);
                    match first_seen.get(&key) {
                        Some(first_pos) => {
                            let fp: usize = *first_pos;
                            let t = ticks_between(i - fp, clock);
                            if t > 0 {
                                let rpm: u64 = (8_640_000_000u64 + t as u64) / (2 * (t as u64));
                                if 100 <= rpm && rpm <= 800 {
                                    return Some((rpm as u32, t));
                                }
                            }
                        },
                        None => {
                            first_seen.insert(key, i);
                        },
                    }
                }
            }
            i = i + 160;
        } else {
            i = i + 1;
        }
    }
    None
}

/// Like `rpm_scan`, but collects the tick distance of every repeat giving
/// 100..=800 RPM instead of stopping at the first.
pub open spec fn repeat_scan(bits: Seq<bool>, clock: u32, i: int, seen: Map<u16, usize>, acc: Seq<u32>) -> Seq<u32>
    decreases bits.len() - i,
    when 0 <= i
{
    if i + 160 <= bits.len() {
        if mfm_sync_at(bits, i) {
            let hdr = idam_header(bits, i);
            if timing_header(bits, i) {
                let key = header_key(hdr[4], hdr[6]);
                if seen.contains_key(key) {
                    let t = delta_ticks(i - seen[key], clock);
                    if t > 0 && 100 <= rpm_round(t) <= 800 {
                        repeat_scan(bits, clock, i + 160, seen, acc.push(t))
                    } else {
                        repeat_scan(bits, clock, i + 160, seen, acc)
                    }
                } else {
                    repeat_scan(bits, clock, i + 160, seen.insert(key, i as usize), acc)
                }
            } else {
                repeat_scan(bits, clock, i + 160, seen, acc)
            }
        } else {
            repeat_scan(bits, clock, i + 1, seen, acc)
        }
    } else {
        acc
    }
}

/// Tick distances of all header repeats of a cell stream that give a
/// plausible revolution (see `repeat_scan`).
pub fn header_repeat_ticks(bits: &[bool], clock: u32) -> (r: Vec<u32>)
    ensures
        r@ == repeat_scan(bits@, clock, 0, Map::empty(), Seq::empty()),
{
    broadcast use vstd::std_specs::hash::group_hash_axioms;

    let mut first_seen: HashMap<u16, usize> = HashMap::new();
    let mut out: Vec<u32> = Vec::new();
    let n = bits.len();
    let mut i: usize = 0;
    while i <= n && n - i >= 160
        invariant
            i <= n,
            n == bits@.len(),
            repeat_scan(bits@, clock, 0, Map::empty(), Seq::empty()) == repeat_scan(
                bits@,
                clock,
                i as int,
                first_seen@,
                out@,
            ),
            forall|k: u16| first_seen@.contains_key(k) ==> first_seen@[k] <= i,
        decreases n - i,
    {
        if mfm_sync_at_cells(bits, i) {
            let hdr = read_idam_header(bits, i);
            if hdr[3] == 0xFE {
                let cyl = hdr[4];
                let sec_id = hdr[6];
                let crc_res = crc16_ccitt(hdr.as_slice());
                if crc_res == 0 && 1 <= sec_id && sec_id <= 36 {
                    let key: u16 = (cyl as u16) * 256 + (sec_id as u16);
                    match first_seen.get(&key) {
                        Some(first_pos) => {
                            let fp: usize = *first_pos;
                            let t = ticks_between(i - fp, clock);
                            if t > 0 {
                                let rpm: u64 = (8_640_000_000u64 + t as u64) / (2 * (t as u64));
                                if 100 <= rpm && rpm <= 800 {
                                    out.push(t);
                                }
                            }
                        },
                        None => {
                            first_seen.insert(key, i);
                        },
                    }
                }
            }
            i = i + 160;
        } else {
            i = i + 1;
        }
    }
    out
}

/// Ticks between two index pulses, the counter wrapping at 28 bits.
pub open spec fn index_delta(a: u32, b: u32) -> int {
    (if b >= a { b - a } else { 0x1_0000_0000 - (a - b) }) % 0x1000_0000
}

/// The non-zero tick distances between consecutive index pulses among the
/// first `k + 1` timestamps.
pub open spec fn index_deltas(ts: Seq<u32>, k: nat) -> Seq<u32>
    decreases k,
{
    if k == 0 {
        Seq::empty()
    } else {
        let prev = index_deltas(ts, (k - 1) as nat);
        let d = index_delta(ts[k - 1], ts[k as int]);
        if d > 0 {
            prev.push(d as u32)
        } else {
            prev
        }
    }
}

/// Revolution lengths (ticks) measured between consecutive index pulses,
/// zero distances left out.
pub fn index_revolution_ticks(timestamps: &[u32]) -> (r: Vec<u32>)
    ensures
        timestamps@.len() < 2 ==> r@.len() == 0,
        timestamps@.len() >= 2 ==> r@ == index_deltas(timestamps@, (timestamps@.len() - 1) as nat),
{
    let mut out: Vec<u32> = Vec::new();
    let n = timestamps.len();
    if n < 2 {
        return out;
    }
    let mut k: usize = 1;
    while k < n
        invariant
            1 <= k <= n,
            n == timestamps@.len(),
            out@ == index_deltas(timestamps@, (k - 1) as nat),
        decreases n - k,
    {
        let a = timestamps[k - 1];
        let b = timestamps[k];
        let raw: u32 = if b >= a {
            b - a
        } else {
            (0xFFFF_FFFFu32 - a) + b + 1
        };
        let d: u32 = raw % 0x1000_0000;
        if d > 0 {
            out.push(d);
        }
        k = k + 1;
    }
    out
}

/// Cell position after any further A1 sync words starting at `off`.
pub open spec fn skip_syncs(bits: Seq<bool>, off: int) -> int
    decreases bits.len() - off,
{
    if 0 <= off && off + 16 <= bits.len() && cells_u16(bits, off) == 0x4489u16 {
        skip_syncs(bits, off + 16)
    } else {
        off
    }
}

/// A header record: cylinder, head, sector, size code, CRC good.
pub type HeaderRecord = (u8, u8, u8, u8, bool);

/// Whether a header with this cylinder and sector is already listed.
pub open spec fn header_listed(acc: Seq<HeaderRecord>, cyl: u8, sec_id: u8) -> bool {
    exists|k: int| 0 <= k < acc.len() && (#[trigger] acc[k]).0 == cyl && acc[k].2 == sec_id
}

/// The header found at cell `off` after a sync run (mark, cylinder, head,
/// sector, size, CRC high, CRC low), if it is an ID field for sector
/// 1..=20 with size code up to 4.
pub open spec fn header_at(bits: Seq<bool>, off: int) -> Option<HeaderRecord> {
    let hb = mfm_bytes(bits, off, 7);
    if off + 112 <= bits.len() && hb[0] == 0xFE && 1 <= hb[3] <= 20 && hb[4] <= 4 {
        let calc = crc16_spec(seq![0xA1u8, 0xA1, 0xA1] + hb.subrange(0, 5));
        let read = hb[5] * 256 + hb[6];
        Some((hb[1], hb[2], hb[3], hb[4], read == calc))
    } else {
        None
    }
}

/// Scans with a 16-cell shift register: when the register holds 0x4489,
/// further sync words are skipped and the ID field read; a valid one is
/// listed once per (cylinder, sector) and the scan resumes after it with a
/// cleared register.
pub open spec fn shift_scan(bits: Seq<bool>, i: int, shift: u16, acc: Seq<HeaderRecord>) -> Seq<HeaderRecord>
    decreases bits.len() - i,
    when 0 <= i
{
    if i + 160 <= bits.len() {
        let sh: u16 = ((shift << 1u16) | (if bits[i] { 1u16 } else { 0u16 })) as u16;
        let off = skip_syncs(bits, i + 1);
        if sh == 0x4489u16 && header_at(bits, off) is Some && off >= i + 1 {
            let h = header_at(bits, off)->0;
            let acc2 = if header_listed(acc, h.0, h.2) { acc } else { acc.push(h) };
            shift_scan(bits, off + 112, 0, acc2)
        } else {
            shift_scan(bits, i + 1, sh, acc)
        }
    } else {
        acc
    }
}

proof fn lemma_skip_syncs_ge(bits: Seq<bool>, off: int)
    requires
        0 <= off,
    ensures
        skip_syncs(bits, off) >= off,
    decreases bits.len() - off,
{
    if off + 16 <= bits.len() && cells_u16(bits, off) == 0x4489u16 {
        lemma_skip_syncs_ge(bits, off + 16);
    }
}

fn skip_sync_words(bits: &[bool], start: usize) -> (off: usize)
    requires
        start <= bits@.len(),
    ensures
        off == skip_syncs(bits@, start as int),
        start <= off <= bits@.len(),
{
    let n = bits.len();
    let mut off: usize = start;
    while off <= n && n - off >= 16
        invariant
            start <= off <= n,
            n == bits@.len(),
            skip_syncs(bits@, start as int) == skip_syncs(bits@, off as int),
        decreases n - off,
    {
        if read_cells_u16(bits, off) == 0x4489u16 {
            off = off + 16;
        } else {
            return off;
        }
    }
    off
}

/// Whether the list holds this (cylinder, sector).
fn listed(acc: &Vec<HeaderRecord>, cyl: u8, sec_id: u8) -> (r: bool)
    ensures
        r == header_listed(acc@, cyl, sec_id),
{
    let mut k: usize = 0;
    while k < acc.len()
        invariant
            k <= acc@.len(),
            forall|j: int| 0 <= j < k ==> !((#[trigger] acc@[j]).0 == cyl && acc@[j].2 == sec_id),
        decreases acc@.len() - k,
    {
        if acc[k].0 == cyl && acc[k].2 == sec_id {
            return true;
        }
        k = k + 1;
    }
    false
}

/// Reads the ID field at `off` (see `header_at`).
fn read_header_at(bits: &[bool], off: usize) -> (r: Option<HeaderRecord>)
    requires
        off <= bits@.len(),
    ensures
        r == header_at(bits@, off as int),
{
    let n = bits.len();
    if n - off < 112 {
        return None;
    }
    let mut hb: Vec<u8> = Vec::new();
    push_mfm_bytes(bits, off, 7, &mut hb);
    assert(hb@ =~= mfm_bytes(bits@, off as int, 7));
    if hb[0] == 0xFE && 1 <= hb[3] && hb[3] <= 20 && hb[4] <= 4 {
        let mut crc_buf: Vec<u8> = vec![0xA1u8, 0xA1, 0xA1];
        let mut k: usize = 0;
        while k < 5
            invariant
                k <= 5,
                hb@.len() == 7,
                crc_buf@ == seq![0xA1u8, 0xA1, 0xA1] + hb@.subrange(0, k as int),
            decreases 5 - k,
        {
            crc_buf.push(hb[k]);
            assert(crc_buf@ =~= seq![0xA1u8, 0xA1, 0xA1] + hb@.subrange(0, k + 1));
            k = k + 1;
        }
        let calc = crc16_ccitt(crc_buf.as_slice());
        let read: u16 = (hb[5] as u16) * 256 + (hb[6] as u16);
        Some((hb[1], hb[2], hb[3], hb[4], read == calc))
    } else {
        None
    }
}

/// Finds the ID fields of a cell stream with a shift-register sync search
/// (see `shift_scan`).
pub fn decode_idam_sectors(raw_mfm_bits: &[bool]) -> (r: Vec<HeaderRecord>)
    ensures
        r@ == shift_scan(raw_mfm_bits@, 0, 0, Seq::empty()),
{
    let bits = raw_mfm_bits;
    let mut sectors: Vec<HeaderRecord> = Vec::new();
    let n = bits.len();
    let mut shift_reg: u16 = 0;
    let mut i: usize = 0;
    while i <= n && n - i >= 160
        invariant
            i <= n,
            n == bits@.len(),
            shift_scan(bits@, 0, 0, Seq::empty()) == shift_scan(bits@, i as int, shift_reg, sectors@),
        decreases n - i,
    {
        let bit: u16 = if bits[i] {
            1
        } else {
            0
        };
        shift_reg = (shift_reg << 1u16) | bit;
        if shift_reg == 0x4489u16 {
            let off = skip_sync_words(bits, i + 1);
            match read_header_at(bits, off) {
                Some(h) => {
                    if !listed(&sectors, h.0, h.2) {
                        sectors.push(h);
                    }
                    i = off + 112;
                    shift_reg = 0;
                    assert(i <= n);
                    continue;
                },
                None => {},
            }
        }
        i = i + 1;
    }
    sectors
}
} // verus!
