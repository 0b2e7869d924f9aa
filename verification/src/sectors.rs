//! Decoded sector records and the AmigaDOS (Paula) sector decoder that finds
//! sectors in a recovered MFM cell stream.
use vstd::prelude::*;
use crate::mfm::{
    amiga_checksum_spec, bits_value, calculate_amiga_checksum, decode_amiga_longword,
    extract_u32_from_bits, lemma_bits_value_bound, pow2_u32, xor_fold,
};

verus! {

/// Outcome of decoding one sector.
#[derive(Debug, Clone, Copy, PartialEq, Eq, Structural)]
pub enum SectorStatus {
    Good,
    CrcData,
    CrcId,
    NoDam,
    DelDam,
    Missing,
}

/// One sector found on a track: its header fields and how it decoded.
#[derive(Debug, Clone, Copy, PartialEq, Eq, Structural)]
pub struct DecodedSector {
    pub cyl: u8,
    pub head: u8,
    pub sec_id: u8,
    pub size_code: u8,
    pub crc_ok: bool,
    pub status: SectorStatus,
}

/// The sector record with the given fields.
pub open spec fn sector_of(cyl: u8, head: u8, sec_id: u8, size_code: u8, crc_ok: bool, status: SectorStatus) -> DecodedSector {
    DecodedSector { cyl, head, sec_id, size_code, crc_ok, status }
}

/// Whether a status counts as a readable sector (good data, possibly deleted).
pub open spec fn status_readable(status: SectorStatus) -> bool {
    status == SectorStatus::Good || status == SectorStatus::DelDam
}

impl Default for DecodedSector {
    fn default() -> (r: Self)
        ensures
            r == sector_of(0, 0, 1, 2, true, SectorStatus::Good),
    {
        DecodedSector { cyl: 0, head: 0, sec_id: 1, size_code: 2, crc_ok: true, status: SectorStatus::Good }
    }
}

impl DecodedSector {
    /// A sector whose status follows its CRC: `Ok` when good, `CrcData` otherwise.
    pub fn new(cyl: u8, head: u8, sec_id: u8, size_code: u8, crc_ok: bool) -> (r: Self)
        ensures
            r == sector_of(
                cyl,
                head,
                sec_id,
                size_code,
                crc_ok,
                if crc_ok {
                    SectorStatus::Good
                } else {
                    SectorStatus::CrcData
                },
            ),
    {
        DecodedSector {
            cyl,
            head,
            sec_id,
            size_code,
            crc_ok,
            status: if crc_ok {
                SectorStatus::Good
            } else {
                SectorStatus::CrcData
            },
        }
    }

    /// A sector with an explicit status; its CRC flag is set for `Ok` and `DelDam`.
    pub fn with_status(cyl: u8, head: u8, sec_id: u8, size_code: u8, status: SectorStatus) -> (r: Self)
        ensures
            r == sector_of(cyl, head, sec_id, size_code, status_readable(status), status),
    {
        let crc_ok = match status {
            SectorStatus::Good | SectorStatus::DelDam => true,
            _ => false,
        };
        DecodedSector { cyl, head, sec_id, size_code, crc_ok, status }
    }
}

/// The 32 cells at `start` read as a longword, most significant first.
pub open spec fn cells_u32(bits: Seq<bool>, start: int) -> u32 {
    bits_value(bits.subrange(start, start + 32)) as u32
}

/// `n` consecutive longwords starting at cell `start`.
pub open spec fn cell_words(bits: Seq<bool>, start: int, n: nat) -> Seq<u32> {
    Seq::new(n, |j: int| cells_u32(bits, start + 32 * j))
}

/// Paula recombination of an even and an odd MFM longword.
pub open spec fn amiga_lw(even: u32, odd: u32) -> u32 {
    ((even & 0x5555_5555u32) << 1u32) | (odd & 0x5555_5555u32)
}

/// Number of cells of an Amiga sector after its sync longword: info, label,
/// header checksum, data checksum and 512 data bytes, all split in halves.
pub const AMIGA_SECTOR_CELLS: usize = 8640;

/// The Amiga sync longword (two 0x4489 words).
pub const AMIGA_SYNC_LONG: u32 = 0x4489_4489;

/// The info longword of the sector whose body starts at cell `o`.
pub open spec fn amiga_info(bits: Seq<bool>, o: int) -> u32 {
    amiga_lw(cells_u32(bits, o), cells_u32(bits, o + 32))
}

/// Header checksum matches and the format byte is one AmigaDOS writes.
pub open spec fn amiga_header_ok(bits: Seq<bool>, o: int) -> bool {
    let fmt = (amiga_info(bits, o) >> 24u32) as u8;
    &&& amiga_checksum_spec(cell_words(bits, o, 10)) == amiga_checksum_spec(cell_words(bits, o + 320, 2))
    &&& (fmt == 0xFF || fmt == 0x00 || fmt == 0x01)
}

/// Data checksum over the 256 data longwords matches the stored one.
pub open spec fn amiga_data_ok(bits: Seq<bool>, o: int) -> bool {
    amiga_checksum_spec(cell_words(bits, o + 448, 256)) == amiga_checksum_spec(cell_words(bits, o + 384, 2))
}

/// Status of the Amiga sector whose body starts at cell `o`.
pub open spec fn amiga_status(bits: Seq<bool>, o: int) -> SectorStatus {
    if !amiga_header_ok(bits, o) {
        SectorStatus::CrcId
    } else if !amiga_data_ok(bits, o) {
        SectorStatus::CrcData
    } else {
        SectorStatus::Good
    }
}

/// The record of the Amiga sector whose body starts at cell `o`.
pub open spec fn amiga_sector(bits: Seq<bool>, o: int) -> DecodedSector {
    let info = amiga_info(bits, o);
    let track = ((info >> 16u32) & 0xFFu32) as u8;
    let st = amiga_status(bits, o);
    sector_of(
        track / 2,
        track % 2,
        ((info >> 8u32) & 0xFFu32) as u8,
        2,
        st == SectorStatus::Good,
        st,
    )
}

/// Index of the first record with this sector id and cylinder, or -1.
pub open spec fn find_sector(acc: Seq<DecodedSector>, sec_id: u8, cyl: u8) -> int
    decreases acc.len(),
{
    if acc.len() == 0 {
        -1
    } else {
        let r = find_sector(acc.drop_last(), sec_id, cyl);
        if r >= 0 {
            r
        } else if acc.last().sec_id == sec_id && acc.last().cyl == cyl {
            acc.len() - 1
        } else {
            -1
        }
    }
}

/// Adds an Amiga sector: ids above 21 are ignored; a repeat of a known
/// (id, cylinder) only replaces a bad record with a good one.
pub open spec fn amiga_merge(acc: Seq<DecodedSector>, s: DecodedSector) -> Seq<DecodedSector> {
    if s.sec_id > 21 {
        acc
    } else {
        let k = find_sector(acc, s.sec_id, s.cyl);
        if k >= 0 {
            if !acc[k].crc_ok && s.crc_ok {
                acc.update(k, s)
            } else {
                acc
            }
        } else {
            acc.push(s)
        }
    }
}

/// Scans the cell stream from `i`: at each Amiga sync a whole sector is
/// decoded and skipped; elsewhere the scan moves one cell on.
pub open spec fn amiga_scan(bits: Seq<bool>, i: int, acc: Seq<DecodedSector>) -> Seq<DecodedSector>
    decreases bits.len() - i,
    when 0 <= i
{
    if i + 32 + 8640 <= bits.len() {
        if cells_u32(bits, i) == 0x4489_4489u32 {
            amiga_scan(bits, i + 32 + 8640, amiga_merge(acc, amiga_sector(bits, i + 32)))
        } else {
            amiga_scan(bits, i + 1, acc)
        }
    } else {
        acc
    }
}

/// What `find_sector` finds: -1 exactly when no record has the id and
/// cylinder, else the index of such a record.
pub proof fn lemma_find_sector(acc: Seq<DecodedSector>, sec_id: u8, cyl: u8)
    ensures
        (find_sector(acc, sec_id, cyl) == -1) <==> (forall|k: int|
            0 <= k < acc.len() ==> !(#[trigger] acc[k].sec_id == sec_id && acc[k].cyl == cyl)),
        find_sector(acc, sec_id, cyl) >= 0 ==> {
            let f = find_sector(acc, sec_id, cyl);
            &&& f < acc.len()
            &&& acc[f].sec_id == sec_id
            &&& acc[f].cyl == cyl
        },
        find_sector(acc, sec_id, cyl) >= -1,
    decreases acc.len(),
{
    if acc.len() > 0 {
        let d = acc.drop_last();
        lemma_find_sector(d, sec_id, cyl);
        assert forall|k: int| 0 <= k < d.len() implies d[k] == acc[k] by {}
        if find_sector(acc, sec_id, cyl) == -1 {
            assert forall|k: int| 0 <= k < acc.len() implies !(#[trigger] acc[k].sec_id == sec_id && acc[k].cyl
                == cyl) by {
                if k < d.len() {
                    assert(d[k] == acc[k]);
                }
            }
        } else {
            if find_sector(d, sec_id, cyl) == -1 {
                assert(acc.last() == acc[acc.len() - 1]);
            }
        }
    }
}

/// Two records share the (sector id, cylinder) key.
pub open spec fn same_key(a: DecodedSector, b: DecodedSector) -> bool {
    a.sec_id == b.sec_id && a.cyl == b.cyl
}

/// A record the Amiga decoder adds: id at most 21, head 0 or 1, size code
/// 2, and the CRC flag set exactly for a good sector.
pub open spec fn amiga_record_ok(d: DecodedSector) -> bool {
    &&& d.sec_id <= 21
    &&& d.head <= 1
    &&& d.size_code == 2
    &&& d.crc_ok == (d.status == SectorStatus::Good)
}

/// `acc` grew from `old`: each old record kept, or a bad one replaced by a
/// good one with the same key; each new record well formed and with a key
/// no earlier record has.
pub open spec fn keeps_or_upgrades(old: Seq<DecodedSector>, acc: Seq<DecodedSector>) -> bool {
    &&& acc.len() >= old.len()
    &&& forall|i: int|
        0 <= i < old.len() ==> (#[trigger] acc[i] == old[i] || (!old[i].crc_ok && acc[i].crc_ok && same_key(
            acc[i],
            old[i],
        )))
    &&& forall|i: int| old.len() <= i < acc.len() ==> amiga_record_ok(#[trigger] acc[i])
    &&& forall|i: int, j: int| 0 <= j < i < acc.len() && i >= old.len() ==> !same_key(#[trigger] acc[i], #[trigger] acc[j])
}

proof fn lemma_amiga_merge_keeps(old: Seq<DecodedSector>, acc: Seq<DecodedSector>, s: DecodedSector)
    requires
        keeps_or_upgrades(old, acc),
        s.head <= 1,
        s.size_code == 2,
        s.crc_ok == (s.status == SectorStatus::Good),
    ensures
        keeps_or_upgrades(old, amiga_merge(acc, s)),
{
    if s.sec_id <= 21 {
        lemma_find_sector(acc, s.sec_id, s.cyl);
        let k = find_sector(acc, s.sec_id, s.cyl);
        if k >= 0 {
            if !acc[k].crc_ok && s.crc_ok {
                let r = acc.update(k, s);
                assert forall|i: int| 0 <= i < old.len() implies (#[trigger] r[i] == old[i] || (!old[i].crc_ok
                    && r[i].crc_ok && same_key(r[i], old[i]))) by {
                    if i == k {
                        assert(acc[i] == old[i] || (!old[i].crc_ok && acc[i].crc_ok && same_key(acc[i], old[i])));
                    }
                }
                assert forall|i: int, j: int| 0 <= j < i < r.len() && i >= old.len() implies !same_key(
                    #[trigger] r[i],
                    #[trigger] r[j],
                ) by {
                    assert(!same_key(acc[i], acc[j]));
                }
            }
        } else {
            let r = acc.push(s);
            assert forall|i: int, j: int| 0 <= j < i < r.len() && i >= old.len() implies !same_key(
                #[trigger] r[i],
                #[trigger] r[j],
            ) by {
                if i < acc.len() {
                    assert(!same_key(acc[i], acc[j]));
                } else {
                    assert(!(acc[j].sec_id == s.sec_id && acc[j].cyl == s.cyl));
                }
            }
            assert forall|i: int| 0 <= i < old.len() implies (#[trigger] r[i] == old[i] || (!old[i].crc_ok
                && r[i].crc_ok && same_key(r[i], old[i]))) by {
                assert(r[i] == acc[i]);
            }
        }
    }
}

proof fn lemma_amiga_scan_keeps(bits: Seq<bool>, i: int, old: Seq<DecodedSector>, acc: Seq<DecodedSector>)
    requires
        0 <= i,
        keeps_or_upgrades(old, acc),
    ensures
        keeps_or_upgrades(old, amiga_scan(bits, i, acc)),
    decreases bits.len() - i,
{
    if i + 32 + 8640 <= bits.len() {
        if cells_u32(bits, i) == 0x4489_4489u32 {
            let s = amiga_sector(bits, i + 32);
            lemma_amiga_merge_keeps(old, acc, s);
            lemma_amiga_scan_keeps(bits, i + 32 + 8640, old, amiga_merge(acc, s));
        } else {
            lemma_amiga_scan_keeps(bits, i + 1, old, acc);
        }
    }
}

/// Law: decoding an Amiga cell stream into a list keeps every record the
/// list held, except that a bad record may be replaced by a good one with
/// the same (sector id, cylinder); every record it adds has id at most 21,
/// head 0 or 1, size code 2 and the CRC flag set exactly when it is good,
/// and no two records share a (sector id, cylinder) with an added one.
pub proof fn lemma_amiga_decode_keeps_or_upgrades(bits: Seq<bool>, old: Seq<DecodedSector>)
    ensures
        keeps_or_upgrades(old, amiga_scan(bits, 0, old)),
{
    lemma_amiga_scan_keeps(bits, 0, old, old);
}

/// Reads the longword at cell `start`.
fn read_cells_u32(bits: &[bool], start: usize) -> (w: u32)
    requires
        start + 32 <= bits@.len(),
    ensures
        w == cells_u32(bits@, start as int),
{
    extract_u32_from_bits(bits, start)
}

/// XOR of `n` consecutive longwords starting at cell `start`.
fn xor_cell_words(bits: &[bool], start: usize, n: usize) -> (r: u32)
    requires
        start + 32 * n <= bits@.len(),
    ensures
        r == xor_fold(cell_words(bits@, start as int, n as nat)),
{
    let len = bits.len();
    let mut chk: u32 = 0;
    let mut j: usize = 0;
    while j < n
        invariant
            j <= n,
            len == bits@.len(),
            start + 32 * n <= bits@.len(),
            chk == xor_fold(cell_words(bits@, start as int, j as nat)),
        decreases n - j,
    {
        let w = read_cells_u32(bits, start + 32 * j);
        assert(cell_words(bits@, start as int, (j + 1) as nat).drop_last() =~= cell_words(
            bits@,
            start as int,
            j as nat,
        ));
        chk = chk ^ w;
        j = j + 1;
    }
    chk
}

/// Paula checksum of `n` consecutive longwords starting at cell `start`.
fn cell_words_checksum(bits: &[bool], start: usize, n: usize) -> (r: u32)
    requires
        start + 32 * n <= bits@.len(),
    ensures
        r == amiga_checksum_spec(cell_words(bits@, start as int, n as nat)),
{
    let x = xor_cell_words(bits, start, n);
    x & 0x5555_5555u32
}

/// Decodes the Amiga sector whose body (after the sync) starts at cell `o`.
fn decode_amiga_sector_at(bits: &[bool], o: usize) -> (s: DecodedSector)
    requires
        o + 8640 <= bits@.len(),
    ensures
        s == amiga_sector(bits@, o as int),
{
    let len = bits.len();
    let even_info = read_cells_u32(bits, o);
    let odd_info = read_cells_u32(bits, o + 32);
    let info = decode_amiga_longword(even_info, odd_info);
    assert((info >> 24u32) < 256 && ((info >> 16u32) & 0xFFu32) < 256 && ((info >> 8u32) & 0xFFu32)
        < 256) by (bit_vector);
    let format_byte = (info >> 24u32) as u8;
    let track_num = ((info >> 16u32) & 0xFFu32) as u8;
    let sec_id = ((info >> 8u32) & 0xFFu32) as u8;
    let cyl = track_num / 2;
    let head = track_num % 2;
    let calc_hdr_chk = cell_words_checksum(bits, o, 10);
    let stored_hdr_chk = cell_words_checksum(bits, o + 320, 2);
    let hdr_ok = calc_hdr_chk == stored_hdr_chk && (format_byte == 0xFF || format_byte == 0x00
        || format_byte == 0x01);
    let calc_data_chk = cell_words_checksum(bits, o + 448, 256);
    let stored_data_chk = cell_words_checksum(bits, o + 384, 2);
    let data_ok = calc_data_chk == stored_data_chk;
    let status = if !hdr_ok {
        SectorStatus::CrcId
    } else if !data_ok {
        SectorStatus::CrcData
    } else {
        SectorStatus::Good
    };
    let crc_ok = match status {
        SectorStatus::Good => true,
        _ => false,
    };
    DecodedSector { cyl, head, sec_id, size_code: 2, crc_ok, status }
}

/// Index of the first record with this sector id and cylinder.
pub fn find_sector_index(sectors: &Vec<DecodedSector>, sec_id: u8, cyl: u8) -> (r: Option<usize>)
    ensures
        match r {
            Some(k) => k as int == find_sector(sectors@, sec_id, cyl),
            None => find_sector(sectors@, sec_id, cyl) == -1,
        },
        find_sector(sectors@, sec_id, cyl) < sectors@.len(),
{
    let mut k: usize = 0;
    let n = sectors.len();
    proof {
        lemma_find_sector_range(sectors@, sec_id, cyl);
    }
    while k < n
        invariant
            k <= n,
            n == sectors@.len(),
            find_sector(sectors@.subrange(0, k as int), sec_id, cyl) == -1,
        decreases n - k,
    {
        assert(sectors@.subrange(0, k + 1).drop_last() =~= sectors@.subrange(0, k as int));
        if sectors[k].sec_id == sec_id && sectors[k].cyl == cyl {
            proof {
                lemma_find_sector_prefix(sectors@, sec_id, cyl, (k + 1) as nat);
            }
            return Some(k);
        }
        k = k + 1;
    }
    assert(sectors@.subrange(0, n as int) =~= sectors@);
    None
}

proof fn lemma_find_sector_range(acc: Seq<DecodedSector>, sec_id: u8, cyl: u8)
    ensures
        -1 <= find_sector(acc, sec_id, cyl) < acc.len(),
        find_sector(acc, sec_id, cyl) >= 0 ==> acc[find_sector(acc, sec_id, cyl)].sec_id == sec_id
            && acc[find_sector(acc, sec_id, cyl)].cyl == cyl,
    decreases acc.len(),
{
    if acc.len() > 0 {
        lemma_find_sector_range(acc.drop_last(), sec_id, cyl);
    }
}

/// A match found in a prefix is the match of the whole sequence.
proof fn lemma_find_sector_prefix(acc: Seq<DecodedSector>, sec_id: u8, cyl: u8, k: nat)
    requires
        k <= acc.len(),
        find_sector(acc.subrange(0, k as int), sec_id, cyl) >= 0,
    ensures
        find_sector(acc, sec_id, cyl) == find_sector(acc.subrange(0, k as int), sec_id, cyl),
    decreases acc.len() - k,
{
    if k < acc.len() {
        assert(acc.drop_last().subrange(0, k as int) =~= acc.subrange(0, k as int));
        lemma_find_sector_prefix(acc.drop_last(), sec_id, cyl, k);
    } else {
        assert(acc.subrange(0, k as int) =~= acc);
    }
}

/// Adds one decoded Amiga sector to the list as `amiga_merge` describes.
fn merge_amiga_sector(sectors: &mut Vec<DecodedSector>, s: DecodedSector)
    ensures
        final(sectors)@ == amiga_merge(old(sectors)@, s),
{
    if s.sec_id <= 21 {
        match find_sector_index(sectors, s.sec_id, s.cyl) {
            Some(k) => {
                if !sectors[k].crc_ok && s.crc_ok {
                    sectors[k] = s;
                }
            },
            None => {
                sectors.push(s);
            },
        }
    }
}

/// Decodes every Amiga sector of the cell stream into `sectors`, keeping a
/// known (id, cylinder) unless a later copy is good where the known one is not.
pub fn decode_amiga_sectors_into(bits: &[bool], sectors: &mut Vec<DecodedSector>)
    ensures
        final(sectors)@ == amiga_scan(bits@, 0, old(sectors)@),
{
    let n = bits.len();
    let mut i: usize = 0;
    while i <= n && n - i >= 32 + AMIGA_SECTOR_CELLS
        invariant
            i <= n,
            n == bits@.len(),
            amiga_scan(bits@, 0, old(sectors)@) == amiga_scan(bits@, i as int, sectors@),
        decreases n - i,
    {
        let w = read_cells_u32(bits, i);
        if w == AMIGA_SYNC_LONG {
            let s = decode_amiga_sector_at(bits, i + 32);
            merge_amiga_sector(sectors, s);
            i = i + 32 + AMIGA_SECTOR_CELLS;
        } else {
            i = i + 1;
        }
    }
}

/// Decodes every Amiga sector of the cell stream.
pub fn decode_amiga_sectors_from_bits(bits: &[bool]) -> (r: Vec<DecodedSector>)
    ensures
        r@ == amiga_scan(bits@, 0, Seq::empty()),
{
    let mut sectors: Vec<DecodedSector> = Vec::with_capacity(22);
    decode_amiga_sectors_into(bits, &mut sectors);
    sectors
}

} // verus!
