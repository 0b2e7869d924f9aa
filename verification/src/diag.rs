//! The per-pass diagnostic record of a track and the two history lines built
//! from it: the standard line (ribbon of sector blocks and a status) and the
//! verbose line (the same with interleave, Gap0 and read quality).
use vstd::prelude::*;
use vstd::string::*;
use crate::drive::{format_gap0_field, gap0_text, gap0_window, get_valid_gap0, DriveReadStatus, SectorInfo};
use crate::fmt::{dec, dec02, join, pad_right, push_dec, push_dec02, push_spaces, spaces};
use crate::ibm::{mfm_sync_at, mfm_sync_at_cells};
use crate::sectors::{cells_u32, find_sector, find_sector_index, DecodedSector, SectorStatus};
use crate::mfm::extract_u32_from_bits;
use crate::text::{has_prefix, strip_prefix_str};
use crate::track::{
    any_id_in, cpc_ids, detect_interleave, format_sector_id_str, has_id_in, id_range,
    interleave_text, lemma_max_ids_reaches, make_id_range, make_id_range_inclusive, max_sec_id, max_sector_id,
    sector_id_text,
};

verus! {

/// What one read of a track gave: the decoded sectors and the measures
/// taken from them.
pub struct TrackAnalysisResult {
    pub has_disk: bool,
    pub bitrate: u16,
    pub sector_count: u8,
    pub sectors_known: bool,
    pub sectors: Vec<DecodedSector>,
    pub on_track_count: u32,
    pub off_track_count: u32,
    pub off_track_details: String,
    pub crc_err_count: u32,
    pub index_timestamps: Vec<u32>,
    pub instant_rpms: Vec<u32>,
    pub gap0_us: Option<u32>,
    pub pll_quality_pct: Option<u8>,
    pub interleave: Option<String>,
    pub read_status: DriveReadStatus,
}

impl Default for TrackAnalysisResult {
    fn default() -> (r: Self)
        ensures
            !r.has_disk,
            r.bitrate == 500,
            r.sector_count == 0,
            !r.sectors_known,
            r.sectors@.len() == 0,
            r.on_track_count == 0,
            r.off_track_count == 0,
            r.off_track_details@ == "NONE"@,
            r.crc_err_count == 0,
            r.index_timestamps@.len() == 0,
            r.instant_rpms@.len() == 0,
            r.gap0_us is None,
            r.pll_quality_pct is None,
            r.interleave is None,
            r.read_status == DriveReadStatus::Good,
    {
        TrackAnalysisResult {
            has_disk: false,
            bitrate: 500,
            sector_count: 0,
            sectors_known: false,
            sectors: Vec::new(),
            on_track_count: 0,
            off_track_count: 0,
            off_track_details: String::from_str("NONE"),
            crc_err_count: 0,
            index_timestamps: Vec::new(),
            instant_rpms: Vec::new(),
            gap0_us: None,
            pll_quality_pct: None,
            interleave: None,
            read_status: DriveReadStatus::Good,
        }
    }
}

/// Sector count of a pass with plain IBM ids, from the bit rate and the
/// number of sectors found.
pub open spec fn pass_count(s: Seq<DecodedSector>, bitrate: u16, sc: u8) -> nat {
    if bitrate == 250 {
        if sc > 9 { sc as nat } else { 9 }
    } else if bitrate == 500 {
        if sc == 15 || (max_sec_id(s, 0) == 15 && sc <= 15) {
            15
        } else if sc > 18 {
            sc as nat
        } else {
            18
        }
    } else if sc > 0 {
        if sc <= 9 {
            9
        } else if sc <= 15 {
            15
        } else {
            18
        }
    } else {
        18
    }
}

/// The sector ids a pass line shows: Amstrad data or system ids, Amiga ids
/// from 0, or IBM ids from 1.
pub open spec fn pass_expected_ids(s: Seq<DecodedSector>, bitrate: u16, sc: u8) -> Seq<u8> {
    if any_id_in(s, 0xC1, 0xCA) {
        cpc_ids(s, 0xC1, 0xCA, 0xC9)
    } else if any_id_in(s, 0x41, 0x4A) {
        cpc_ids(s, 0x41, 0x4A, 0x49)
    } else if any_id_in(s, 0, 0) {
        id_range(0, if bitrate == 500 { 22 } else { 11 })
    } else {
        id_range(1, pass_count(s, bitrate, sc))
    }
}

/// Status of the first sector with this id on the expected track, if any.
pub open spec fn cell_status(s: Seq<DecodedSector>, id: u8, track: u8) -> Option<SectorStatus> {
    let k = find_sector(s, id, track);
    if k >= 0 {
        Some(s[k].status)
    } else {
        None
    }
}

/// Whether the ribbon shows a full block for this id: found on the track
/// and not missing, or found on another track.
pub open spec fn cell_filled(s: Seq<DecodedSector>, id: u8, track: u8) -> bool {
    match cell_status(s, id, track) {
        Some(st) => st != SectorStatus::Missing,
        None => any_id_in(s, id, id),
    }
}

/// Whether this id counts as missing: marked missing on the track, or found
/// nowhere.
pub open spec fn cell_missing(s: Seq<DecodedSector>, id: u8, track: u8) -> bool {
    match cell_status(s, id, track) {
        Some(st) => st == SectorStatus::Missing,
        None => !any_id_in(s, id, id),
    }
}

/// Number of ids found good on the track.
pub open spec fn ok_count(s: Seq<DecodedSector>, ids: Seq<u8>, track: u8) -> nat
    decreases ids.len(),
{
    if ids.len() == 0 {
        0
    } else {
        ok_count(s, ids.drop_last(), track) + if cell_status(s, ids.last(), track) == Some(
            SectorStatus::Good,
        ) {
            1nat
        } else {
            0nat
        }
    }
}

/// The ids found on the track with the given status, in order.
pub open spec fn ids_with(s: Seq<DecodedSector>, ids: Seq<u8>, track: u8, st: SectorStatus) -> Seq<u8>
    decreases ids.len(),
{
    if ids.len() == 0 {
        Seq::empty()
    } else {
        let rest = ids_with(s, ids.drop_last(), track, st);
        if cell_status(s, ids.last(), track) == Some(st) {
            rest.push(ids.last())
        } else {
            rest
        }
    }
}

/// The missing ids (see `cell_missing`), in order.
pub open spec fn missing_ids(s: Seq<DecodedSector>, ids: Seq<u8>, track: u8) -> Seq<u8>
    decreases ids.len(),
{
    if ids.len() == 0 {
        Seq::empty()
    } else {
        let rest = missing_ids(s, ids.drop_last(), track);
        if cell_missing(s, ids.last(), track) {
            rest.push(ids.last())
        } else {
            rest
        }
    }
}

/// One ribbon block: full or empty.
pub open spec fn block_text(filled: bool) -> Seq<char> {
    if filled {
        seq!['■']
    } else {
        seq!['░']
    }
}

/// The blocks of the ribbon, one per expected id.
pub open spec fn ribbon_blocks(s: Seq<DecodedSector>, ids: Seq<u8>, track: u8) -> Seq<Seq<char>> {
    Seq::new(ids.len(), |k: int| block_text(cell_filled(s, ids[k], track)))
}

/// The ribbon: `[ ` blocks separated by spaces ` ]`.
pub open spec fn ribbon_text(s: Seq<DecodedSector>, ids: Seq<u8>, track: u8) -> Seq<char> {
    seq!['[', ' '] + join(ribbon_blocks(s, ids, track), seq![' ']) + seq![' ', ']']
}

/// Sector ids as text, separated by `, `.
pub open spec fn id_list_text(ids: Seq<u8>) -> Seq<char> {
    join(Seq::new(ids.len(), |k: int| sector_id_text(ids[k])), ", "@)
}

/// `(<a>/<b>`.
pub open spec fn ratio_text(a: nat, b: nat) -> Seq<char> {
    "("@ + dec(a) + "/"@ + dec(b)
}

/// The status column of a pass line. The verbose line shows a perfect
/// 9-sector track as `(9/9 OK)` followed by two spaces.
pub open spec fn pass_status_text(
    s: Seq<DecodedSector>,
    ids: Seq<u8>,
    track: u8,
    off_track_count: u32,
    details: Seq<char>,
    crc_err_count: u32,
    verbose: bool,
) -> Seq<char> {
    let exp = ids.len();
    let ok = ok_count(s, ids, track);
    let crc_dat = ids_with(s, ids, track, SectorStatus::CrcData);
    let crc_id = ids_with(s, ids, track, SectorStatus::CrcId);
    let no_dam = ids_with(s, ids, track, SectorStatus::NoDam);
    let del_dam = ids_with(s, ids, track, SectorStatus::DelDam);
    let missing = missing_ids(s, ids, track);
    if off_track_count > 0 && has_prefix(details, "MISALIGNED"@) {
        ratio_text(s.len(), exp) + " "@ + details + ")"@
    } else if ok == exp && crc_err_count == 0 && off_track_count == 0 {
        if verbose && exp == 9 {
            "(9/9 OK)  "@
        } else {
            ratio_text(exp, exp) + " OK)"@
        }
    } else if crc_dat.len() > 0 {
        ratio_text(ok, exp) + " CRC-DAT: Sec "@ + id_list_text(crc_dat) + ")"@
    } else if crc_id.len() > 0 {
        ratio_text(ok, exp) + " CRC-ID: Sec "@ + id_list_text(crc_id) + ")"@
    } else if no_dam.len() > 0 {
        ratio_text(ok, exp) + " NO-DAM: Sec "@ + id_list_text(no_dam) + ")"@
    } else if del_dam.len() > 0 {
        ratio_text(ok, exp) + " DEL-DAM: Sec "@ + id_list_text(del_dam) + ")"@
    } else if missing.len() > 0 {
        ratio_text(ok, exp) + " MISSING: Sec "@ + id_list_text(missing) + ")"@
    } else if off_track_count > 0 {
        ratio_text(ok, exp) + " OFF-TRK: "@ + details + ")"@
    } else if ok < exp {
        ratio_text(ok, exp) + " BAD)"@
    } else {
        ratio_text(ok, exp) + " OK)"@
    }
}

/// Whether a pass has decoded sectors to show.
pub open spec fn pass_has_data(has_disk: bool, sectors_known: bool, s: Seq<DecodedSector>) -> bool {
    has_disk && sectors_known && s.len() > 0
}

/// `T:<track> H:<head> Rate:`.
pub open spec fn line_prefix(track: u8, head: u8) -> Seq<char> {
    "T:"@ + dec02(track as nat) + " H:"@ + dec(head as nat) + " Rate:"@
}

/// The line of a pass without data.
pub open spec fn no_data_line(track: u8, head: u8) -> Seq<char> {
    line_prefix(track, head) + "---k --- "@ + pad_right(seq!['[', ' ', '?', ' ', ']'], 39) + " "@
        + "(0/0 NO DATA / NO DISK)"@
}

/// The line of a pass with data, with the standard or verbose status.
pub open spec fn data_line(
    track: u8,
    head: u8,
    bitrate: u16,
    s: Seq<DecodedSector>,
    sc: u8,
    off_track_count: u32,
    details: Seq<char>,
    crc_err_count: u32,
    verbose: bool,
) -> Seq<char> {
    let ids = pass_expected_ids(s, bitrate, sc);
    line_prefix(track, head) + dec(bitrate as nat) + "k MFM "@ + pad_right(ribbon_text(s, ids, track), 39)
        + " "@ + pass_status_text(s, ids, track, off_track_count, details, crc_err_count, verbose)
}

/// The standard history line of a pass.
pub open spec fn standard_line_spec(track: u8, head: u8, d: TrackAnalysisResult) -> Seq<char> {
    if !pass_has_data(d.has_disk, d.sectors_known, d.sectors@) {
        no_data_line(track, head)
    } else {
        data_line(
            track,
            head,
            d.bitrate,
            d.sectors@,
            d.sector_count,
            d.off_track_count,
            d.off_track_details@,
            d.crc_err_count,
            false,
        )
    }
}

/// The read-quality field: `Q:<pct>%`, or `Q:--%`.
pub open spec fn quality_text(q: Option<u8>) -> Seq<char> {
    match q {
        Some(v) => "Q:"@ + dec(v as nat) + "%"@,
        None => "Q:--%"@,
    }
}

/// The interleave shown: the recorded one, else the one detected from the
/// sectors against the expected count.
pub open spec fn pass_interleave_text(d: TrackAnalysisResult, exp: u8) -> Seq<char> {
    match d.interleave {
        Some(t) => t@,
        None => interleave_text(d.sectors@, exp),
    }
}

/// The verbose history line of a pass.
pub open spec fn verbose_line_spec(track: u8, head: u8, d: TrackAnalysisResult) -> Seq<char> {
    if !pass_has_data(d.has_disk, d.sectors_known, d.sectors@) {
        no_data_line(track, head) + " IL:--- Gap0:---- Q:--%"@
    } else {
        let ids = pass_expected_ids(d.sectors@, d.bitrate, d.sector_count);
        data_line(
            track,
            head,
            d.bitrate,
            d.sectors@,
            d.sector_count,
            d.off_track_count,
            d.off_track_details@,
            d.crc_err_count,
            true,
        ) + " "@ + "IL:"@ + pass_interleave_text(d, ids.len() as u8) + " "@ + gap0_text(d.gap0_us)
            + " "@ + quality_text(d.pll_quality_pct)
    }
}

fn pass_count_exec(s: &[DecodedSector], bitrate: u16, sc: u8) -> (c: u8)
    ensures
        c as nat == pass_count(s@, bitrate, sc),
        (bitrate != 250 && bitrate != 500 && sc > 0) ==> c == (if sc <= 9 {
            9u8
        } else if sc <= 15 {
            15u8
        } else {
            18u8
        }),
{
    if bitrate == 250 {
        if sc > 9 {
            sc
        } else {
            9
        }
    } else if bitrate == 500 {
        let m = max_sector_id(s, 0);
        if sc == 15 || (m == 15 && sc <= 15) {
            15
        } else if sc > 18 {
            sc
        } else {
            18
        }
    } else if sc > 0 {
        if sc <= 9 {
            9
        } else if sc <= 15 {
            15
        } else {
            18
        }
    } else {
        18
    }
}

/// The sector ids a pass line shows (see `pass_expected_ids`).
pub fn pass_expected_sector_ids(s: &[DecodedSector], bitrate: u16, sc: u8) -> (v: Vec<u8>)
    ensures
        v@ == pass_expected_ids(s@, bitrate, sc),
        v@.len() <= 255,
{
    if has_id_in(s, 0xC1, 0xCA) {
        let m = max_sector_id(s, 0xC9);
        make_id_range(
            0xC1,
            if m >= 0xCA {
                10
            } else {
                9
            },
        )
    } else if has_id_in(s, 0x41, 0x4A) {
        let m = max_sector_id(s, 0x49);
        make_id_range(
            0x41,
            if m >= 0x4A {
                10
            } else {
                9
            },
        )
    } else if has_id_in(s, 0, 0) {
        make_id_range(
            0,
            if bitrate == 500 {
                22
            } else {
                11
            },
        )
    } else {
        make_id_range_inclusive(pass_count_exec(s, bitrate, sc))
    }
}

/// Law: a pass with plain IBM sector ids shows the ids 1, 2, .. in order.
/// At 250 kbps there are as many as the sector count `sc`, at least nine.
/// At a bit rate other than 250 and 500 kbps (a 5.25" disk read at 300
/// kbps) there are 9 when `1 <= sc <= 9`, 15 when `10 <= sc <= 15`, and 18
/// when `sc` is above 15 or unknown (0). At 500 kbps there are 15 when
/// `sc == 15`, and 18 when `sc <= 18` is not 15 and no id 15 or above was
/// found.
pub proof fn lemma_pass_ids_by_rate(s: Seq<DecodedSector>, bitrate: u16, sc: u8)
    requires
        forall|k: int|
            0 <= k < s.len() ==> {
                let id = #[trigger] s[k].sec_id;
                &&& id != 0
                &&& !(0x41 <= id <= 0x4A)
                &&& !(0xC1 <= id <= 0xCA)
            },
    ensures
        ({
            let n: int = if bitrate == 250 {
                if sc > 9 {
                    sc as int
                } else {
                    9
                }
            } else if bitrate != 500 {
                if sc == 0 {
                    18
                } else if sc <= 9 {
                    9
                } else if sc <= 15 {
                    15
                } else {
                    18
                }
            } else if sc == 15 {
                15
            } else {
                18
            };
            let ids = pass_expected_ids(s, bitrate, sc);
            (bitrate != 500 || sc == 15 || (sc <= 18 && forall|k: int| 0 <= k < s.len() ==> #[trigger] s[k].sec_id < 15))
                ==> {
                &&& pass_count(s, bitrate, sc) == n
                &&& ids.len() == n
                &&& forall|i: int| 0 <= i < n ==> ids[i] == i + 1
            }
        }),
{
    assert(!any_id_in(s, 0xC1, 0xCA));
    assert(!any_id_in(s, 0x41, 0x4A));
    assert(!any_id_in(s, 0, 0));
    if bitrate == 500 && s.len() > 0 && forall|k: int| 0 <= k < s.len() ==> #[trigger] s[k].sec_id < 15 {
        lemma_max_ids_reaches(s, 15);
    }
}

/// Whether some record has exactly this sector id.
fn has_id(s: &[DecodedSector], id: u8) -> (r: bool)
    ensures
        r == any_id_in(s@, id, id),
{
    has_id_in(s, id, id)
}

/// Ribbon, counts and per-status id lists of a pass.
struct PassCells {
    ribbon: String,
    ribbon_len: usize,
    ok: u32,
    crc_dat: Vec<u8>,
    crc_id: Vec<u8>,
    no_dam: Vec<u8>,
    del_dam: Vec<u8>,
    missing: Vec<u8>,
}

proof fn lemma_join_blocks_len(parts: Seq<Seq<char>>)
    requires
        forall|k: int| 0 <= k < parts.len() ==> (#[trigger] parts[k]).len() == 1,
    ensures
        parts.len() > 0 ==> join(parts, seq![' ']).len() == 2 * parts.len() - 1,
        parts.len() == 0 ==> join(parts, seq![' ']).len() == 0,
    decreases parts.len(),
{
    if parts.len() > 1 {
        lemma_join_blocks_len(parts.drop_last());
    }
}

/// Classifies every expected id: builds the ribbon and the lists.
fn classify_cells(s: &Vec<DecodedSector>, ids: &Vec<u8>, track: u8) -> (c: PassCells)
    requires
        ids@.len() <= 255,
    ensures
        c.ribbon@ == ribbon_text(s@, ids@, track),
        c.ribbon_len == c.ribbon@.len(),
        c.ok as nat == ok_count(s@, ids@, track),
        c.crc_dat@ == ids_with(s@, ids@, track, SectorStatus::CrcData),
        c.crc_id@ == ids_with(s@, ids@, track, SectorStatus::CrcId),
        c.no_dam@ == ids_with(s@, ids@, track, SectorStatus::NoDam),
        c.del_dam@ == ids_with(s@, ids@, track, SectorStatus::DelDam),
        c.missing@ == missing_ids(s@, ids@, track),
{
    proof {
        reveal_strlit("[ ");
        reveal_strlit(" ]");
    }
    let mut ribbon = String::from_str("[ ");
    let mut blocks = String::new();
    let mut ok: u32 = 0;
    let mut crc_dat: Vec<u8> = Vec::new();
    let mut crc_id: Vec<u8> = Vec::new();
    let mut no_dam: Vec<u8> = Vec::new();
    let mut del_dam: Vec<u8> = Vec::new();
    let mut missing: Vec<u8> = Vec::new();
    let n = ids.len();
    let mut k: usize = 0;
    while k < n
        invariant
            k <= n,
            n == ids@.len(),
            n <= 255,
            blocks@ == join(ribbon_blocks(s@, ids@.subrange(0, k as int), track), seq![' ']),
            ok as nat == ok_count(s@, ids@.subrange(0, k as int), track),
            ok <= k,
            crc_dat@ == ids_with(s@, ids@.subrange(0, k as int), track, SectorStatus::CrcData),
            crc_id@ == ids_with(s@, ids@.subrange(0, k as int), track, SectorStatus::CrcId),
            no_dam@ == ids_with(s@, ids@.subrange(0, k as int), track, SectorStatus::NoDam),
            del_dam@ == ids_with(s@, ids@.subrange(0, k as int), track, SectorStatus::DelDam),
            missing@ == missing_ids(s@, ids@.subrange(0, k as int), track),
        decreases n - k,
    {
        let id = ids[k];
        let ghost pre = ids@.subrange(0, k as int);
        let ghost cur = ids@.subrange(0, k + 1);
        assert(cur.drop_last() =~= pre);
        assert(cur.last() == id);
        let filled: bool;
        match find_sector_index(s, id, track) {
            Some(j) => {
                let st = s[j].status;
                assert(cell_status(s@, id, track) == Some(st));
                match st {
                    SectorStatus::Good => {
                        ok = ok + 1;
                    },
                    SectorStatus::CrcData => {
                        crc_dat.push(id);
                    },
                    SectorStatus::CrcId => {
                        crc_id.push(id);
                    },
                    SectorStatus::NoDam => {
                        no_dam.push(id);
                    },
                    SectorStatus::DelDam => {
                        del_dam.push(id);
                    },
                    SectorStatus::Missing => {
                        missing.push(id);
                    },
                }
                filled = match st {
                    SectorStatus::Missing => false,
                    _ => true,
                };
            },
            None => {
                assert(cell_status(s@, id, track) is None);
                if has_id(s.as_slice(), id) {
                    filled = true;
                } else {
                    missing.push(id);
                    filled = false;
                }
            },
        }
        assert(filled == cell_filled(s@, id, track));
        let ghost parts_pre = ribbon_blocks(s@, pre, track);
        let ghost parts_cur = ribbon_blocks(s@, cur, track);
        assert(parts_cur.drop_last() =~= parts_pre);
        if k > 0 {
            blocks.append(" ");
        }
        if filled {
            blocks.append("■");
        } else {
            blocks.append("░");
        }
        proof {
            reveal_strlit(" ");
            reveal_strlit("■");
            reveal_strlit("░");
            assert(parts_cur.last() == block_text(filled));
            if k > 0 {
                assert(blocks@ =~= join(parts_pre, seq![' ']) + seq![' '] + parts_cur.last());
            } else {
                assert(parts_cur.len() == 1);
                assert(blocks@ =~= parts_cur[0]);
            }
        }
        k = k + 1;
    }
    proof {
        assert(ids@.subrange(0, n as int) =~= ids@);
        let parts = ribbon_blocks(s@, ids@, track);
        assert forall|j: int| 0 <= j < parts.len() implies (#[trigger] parts[j]).len() == 1 by {}
        lemma_join_blocks_len(parts);
    }
    ribbon.append(blocks.as_str());
    ribbon.append(" ]");
    let ribbon_len: usize = if n == 0 {
        4
    } else {
        2 * n + 3
    };
    assert(ribbon@ =~= ribbon_text(s@, ids@, track));
    PassCells { ribbon, ribbon_len, ok, crc_dat, crc_id, no_dam, del_dam, missing }
}

/// Appends the ids as text separated by `, `.
fn push_id_list(out: &mut String, ids: &Vec<u8>)
    ensures
        final(out)@ == old(out)@ + id_list_text(ids@),
{
    let n = ids.len();
    let mut k: usize = 0;
    let ghost base = out@;
    while k < n
        invariant
            k <= n,
            n == ids@.len(),
            out@ == base + join(Seq::new(k as nat, |j: int| sector_id_text(ids@[j])), ", "@),
        decreases n - k,
    {
        let ghost prev = Seq::new(k as nat, |j: int| sector_id_text(ids@[j]));
        let ghost next = Seq::new((k + 1) as nat, |j: int| sector_id_text(ids@[j]));
        assert(next.drop_last() =~= prev);
        if k > 0 {
            out.append(", ");
        }
        let t = format_sector_id_str(ids[k]);
        out.append(t.as_str());
        proof {
            if k > 0 {
                assert(out@ =~= base + (join(prev, ", "@) + ", "@ + next.last()));
            } else {
                assert(out@ =~= base + next[0]);
            }
        }
        k = k + 1;
    }
    assert(Seq::new(n as nat, |j: int| sector_id_text(ids@[j])) =~= Seq::new(
        ids@.len(),
        |j: int| sector_id_text(ids@[j]),
    ));
}

/// Appends `(<a>/<b>`.
fn push_ratio(out: &mut String, a: u64, b: u64)
    ensures
        final(out)@ == old(out)@ + ratio_text(a as nat, b as nat),
{
    out.append("(");
    push_dec(out, a);
    out.append("/");
    push_dec(out, b);
    assert(out@ =~= old(out)@ + ratio_text(a as nat, b as nat));
}

/// Appends `<ratio><label><ids>)`.
fn push_list_status(out: &mut String, ok: u64, exp: u64, label: &str, ids: &Vec<u8>)
    ensures
        final(out)@ == old(out)@ + ratio_text(ok as nat, exp as nat) + label@ + id_list_text(ids@) + ")"@,
{
    push_ratio(out, ok, exp);
    out.append(label);
    push_id_list(out, ids);
    out.append(")");
    assert(out@ =~= old(out)@ + ratio_text(ok as nat, exp as nat) + label@ + id_list_text(ids@) + ")"@);
}

/// Appends the status column of a pass line (see `pass_status_text`).
fn push_pass_status(
    out: &mut String,
    d: &TrackAnalysisResult,
    ids: &Vec<u8>,
    c: &PassCells,
    track: u8,
    verbose: bool,
)
    requires
        ids@.len() <= 255,
        c.ok as nat == ok_count(d.sectors@, ids@, track),
        c.crc_dat@ == ids_with(d.sectors@, ids@, track, SectorStatus::CrcData),
        c.crc_id@ == ids_with(d.sectors@, ids@, track, SectorStatus::CrcId),
        c.no_dam@ == ids_with(d.sectors@, ids@, track, SectorStatus::NoDam),
        c.del_dam@ == ids_with(d.sectors@, ids@, track, SectorStatus::DelDam),
        c.missing@ == missing_ids(d.sectors@, ids@, track),
    ensures
        final(out)@ == old(out)@ + pass_status_text(
            d.sectors@,
            ids@,
            track,
            d.off_track_count,
            d.off_track_details@,
            d.crc_err_count,
            verbose,
        ),
{
    let exp: u64 = ids.len() as u64;
    let ok: u64 = c.ok as u64;
    let misaligned = match strip_prefix_str(d.off_track_details.as_str(), "MISALIGNED") {
        Some(_) => true,
        None => false,
    };
    if d.off_track_count > 0 && misaligned {
        push_ratio(out, d.sectors.len() as u64, exp);
        out.append(" ");
        out.append(d.off_track_details.as_str());
        out.append(")");
        assert(out@ =~= old(out)@ + (ratio_text(d.sectors@.len(), exp as nat) + " "@ + d.off_track_details@ + ")"@));
    } else if ok == exp && d.crc_err_count == 0 && d.off_track_count == 0 {
        if verbose && exp == 9 {
            out.append("(9/9 OK)  ");
        } else {
            push_ratio(out, exp, exp);
            out.append(" OK)");
            assert(out@ =~= old(out)@ + (ratio_text(exp as nat, exp as nat) + " OK)"@));
        }
    } else if c.crc_dat.len() > 0 {
        push_list_status(out, ok, exp, " CRC-DAT: Sec ", &c.crc_dat);
    } else if c.crc_id.len() > 0 {
        push_list_status(out, ok, exp, " CRC-ID: Sec ", &c.crc_id);
    } else if c.no_dam.len() > 0 {
        push_list_status(out, ok, exp, " NO-DAM: Sec ", &c.no_dam);
    } else if c.del_dam.len() > 0 {
        push_list_status(out, ok, exp, " DEL-DAM: Sec ", &c.del_dam);
    } else if c.missing.len() > 0 {
        push_list_status(out, ok, exp, " MISSING: Sec ", &c.missing);
    } else if d.off_track_count > 0 {
        push_ratio(out, ok, exp);
        out.append(" OFF-TRK: ");
        out.append(d.off_track_details.as_str());
        out.append(")");
        assert(out@ =~= old(out)@ + (ratio_text(ok as nat, exp as nat) + " OFF-TRK: "@ + d.off_track_details@ + ")"@));
    } else if ok < exp {
        push_ratio(out, ok, exp);
        out.append(" BAD)");
        assert(out@ =~= old(out)@ + (ratio_text(ok as nat, exp as nat) + " BAD)"@));
    } else {
        push_ratio(out, ok, exp);
        out.append(" OK)");
        assert(out@ =~= old(out)@ + (ratio_text(ok as nat, exp as nat) + " OK)"@));
    }
}

/// Appends `T:<track> H:<head> Rate:`.
fn push_line_prefix(out: &mut String, track: u8, head: u8)
    ensures
        final(out)@ == old(out)@ + line_prefix(track, head),
{
    out.append("T:");
    push_dec02(out, track as u64);
    out.append(" H:");
    push_dec(out, head as u64);
    out.append(" Rate:");
    assert(out@ =~= old(out)@ + line_prefix(track, head));
}

/// The line of a pass without data.
fn no_data_line_exec(track: u8, head: u8) -> (r: String)
    ensures
        r@ == no_data_line(track, head),
{
    let mut out = String::new();
    push_line_prefix(&mut out, track, head);
    out.append("---k --- ");
    out.append("[ ? ]");
    proof {
        reveal_strlit("[ ? ]");
    }
    push_spaces(&mut out, 34);
    out.append(" ");
    out.append("(0/0 NO DATA / NO DISK)");
    assert(seq!['[', ' ', '?', ' ', ']'] + spaces(34) =~= pad_right(seq!['[', ' ', '?', ' ', ']'], 39));
    assert(out@ =~= no_data_line(track, head));
    out
}

/// The line of a pass with data (see `data_line`).
fn data_line_exec(track: u8, head: u8, d: &TrackAnalysisResult, verbose: bool) -> (r: String)
    ensures
        r@ == data_line(
            track,
            head,
            d.bitrate,
            d.sectors@,
            d.sector_count,
            d.off_track_count,
            d.off_track_details@,
            d.crc_err_count,
            verbose,
        ),
{
    let ids = pass_expected_sector_ids(d.sectors.as_slice(), d.bitrate, d.sector_count);
    let c = classify_cells(&d.sectors, &ids, track);
    let mut out = String::new();
    push_line_prefix(&mut out, track, head);
    push_dec(&mut out, d.bitrate as u64);
    out.append("k MFM ");
    out.append(c.ribbon.as_str());
    if c.ribbon_len < 39 {
        push_spaces(&mut out, 39 - c.ribbon_len);
    }
    out.append(" ");
    let ghost before_status = out@;
    push_pass_status(&mut out, d, &ids, &c, track, verbose);
    proof {
        let r = ribbon_text(d.sectors@, ids@, track);
        if r.len() < 39 {
            assert(before_status =~= line_prefix(track, head) + dec(d.bitrate as nat) + "k MFM "@ + pad_right(r, 39) + " "@);
        } else {
            assert(before_status =~= line_prefix(track, head) + dec(d.bitrate as nat) + "k MFM "@ + pad_right(r, 39) + " "@);
        }
    }
    assert(out@ =~= data_line(
        track,
        head,
        d.bitrate,
        d.sectors@,
        d.sector_count,
        d.off_track_count,
        d.off_track_details@,
        d.crc_err_count,
        verbose,
    ));
    out
}

/// Standard history line of a pass:
/// `T:<tt> H:<h> Rate:<k>k MFM <ribbon padded to 39> <status>`, or the
/// no-data line when nothing was decoded.
pub fn build_standard_pass_line(track: u8, head: u8, diag: &TrackAnalysisResult) -> (r: String)
    ensures
        r@ == standard_line_spec(track, head, *diag),
{
    if !diag.has_disk || !diag.sectors_known || diag.sectors.len() == 0 {
        return no_data_line_exec(track, head);
    }
    data_line_exec(track, head, diag, false)
}

/// Appends the read-quality field.
fn push_quality(out: &mut String, q: Option<u8>)
    ensures
        final(out)@ == old(out)@ + quality_text(q),
{
    match q {
        Some(v) => {
            out.append("Q:");
            push_dec(out, v as u64);
            out.append("%");
            assert(out@ =~= old(out)@ + quality_text(q));
        },
        None => {
            out.append("Q:--%");
        },
    }
}

/// Verbose history line of a pass: the standard line with the verbose
/// status, then `IL:<interleave> Gap0:<µs> Q:<pct>%`.
pub fn build_verbose_pass_line(track: u8, head: u8, diag: &TrackAnalysisResult) -> (r: String)
    ensures
        r@ == verbose_line_spec(track, head, *diag),
{
    if !diag.has_disk || !diag.sectors_known || diag.sectors.len() == 0 {
        let mut out = no_data_line_exec(track, head);
        out.append(" IL:--- Gap0:---- Q:--%");
        return out;
    }
    let mut out = data_line_exec(track, head, diag, true);
    let ghost head_part = out@;
    let ids = pass_expected_sector_ids(diag.sectors.as_slice(), diag.bitrate, diag.sector_count);
    let exp: u8 = ids.len() as u8;
    out.append(" ");
    out.append("IL:");
    match &diag.interleave {
        Some(il) => {
            out.append(il.as_str());
        },
        None => {
            match detect_interleave(diag.sectors.as_slice(), exp) {
                Some(il) => {
                    out.append(il.as_str());
                },
                None => {},
            }
        },
    }
    out.append(" ");
    let g = format_gap0_field(diag.gap0_us);
    out.append(g.as_str());
    out.append(" ");
    push_quality(&mut out, diag.pll_quality_pct);
    assert(out@ =~= head_part + " "@ + "IL:"@ + pass_interleave_text(*diag, exp) + " "@ + gap0_text(
        diag.gap0_us,
    ) + " "@ + quality_text(diag.pll_quality_pct));
    out
}


/// A count right-aligned in two columns (`{:>2}`).
pub open spec fn dec_right2(n: nat) -> Seq<char> {
    if n < 10 {
        seq![' '] + dec(n)
    } else {
        dec(n)
    }
}

/// The ribbon of a pass in progress: `filled` full blocks then empty ones,
/// `total` in all.
pub open spec fn progress_ribbon(filled: nat, total: nat) -> Seq<char> {
    seq!['[', ' '] + join(Seq::new(total, |k: int| block_text(k < filled)), seq![' ']) + seq![' ', ']']
}

/// Standard line of a pass in progress, `found` sectors decoded so far
/// (`None` at the start of the revolution).
pub open spec fn progress_standard_line(track: u8, head: u8, bitrate: u16, expected: u8, found: Option<nat>) -> Seq<char> {
    let filled: nat = match found {
        Some(f) => if f < expected { f } else { expected as nat },
        None => 0,
    };
    let status = if found is Some && filled == expected {
        ratio_text(expected as nat, expected as nat) + " OK)"@
    } else {
        "("@ + dec_right2(filled) + "/"@ + dec(expected as nat) + ")"@
    };
    line_prefix(track, head) + dec(bitrate as nat) + "k MFM "@ + pad_right(progress_ribbon(filled, expected as nat), 39)
        + " "@ + status
}

/// Verbose line of a pass in progress (see `progress_standard_line`).
pub open spec fn progress_verbose_line(track: u8, head: u8, bitrate: u16, expected: u8, found: Option<nat>) -> Seq<char> {
    let filled: nat = match found {
        Some(f) => if f < expected { f } else { expected as nat },
        None => 0,
    };
    let status = if found is Some && filled == expected {
        if expected == 9 {
            "(9/9 OK)  "@
        } else {
            ratio_text(expected as nat, expected as nat) + " OK)"@
        }
    } else {
        " ("@ + dec_right2(filled) + "/"@ + dec(expected as nat) + ")"@
    };
    line_prefix(track, head) + dec(bitrate as nat) + "k MFM "@ + pad_right(progress_ribbon(filled, expected as nat), 39)
        + " "@ + status + " IL:--- Gap0:---- Q:--%"@
}

/// Appends the progress ribbon padded to 39 columns.
fn push_progress_ribbon(out: &mut String, filled: usize, total: usize)
    requires
        filled <= total <= 255,
    ensures
        final(out)@ == old(out)@ + pad_right(progress_ribbon(filled as nat, total as nat), 39),
{
    proof {
        reveal_strlit("[ ");
        reveal_strlit(" ]");
        reveal_strlit(" ");
        reveal_strlit("■");
        reveal_strlit("░");
    }
    let ghost parts_all = Seq::new(total as nat, |k: int| block_text(k < filled));
    let mut blocks = String::new();
    let mut k: usize = 0;
    while k < total
        invariant
            k <= total,
            filled <= total <= 255,
            parts_all == Seq::new(total as nat, |j: int| block_text(j < filled)),
            blocks@ == join(parts_all.subrange(0, k as int), seq![' ']),
        decreases total - k,
    {
        proof {
            reveal_strlit(" ");
            reveal_strlit("■");
            reveal_strlit("░");
        }
        let ghost prev = parts_all.subrange(0, k as int);
        let ghost next = parts_all.subrange(0, k + 1);
        assert(next.drop_last() =~= prev);
        if k > 0 {
            blocks.append(" ");
        }
        if k < filled {
            blocks.append("■");
        } else {
            blocks.append("░");
        }
        proof {
            if k > 0 {
                assert(blocks@ =~= join(prev, seq![' ']) + seq![' '] + next.last());
            } else {
                assert(blocks@ =~= next[0]);
            }
        }
        k = k + 1;
    }
    proof {
        assert(parts_all.subrange(0, total as int) =~= parts_all);
        assert forall|j: int| 0 <= j < parts_all.len() implies (#[trigger] parts_all[j]).len() == 1 by {}
        lemma_join_blocks_len(parts_all);
    }
    let ghost before = out@;
    out.append("[ ");
    out.append(blocks.as_str());
    out.append(" ]");
    let len: usize = if total == 0 {
        4
    } else {
        2 * total + 3
    };
    assert(out@ =~= before + progress_ribbon(filled as nat, total as nat));
    if len < 39 {
        push_spaces(out, 39 - len);
    }
    assert(out@ =~= before + pad_right(progress_ribbon(filled as nat, total as nat), 39));
}

/// Appends a count right-aligned in two columns.
fn push_dec_right2(out: &mut String, n: u64)
    ensures
        final(out)@ == old(out)@ + dec_right2(n as nat),
{
    if n < 10 {
        out.append(" ");
        proof {
            reveal_strlit(" ");
        }
        push_dec(out, n);
        assert(out@ =~= old(out)@ + dec_right2(n as nat));
    } else {
        push_dec(out, n);
    }
}

/// The standard and verbose lines shown while a revolution is being
/// decoded: at its start (`found` is `None`) all blocks are empty, then
/// each decoded sector fills one more block.
pub fn revolution_progress_lines(track: u8, head: u8, bitrate: u16, expected_count: u8, found: Option<usize>) -> (r: (String, String))
    ensures
        r.0@ == progress_standard_line(track, head, bitrate, expected_count, match found { Some(f) => Some(f as nat), None => None }),
        r.1@ == progress_verbose_line(track, head, bitrate, expected_count, match found { Some(f) => Some(f as nat), None => None }),
{
    let ghost fo: Option<nat> = match found {
        Some(f) => Some(f as nat),
        None => None,
    };
    let filled: usize = match found {
        Some(f) => if f < expected_count as usize {
            f
        } else {
            expected_count as usize
        },
        None => 0,
    };
    let complete = found.is_some() && filled == expected_count as usize;
    let mut head_part = String::new();
    push_line_prefix(&mut head_part, track, head);
    push_dec(&mut head_part, bitrate as u64);
    head_part.append("k MFM ");
    push_progress_ribbon(&mut head_part, filled, expected_count as usize);
    head_part.append(" ");
    let mut std_line = head_part.clone();
    let mut verb_line = head_part;
    if complete {
        push_ratio(&mut std_line, expected_count as u64, expected_count as u64);
        std_line.append(" OK)");
        if expected_count == 9 {
            verb_line.append("(9/9 OK)  ");
        } else {
            push_ratio(&mut verb_line, expected_count as u64, expected_count as u64);
            verb_line.append(" OK)");
        }
    } else {
        std_line.append("(");
        push_dec_right2(&mut std_line, filled as u64);
        std_line.append("/");
        push_dec(&mut std_line, expected_count as u64);
        std_line.append(")");
        verb_line.append(" (");
        push_dec_right2(&mut verb_line, filled as u64);
        verb_line.append("/");
        push_dec(&mut verb_line, expected_count as u64);
        verb_line.append(")");
    }
    verb_line.append(" IL:--- Gap0:---- Q:--%");
    assert(std_line@ =~= progress_standard_line(track, head, bitrate, expected_count, fo));
    assert(verb_line@ =~= progress_verbose_line(track, head, bitrate, expected_count, fo));
    (std_line, verb_line)
}

/// Keeps the last `max` lines of a history.
pub fn keep_last_lines(log: &mut Vec<String>, max: usize)
    ensures
        old(log)@.len() > max ==> final(log)@ == old(log)@.subrange(old(log)@.len() - max, old(log)@.len() as int),
        old(log)@.len() <= max ==> final(log)@ == old(log)@,
{
    if log.len() > max {
        let excess = log.len() - max;
        let tail = log.split_off(excess);
        *log = tail;
    }
}

/// Whether a sector of this id and cylinder is already shown.
pub open spec fn shown(list: Seq<SectorInfo>, sec_id: u8, track: u8) -> bool {
    exists|k: int| 0 <= k < list.len() && #[trigger] list[k].sec_id == sec_id && list[k].track == track
}

/// Adds a decoded sector to the status panel list unless a sector with the
/// same id and cylinder is already there.
pub fn record_progress_sector(list: &mut Vec<SectorInfo>, sec: &DecodedSector)
    ensures
        shown(old(list)@, sec.sec_id, sec.cyl) ==> final(list)@ == old(list)@,
        !shown(old(list)@, sec.sec_id, sec.cyl) ==> final(list)@ == old(list)@.push(
            SectorInfo {
                track: sec.cyl,
                sec_id: sec.sec_id,
                size_code: sec.size_code,
                status_code: if sec.crc_ok { 0 } else { 1 },
                crc_ok: sec.crc_ok,
            },
        ),
{
    let mut k: usize = 0;
    while k < list.len()
        invariant
            k <= list@.len(),
            list@ == old(list)@,
            forall|j: int| 0 <= j < k ==> !(#[trigger] list@[j].sec_id == sec.sec_id && list@[j].track == sec.cyl),
        decreases list@.len() - k,
    {
        if list[k].sec_id == sec.sec_id && list[k].track == sec.cyl {
            return;
        }
        k = k + 1;
    }
    list.push(
        SectorInfo {
            track: sec.cyl,
            sec_id: sec.sec_id,
            size_code: sec.size_code,
            status_code: if sec.crc_ok {
                0
            } else {
                1
            },
            crc_ok: sec.crc_ok,
        },
    );
}

/// Whether the first sync of the track lies at cell `p`: the Amiga sync
/// longword, or three A1 sync words for IBM formats.
pub open spec fn sync_at(bits: Seq<bool>, p: int, amiga: bool) -> bool {
    if amiga {
        p + 32 <= bits.len() && cells_u32(bits, p) == 0x4489_4489u32
    } else {
        p + 48 <= bits.len() && mfm_sync_at(bits, p)
    }
}

/// The first cell where a sync starts, if any.
pub open spec fn first_sync(bits: Seq<bool>, amiga: bool) -> Option<int> {
    if exists|p: int| 0 <= p && #[trigger] sync_at(bits, p, amiga) {
        Some(choose|p: int| 0 <= p && sync_at(bits, p, amiga) && forall|q: int| 0 <= q < p ==> !#[trigger] sync_at(bits, q, amiga))
    } else {
        None
    }
}

/// Microseconds from the index to cell `b` at `clock` sample ticks per
/// cell (72 ticks per µs), rounded to nearest, saturated to 32 bits.
pub open spec fn cells_to_us(b: int, clock: u32) -> int {
    let v = (2 * (b * clock) + 72) / 144;
    if v > u32::MAX { u32::MAX as int } else { v }
}

/// Gap0 of a track: the time from the index to the first sync, kept only
/// inside the plausible window of the bit rate.
pub open spec fn gap0_spec(bits: Seq<bool>, clock: u32, bitrate: u16, amiga: bool) -> Option<u32> {
    match first_sync(bits, amiga) {
        Some(p) => {
            let us = cells_to_us(p, clock);
            if gap0_window(bitrate).0 <= us <= gap0_window(bitrate).1 {
                Some(us as u32)
            } else {
                None
            }
        },
        None => None,
    }
}

fn cells_to_us_exec(b: usize, clock: u32) -> (r: u32)
    ensures
        r == cells_to_us(b as int, clock),
{
    assert(b * clock <= 0xFFFF_FFFF_FFFF_FFFF * 0xFFFF_FFFF) by (nonlinear_arith)
        requires
            b <= 0xFFFF_FFFF_FFFF_FFFF,
            clock <= 0xFFFF_FFFF,
    ;
    let p: u128 = b as u128 * clock as u128;
    assert(p == b * clock);
    let v: u128 = (2 * p + 72) / 144;
    assert(v == (2 * (b * clock) + 72) / 144);
    if v > u32::MAX as u128 {
        u32::MAX
    } else {
        v as u32
    }
}

/// Measures Gap0 (see `gap0_spec`) on the cells recovered from the index on.
#[verifier::rlimit(40)]
pub fn measure_gap0(bits: &[bool], clock: u32, bitrate: u16, amiga: bool) -> (r: Option<u32>)
    ensures
        r == gap0_spec(bits@, clock, bitrate, amiga),
{
    let n = bits.len();
    let width: usize = if amiga {
        32
    } else {
        48
    };
    let mut p: usize = 0;
    while p <= n && n - p >= width
        invariant
            n == bits@.len(),
            width == (if amiga { 32usize } else { 48usize }),
            forall|q: int| 0 <= q < p ==> !#[trigger] sync_at(bits@, q, amiga),
        decreases n - p,
    {
        let hit = if amiga {
            extract_u32_from_bits(bits, p) == 0x4489_4489u32
        } else {
            mfm_sync_at_cells(bits, p)
        };
        if hit {
            assert(sync_at(bits@, p as int, amiga));
            let ghost pi = p as int;
            assert(exists|q: int| 0 <= q && #[trigger] sync_at(bits@, q, amiga));
            proof {
                let c = choose|q: int| 0 <= q && sync_at(bits@, q, amiga) && forall|r: int| 0 <= r < q ==> !#[trigger] sync_at(bits@, r, amiga);
                assert(0 <= pi && sync_at(bits@, pi, amiga) && forall|r: int| 0 <= r < pi ==> !#[trigger] sync_at(bits@, r, amiga));
                if c < pi {
                    assert(!sync_at(bits@, c, amiga));
                } else if c > pi {
                    assert(!sync_at(bits@, pi, amiga));
                }
                assert(c == pi);
            }
            let us = cells_to_us_exec(p, clock);
            return get_valid_gap0(bitrate, us);
        }
        p = p + 1;
    }
    assert forall|q: int| 0 <= q implies !#[trigger] sync_at(bits@, q, amiga) by {
        if q >= p {
            assert(q + width > bits@.len());
        }
    }
    None
}

/// Number of sectors read good on the sought track, as a byte.
pub open spec fn pass_ok_count(s: Seq<DecodedSector>, target: u8) -> u8 {
    (crate::stats::on_track_count(s, target) % 256) as u8
}

/// Whether a pass is perfect: sectors known and present, no CRC error,
/// nothing off track, at least the expected count good, read on the
/// sought cylinder.
pub open spec fn pass_is_ok(d: TrackAnalysisResult, ok_count: u8, detected: u8, target: u8) -> bool {
    d.sectors_known && d.sectors@.len() > 0 && d.crc_err_count == 0 && d.off_track_count == 0 && ok_count
        >= d.sector_count && detected == target
}

/// The good count and the verdict of a pass (see `pass_ok_count`,
/// `pass_is_ok`).
pub fn pass_verdict(d: &TrackAnalysisResult, target: u8, detected: u8) -> (r: (u8, bool))
    requires
        d.sectors@.len() <= u32::MAX,
    ensures
        r.0 == pass_ok_count(d.sectors@, target),
        r.1 == pass_is_ok(*d, r.0, detected, target),
{
    let counts = crate::stats::count_track_sectors(d.sectors.as_slice(), target);
    let ok: u8 = (counts.on_track % 256) as u8;
    let is_ok = d.sectors_known && d.sectors.len() > 0 && d.crc_err_count == 0 && d.off_track_count == 0
        && ok >= d.sector_count && detected == target;
    (ok, is_ok)
}
} // verus!
