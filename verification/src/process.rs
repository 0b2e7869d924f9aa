//! Folding a finished track read into the worker's state: the sectors are
//! recounted against the sought track, the pass is recorded for its head,
//! the two history lines are added, and the radar's audio event is chosen.
use vstd::prelude::*;
use vstd::string::*;
use crate::audio::{active_pass, audio_event_for, evaluate_alignment_audio_event, AudioEvent};
use crate::control::{copy_lines, DriveFlags, DriveState};
use crate::diag::{
    build_standard_pass_line, build_verbose_pass_line, data_line, no_data_line,
    progress_standard_line, progress_verbose_line, record_progress_sector,
    revolution_progress_lines, shown,
    pass_expected_ids, pass_has_data, pass_interleave_text, pass_ok_count, quality_text,
    standard_line_spec, verbose_line_spec, TrackAnalysisResult,
};
use crate::drive::{gap0_text, SectorInfo};
use crate::heads::{DiagnosticPass, HeadSelection};
use crate::sectors::DecodedSector;
use crate::stats::{
    both_details_text, both_mode_counts, both_off_track, count_track_sectors, crc_error_count,
    detected_track_id, expected_per_head, head_counts, majority_cylinder, off_track_count,
    off_track_details, off_track_details_text, on_track_count,
};

verus! {

/// Sectors good on the sought track: recounted when there are sectors.
pub open spec fn eff_on(d: TrackAnalysisResult, t: u8) -> u32 {
    if d.sectors@.len() > 0 {
        on_track_count(d.sectors@, t) as u32
    } else {
        d.on_track_count
    }
}

/// Sectors from other cylinders: recounted when there are sectors.
pub open spec fn eff_off(d: TrackAnalysisResult, t: u8) -> u32 {
    if d.sectors@.len() > 0 {
        off_track_count(d.sectors@, t) as u32
    } else {
        d.off_track_count
    }
}

/// Sectors with a bad CRC: recounted when there are sectors.
pub open spec fn eff_crc(d: TrackAnalysisResult, t: u8) -> u32 {
    if d.sectors@.len() > 0 {
        crc_error_count(d.sectors@) as u32
    } else {
        d.crc_err_count
    }
}

/// The off-track text: redone when there are sectors.
pub open spec fn eff_details(d: TrackAnalysisResult, t: u8) -> Seq<char> {
    if d.sectors@.len() > 0 {
        off_track_details_text(d.sectors@, t)
    } else {
        d.off_track_details@
    }
}

/// `e` is `d` with its counts and off-track text redone against `t`.
pub open spec fn recounted(e: TrackAnalysisResult, d: TrackAnalysisResult, t: u8) -> bool {
    &&& e.has_disk == d.has_disk
    &&& e.bitrate == d.bitrate
    &&& e.sector_count == d.sector_count
    &&& e.sectors_known == d.sectors_known
    &&& e.sectors@ == d.sectors@
    &&& e.on_track_count == eff_on(d, t)
    &&& e.off_track_count == eff_off(d, t)
    &&& e.off_track_details@ == eff_details(d, t)
    &&& e.crc_err_count == eff_crc(d, t)
    &&& e.index_timestamps@ == d.index_timestamps@
    &&& e.instant_rpms@ == d.instant_rpms@
    &&& e.gap0_us == d.gap0_us
    &&& e.pll_quality_pct == d.pll_quality_pct
    &&& e.interleave == d.interleave
    &&& e.read_status == d.read_status
}

/// The standard line of a pass of `d` on track `t`, counted against `t`.
pub open spec fn pass_standard_line(t: u8, head: u8, d: TrackAnalysisResult) -> Seq<char> {
    if !pass_has_data(d.has_disk, d.sectors_known, d.sectors@) {
        no_data_line(t, head)
    } else {
        data_line(
            t,
            head,
            d.bitrate,
            d.sectors@,
            d.sector_count,
            eff_off(d, t),
            eff_details(d, t),
            eff_crc(d, t),
            false,
        )
    }
}

/// The verbose line of a pass of `d` on track `t`, counted against `t`.
pub open spec fn pass_verbose_line(t: u8, head: u8, d: TrackAnalysisResult) -> Seq<char> {
    if !pass_has_data(d.has_disk, d.sectors_known, d.sectors@) {
        no_data_line(t, head) + " IL:--- Gap0:---- Q:--%"@
    } else {
        let ids = pass_expected_ids(d.sectors@, d.bitrate, d.sector_count);
        data_line(
            t,
            head,
            d.bitrate,
            d.sectors@,
            d.sector_count,
            eff_off(d, t),
            eff_details(d, t),
            eff_crc(d, t),
            true,
        ) + " "@ + "IL:"@ + pass_interleave_text(d, ids.len() as u8) + " "@ + gap0_text(d.gap0_us)
            + " "@ + quality_text(d.pll_quality_pct)
    }
}

/// Whether a pass of `d` on track `t` is perfect: sectors known and
/// present, no CRC error, nothing off track, the expected count good, read
/// on the sought cylinder.
pub open spec fn pass_perfect(d: TrackAnalysisResult, t: u8) -> bool {
    &&& d.sectors_known
    &&& d.sectors@.len() > 0
    &&& eff_crc(d, t) == 0
    &&& eff_off(d, t) == 0
    &&& pass_ok_count(d.sectors@, t) >= d.sector_count
    &&& majority_cylinder(d.sectors@, t) == t as int
}

/// The read quality recorded for a pass: the PLL's when measured, else 99
/// for a perfect pass, the rounded alignment when the sector count is
/// known, else 50.
pub open spec fn pass_quality(d: TrackAnalysisResult, t: u8, alignment_quality: u8) -> u8 {
    match d.pll_quality_pct {
        Some(q) => q,
        None => if pass_perfect(d, t) {
            99
        } else if d.sector_count > 0 && d.sectors_known {
            alignment_quality
        } else {
            50
        },
    }
}

/// `p` records the pass of `d` read by `head` while track `t` was sought.
pub open spec fn records_pass(
    p: DiagnosticPass,
    d: TrackAnalysisResult,
    t: u8,
    head: u8,
    alignment_quality: u8,
) -> bool {
    let ok = pass_ok_count(d.sectors@, t);
    &&& p.track == t
    &&& p.track_id as int == majority_cylinder(d.sectors@, t)
    &&& p.head == head
    &&& p.bitrate == d.bitrate
    &&& p.line_standard@ == pass_standard_line(t, head, d)
    &&& p.line_verbose@ == pass_verbose_line(t, head, d)
    &&& p.ok_count == ok
    &&& p.valid_sectors == ok
    &&& p.expected_count == d.sector_count
    &&& p.crc_errors == (if eff_crc(d, t) > 255 {
        255
    } else {
        eff_crc(d, t)
    })
    &&& p.quality_pct == pass_quality(d, t, alignment_quality)
    &&& p.is_ok == pass_perfect(d, t)
}

/// The shown form of a decoded sector.
pub open spec fn sector_info_of(s: DecodedSector) -> SectorInfo {
    SectorInfo {
        track: s.cyl,
        sec_id: s.sec_id,
        size_code: s.size_code,
        status_code: if s.crc_ok {
            0
        } else {
            1
        },
        crc_ok: s.crc_ok,
    }
}

/// The texts of a list of lines.
pub open spec fn texts(v: Seq<String>) -> Seq<Seq<char>> {
    v.map_values(|s: String| s@)
}

/// A history after a line was added (or replaced the unfinished last
/// one), keeping the last 50.
pub open spec fn history_after(log: Seq<Seq<char>>, line: Seq<char>, replace: bool) -> Seq<Seq<char>> {
    let l = if replace {
        log.update(log.len() - 1, line)
    } else {
        log.push(line)
    };
    if l.len() > 50 {
        l.subrange(l.len() - 50, l.len() as int)
    } else {
        l
    }
}

/// The combined counts of the two heads' passes (as `both_mode_counts`):
/// good sectors, sectors off track, the CRC-error count and the text.
pub open spec fn both_totals(h0: Option<DiagnosticPass>, h1: Option<DiagnosticPass>, fallback: u8) -> (
    nat,
    nat,
    nat,
    Seq<char>,
) {
    let per = expected_per_head(h0, h1, fallback);
    let c0 = head_counts(h0, per);
    let c1 = head_counts(h1, per);
    let total_ok = c0.0 + c1.0;
    let total_exp: nat = if c0.1 + c1.1 >= 1 {
        c0.1 + c1.1
    } else {
        1
    };
    let total_off = both_off_track(h0, h1, c0.2, c1.2);
    let crc: nat = if total_exp >= total_ok {
        (total_exp - total_ok) as nat
    } else {
        0
    };
    (total_ok, total_off, crc, both_details_text(h0, h1, total_off))
}

/// Copies a list of plain values.
fn copy_vec<T: Copy>(v: &Vec<T>) -> (r: Vec<T>)
    ensures
        r@ == v@,
{
    let mut out: Vec<T> = Vec::new();
    let mut i: usize = 0;
    while i < v.len()
        invariant
            i <= v.len(),
            out@ == v@.subrange(0, i as int),
        decreases v.len() - i,
    {
        out.push(v[i]);
        i = i + 1;
        assert(out@ =~= v@.subrange(0, i as int));
    }
    assert(v@.subrange(0, v.len() as int) =~= v@);
    out
}

/// The diagnostic with its counts and off-track text redone against `t`.
fn recount(d: &TrackAnalysisResult, t: u8) -> (e: TrackAnalysisResult)
    requires
        d.sectors@.len() <= u32::MAX,
    ensures
        recounted(e, *d, t),
{
    let interleave = match &d.interleave {
        Some(s) => Some(s.clone()),
        None => None,
    };
    let mut e = TrackAnalysisResult {
        has_disk: d.has_disk,
        bitrate: d.bitrate,
        sector_count: d.sector_count,
        sectors_known: d.sectors_known,
        sectors: copy_vec(&d.sectors),
        on_track_count: d.on_track_count,
        off_track_count: d.off_track_count,
        off_track_details: d.off_track_details.clone(),
        crc_err_count: d.crc_err_count,
        index_timestamps: copy_vec(&d.index_timestamps),
        instant_rpms: copy_vec(&d.instant_rpms),
        gap0_us: d.gap0_us,
        pll_quality_pct: d.pll_quality_pct,
        interleave,
        read_status: d.read_status,
    };
    if d.sectors.len() > 0 {
        let c = count_track_sectors(d.sectors.as_slice(), t);
        e.on_track_count = c.on_track;
        e.off_track_count = c.off_track;
        e.crc_err_count = c.crc_errors;
        e.off_track_details = off_track_details(d.sectors.as_slice(), t);
    }
    e
}

/// The shown forms of decoded sectors.
fn sector_infos(s: &Vec<DecodedSector>) -> (r: Vec<SectorInfo>)
    ensures
        r@ == s@.map_values(|x: DecodedSector| sector_info_of(x)),
{
    let mut out: Vec<SectorInfo> = Vec::new();
    let mut i: usize = 0;
    while i < s.len()
        invariant
            i <= s.len(),
            out@ == s@.subrange(0, i as int).map_values(|x: DecodedSector| sector_info_of(x)),
        decreases s.len() - i,
    {
        let x = s[i];
        out.push(
            SectorInfo {
                track: x.cyl,
                sec_id: x.sec_id,
                size_code: x.size_code,
                status_code: if x.crc_ok {
                    0
                } else {
                    1
                },
                crc_ok: x.crc_ok,
            },
        );
        i = i + 1;
        assert(out@ =~= s@.subrange(0, i as int).map_values(|x: DecodedSector| sector_info_of(x)));
    }
    assert(s@.subrange(0, s.len() as int) =~= s@);
    out
}

/// Adds a line to a history (replacing the unfinished last one when
/// asked) and keeps the last 50.
fn record_line(log: &mut Vec<String>, line: String, replace: bool)
    requires
        replace ==> old(log)@.len() > 0,
    ensures
        texts(final(log)@) == history_after(texts(old(log)@), line@, replace),
{
    let ghost line_text = line@;
    if replace {
        let n = log.len();
        log.set(n - 1, line);
    } else {
        log.push(line);
    }
    let ghost mid = log@;
    assert(texts(mid) =~= (if replace {
        texts(old(log)@).update(texts(old(log)@).len() - 1, line_text)
    } else {
        texts(old(log)@).push(line_text)
    }));
    crate::diag::keep_last_lines(log, 50);
    assert(mid.len() > 50 ==> texts(log@) =~= texts(mid).subrange(mid.len() - 50, mid.len() as int));
}

/// Folds a finished read of the track being sought into the state, and
/// returns the radar's audio event when the beep is on.
///
/// The sought track is the target (or the current track when the target
/// is 0). The sectors are recounted against it; the pass is recorded for
/// the current head; in both-heads mode the counts and off-track text are
/// those of the two heads together. The history lines are added (the
/// unfinished last ones replaced when a pass was in progress), 50 kept,
/// and the shown history follows the verbose switch.
/// `alignment_quality` is the rounded alignment percent of the recount
/// (good sectors against the expected count), which the caller computes.
pub fn process_track_diagnostic(
    status: &mut DriveState,
    diag: &TrackAnalysisResult,
    alignment_quality: u8,
) -> (event: Option<AudioEvent>)
    requires
        diag.sectors@.len() <= u32::MAX,
    ensures
        ({
            let f = old(status).flags;
            let t = if f.target_track > 0 {
                f.target_track
            } else {
                f.track
            };
            let head = f.head;
            let replace = f.in_progress_pass && old(status).sector_log_standard@.len() > 0 && old(
                status,
            ).sector_log_verbose@.len() > 0;
            let h0 = final(status).last_pass_h0;
            let h1 = final(status).last_pass_h1;
            let both = f.head_select == HeadSelection::Both;
            let totals = both_totals(h0, h1, diag.sector_count);
            &&& head == 0 ==> (h0 matches Some(p) && records_pass(
                p,
                *diag,
                t,
                head,
                alignment_quality,
            )) && h1 == old(status).last_pass_h1
            &&& head != 0 ==> (h1 matches Some(p) && records_pass(
                p,
                *diag,
                t,
                head,
                alignment_quality,
            )) && h0 == old(status).last_pass_h0
            &&& final(status).flags == (DriveFlags {
                target_track: t,
                track: t,
                trk0: t == 0,
                has_disk: diag.has_disk,
                bitrate: diag.bitrate,
                density: diag.bitrate == 500,
                sector_count: diag.sector_count,
                sectors_known: diag.sectors_known,
                on_track_count: if both {
                    totals.0 as u32
                } else {
                    eff_on(*diag, t)
                },
                off_track_count: if both {
                    totals.1 as u32
                } else {
                    eff_off(*diag, t)
                },
                crc_err_count: if both {
                    totals.2 as u32
                } else {
                    eff_crc(*diag, t)
                },
                read_status: diag.read_status,
                in_progress_pass: if replace {
                    false
                } else {
                    f.in_progress_pass
                },
                ..f
            })
            &&& final(status).off_track_details@ == (if both {
                totals.3
            } else {
                eff_details(*diag, t)
            })
            &&& final(status).sectors@ == diag.sectors@.map_values(
                |x: DecodedSector| sector_info_of(x),
            )
            &&& texts(final(status).sector_log_standard@) == history_after(
                texts(old(status).sector_log_standard@),
                pass_standard_line(t, head, *diag),
                replace,
            )
            &&& texts(final(status).sector_log_verbose@) == history_after(
                texts(old(status).sector_log_verbose@),
                pass_verbose_line(t, head, *diag),
                replace,
            )
            &&& final(status).sector_log@ == (if f.verbose_mode {
                final(status).sector_log_verbose@
            } else {
                final(status).sector_log_standard@
            })
            &&& event == (if f.beep_enabled {
                Some(audio_event_for(active_pass(f.head_select, head, h0, h1), t))
            } else {
                None
            })
        }),
        final(status).log_msg@ == old(status).log_msg@,
        final(status).rpm_display@ == old(status).rpm_display@,
        old(status).flags.tracks_in_range() ==> final(status).flags.tracks_in_range(),
{
    let f = status.flags;
    let t = if f.target_track > 0 {
        f.target_track
    } else {
        f.track
    };
    let head = f.head;
    let e = recount(diag, t);
    let detected = detected_track_id(e.sectors.as_slice(), t);
    let std_line = build_standard_pass_line(t, head, &e);
    let verb_line = build_verbose_pass_line(t, head, &e);
    assert(std_line@ == pass_standard_line(t, head, *diag));
    assert(verb_line@ == pass_verbose_line(t, head, *diag));
    let (ok, is_ok) = crate::diag::pass_verdict(&e, t, detected);
    let quality = match e.pll_quality_pct {
        Some(q) => q,
        None => if is_ok {
            99
        } else if e.sector_count > 0 && e.sectors_known {
            alignment_quality
        } else {
            50
        },
    };
    let crc_errors: u8 = if e.crc_err_count > 255 {
        255
    } else {
        e.crc_err_count as u8
    };
    let pass = DiagnosticPass {
        track: t,
        track_id: detected,
        head,
        bitrate: e.bitrate,
        line_standard: std_line.clone(),
        line_verbose: verb_line.clone(),
        ok_count: ok,
        valid_sectors: ok,
        expected_count: e.sector_count,
        crc_errors,
        quality_pct: quality,
        is_ok,
    };
    if head == 0 {
        status.last_pass_h0 = Some(pass);
    } else {
        status.last_pass_h1 = Some(pass);
    }
    status.sectors = sector_infos(&e.sectors);
    let mut on = e.on_track_count;
    let mut off = e.off_track_count;
    let mut crc = e.crc_err_count;
    let mut details = e.off_track_details;
    if f.head_select == HeadSelection::Both {
        let b = both_mode_counts(
            status.last_pass_h0.as_ref(),
            status.last_pass_h1.as_ref(),
            e.sector_count,
        );
        on = b.total_ok;
        off = b.total_off_track;
        crc = b.total_crc_err;
        details = b.off_track_details;
    }
    let replace = f.in_progress_pass && status.sector_log_standard.len() > 0
        && status.sector_log_verbose.len() > 0;
    record_line(&mut status.sector_log_standard, std_line, replace);
    record_line(&mut status.sector_log_verbose, verb_line, replace);
    status.sector_log = if f.verbose_mode {
        copy_lines(&status.sector_log_verbose)
    } else {
        copy_lines(&status.sector_log_standard)
    };
    status.off_track_details = details;
    status.flags = DriveFlags {
        target_track: t,
        track: t,
        trk0: t == 0,
        has_disk: e.has_disk,
        bitrate: e.bitrate,
        density: e.bitrate == 500,
        sector_count: e.sector_count,
        sectors_known: e.sectors_known,
        on_track_count: on,
        off_track_count: off,
        crc_err_count: crc,
        read_status: e.read_status,
        in_progress_pass: if replace {
            false
        } else {
            f.in_progress_pass
        },
        ..f
    };
    if f.beep_enabled {
        evaluate_alignment_audio_event(
            f.head_select,
            t,
            head,
            status.last_pass_h0.as_ref(),
            status.last_pass_h1.as_ref(),
            e.sector_count,
        )
    } else {
        None
    }
}


/// A history whose unfinished last line is replaced (an empty history
/// stays empty).
pub open spec fn history_replaced(log: Seq<Seq<char>>, line: Seq<char>) -> Seq<Seq<char>> {
    if log.len() > 0 {
        log.update(log.len() - 1, line)
    } else {
        log
    }
}

fn replace_last_line(log: &mut Vec<String>, line: String)
    ensures
        texts(final(log)@) == history_replaced(texts(old(log)@), line@),
{
    let n = log.len();
    if n > 0 {
        log.set(n - 1, line);
        assert(texts(log@) =~= texts(old(log)@).update(n - 1, line@));
    }
}

/// At the start of a revolution's decoding: the pass in progress is on
/// `track` and `head` at `bitrate` with `expected_count` sectors, none
/// shown yet; an empty ribbon line opens the history (50 kept), and the
/// shown history follows the verbose switch.
pub fn start_revolution_progress(
    status: &mut DriveState,
    track: u8,
    head: u8,
    bitrate: u16,
    expected_count: u8,
)
    ensures
        final(status).flags == (DriveFlags {
            has_disk: true,
            bitrate,
            density: bitrate == 500,
            sector_count: expected_count,
            sectors_known: true,
            track,
            head,
            in_progress_pass: true,
            ..old(status).flags
        }),
        final(status).sectors@.len() == 0,
        texts(final(status).sector_log_standard@) == history_after(
            texts(old(status).sector_log_standard@),
            progress_standard_line(track, head, bitrate, expected_count, None),
            false,
        ),
        texts(final(status).sector_log_verbose@) == history_after(
            texts(old(status).sector_log_verbose@),
            progress_verbose_line(track, head, bitrate, expected_count, None),
            false,
        ),
        final(status).sector_log@ == (if old(status).flags.verbose_mode {
            final(status).sector_log_verbose@
        } else {
            final(status).sector_log_standard@
        }),
        final(status).last_pass_h0 == old(status).last_pass_h0,
        final(status).last_pass_h1 == old(status).last_pass_h1,
        final(status).off_track_details@ == old(status).off_track_details@,
        final(status).log_msg@ == old(status).log_msg@,
        final(status).rpm_display@ == old(status).rpm_display@,
{
    let f = status.flags;
    status.flags = DriveFlags {
        has_disk: true,
        bitrate,
        density: bitrate == 500,
        sector_count: expected_count,
        sectors_known: true,
        track,
        head,
        in_progress_pass: true,
        ..f
    };
    status.sectors.clear();
    let (std_line, verb_line) = revolution_progress_lines(track, head, bitrate, expected_count, None);
    record_line(&mut status.sector_log_standard, std_line, false);
    record_line(&mut status.sector_log_verbose, verb_line, false);
    status.sector_log = if f.verbose_mode {
        copy_lines(&status.sector_log_verbose)
    } else {
        copy_lines(&status.sector_log_standard)
    };
}

/// As each sector of the revolution is decoded: the sector joins the
/// shown ones (unless one with its id and cylinder is there), and the
/// last history lines show `sectors_found` filled blocks.
pub fn update_revolution_progress(
    status: &mut DriveState,
    track: u8,
    head: u8,
    bitrate: u16,
    expected_count: u8,
    sectors_found: usize,
    last_sector: Option<&DecodedSector>,
)
    ensures
        final(status).flags == old(status).flags,
        match last_sector {
            Some(sec) => if shown(old(status).sectors@, sec.sec_id, sec.cyl) {
                final(status).sectors@ == old(status).sectors@
            } else {
                final(status).sectors@ == old(status).sectors@.push(sector_info_of(*sec))
            },
            None => final(status).sectors@ == old(status).sectors@,
        },
        texts(final(status).sector_log_standard@) == history_replaced(
            texts(old(status).sector_log_standard@),
            progress_standard_line(track, head, bitrate, expected_count, Some(sectors_found as nat)),
        ),
        texts(final(status).sector_log_verbose@) == history_replaced(
            texts(old(status).sector_log_verbose@),
            progress_verbose_line(track, head, bitrate, expected_count, Some(sectors_found as nat)),
        ),
        final(status).sector_log@ == (if old(status).flags.verbose_mode {
            final(status).sector_log_verbose@
        } else {
            final(status).sector_log_standard@
        }),
        final(status).last_pass_h0 == old(status).last_pass_h0,
        final(status).last_pass_h1 == old(status).last_pass_h1,
        final(status).off_track_details@ == old(status).off_track_details@,
        final(status).log_msg@ == old(status).log_msg@,
        final(status).rpm_display@ == old(status).rpm_display@,
{
    if let Some(sec) = last_sector {
        record_progress_sector(&mut status.sectors, sec);
    }
    let (std_line, verb_line) = revolution_progress_lines(
        track,
        head,
        bitrate,
        expected_count,
        Some(sectors_found),
    );
    replace_last_line(&mut status.sector_log_standard, std_line);
    replace_last_line(&mut status.sector_log_verbose, verb_line);
    status.sector_log = if status.flags.verbose_mode {
        copy_lines(&status.sector_log_verbose)
    } else {
        copy_lines(&status.sector_log_standard)
    };
}

/// Whether a read gave nothing to decode: under 100 bytes, under 100 flux
/// intervals, or no index pulse.
pub fn read_is_blank(data_len: usize, flux_len: usize, index_count: usize) -> (r: bool)
    ensures
        r == (data_len < 100 || flux_len < 100 || index_count == 0),
{
    data_len < 100 || flux_len < 100 || index_count == 0
}

/// The PLL clock, in 72 MHz ticks per cell, of a data rate: 72 at 500
/// kbps, 120 at 300 kbps, else 144.
pub fn pll_clock_for_bitrate(bitrate: u16) -> (r: u32)
    ensures
        r == (if bitrate == 500 {
            72u32
        } else if bitrate == 300 {
            120u32
        } else {
            144u32
        }),
{
    if bitrate == 500 {
        72
    } else if bitrate == 300 {
        120
    } else {
        144
    }
}

impl DriveState {
    /// After a decode: an auto-detecting profile takes the detected one.
    pub fn adopt_detected_format(&mut self, detected: crate::protocol::DiskFormat)
        ensures
            final(self).flags == (if old(self).flags.disk_format
                == crate::protocol::DiskFormat::AutoDetect && detected
                != crate::protocol::DiskFormat::AutoDetect {
                DriveFlags { disk_format: detected, ..old(self).flags }
            } else {
                old(self).flags
            }),
            final(self).log_msg@ == old(self).log_msg@,
            final(self).rpm_display@ == old(self).rpm_display@,
            crate::control::keeps(*old(self), *final(self), false, false),
    {
        if self.flags.disk_format == crate::protocol::DiskFormat::AutoDetect && detected
            != crate::protocol::DiskFormat::AutoDetect {
            let f = self.flags;
            self.flags = DriveFlags { disk_format: detected, ..f };
        }
    }
}


/// Law: a history never holds more than 50 lines, and its last line is
/// the one just added.
pub proof fn lemma_history_bounded(log: Seq<Seq<char>>, line: Seq<char>, replace: bool)
    requires
        replace ==> log.len() > 0,
    ensures
        history_after(log, line, replace).len() <= 50,
        history_after(log, line, replace).len() > 0,
        history_after(log, line, replace).last() == line,
{
}

/// Law: when a pass in progress opened the history with its progress line,
/// the finished pass's line takes that line's place: the history is as if
/// the finished line alone had been added.
pub proof fn lemma_finished_line_replaces_progress(
    log: Seq<Seq<char>>,
    progress: Seq<char>,
    finished: Seq<char>,
)
    ensures
        history_after(history_after(log, progress, false), finished, true) == history_after(
            log,
            finished,
            false,
        ),
{
    let l1 = history_after(log, progress, false);
    let lhs = history_after(l1, finished, true);
    let rhs = history_after(log, finished, false);
    assert(lhs =~= rhs);
}

} // verus!
