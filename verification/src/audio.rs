//! The alignment "radar": the tone pitch for a read quality and the audio
//! event a finished pass calls for.
use vstd::prelude::*;
use crate::heads::{DiagnosticPass, HeadSelection};

verus! {

/// Audio feedback of the alignment radar.
#[derive(Debug, Clone, Copy, PartialEq, Eq, Structural)]
pub enum AudioEvent {
    /// Continuous tone whose pitch follows the read quality.
    AlignmentTone { pitch_hz: u32 },
    /// Pulsed low buzz: the head reads another track than the one sought.
    TrackMismatch,
    /// Low warning hum: nothing decoded.
    ZeroDecodedSectors,
    /// Older name of the alignment tone.
    PerfectAlignment { pitch_hz: u32 },
    /// Older name of the off-track warning.
    OffTrackOrCrcError,
}

/// `a / b` rounded to nearest, halves up (`b > 0`).
pub open spec fn div_round(a: int, b: int) -> int {
    (2 * a + b) / (2 * b)
}

/// Pitch (Hz) for a quality percentage (capped at 100): 1500..=2200 Hz from
/// 95 %, 600..=1400 Hz from 70 %, 250..=500 Hz below, each linear in the
/// quality and rounded to the nearest hertz.
pub open spec fn radar_pitch(quality_pct: u8) -> int {
    let q: int = if quality_pct > 100 { 100 } else { quality_pct as int };
    if q >= 95 {
        1500 + 140 * (q - 95)
    } else if q >= 70 {
        600 + div_round((q - 70) * 100, 3)
    } else {
        250 + div_round(q * 250, 69)
    }
}

/// Pitch of the radar tone for a quality percentage (see `radar_pitch`).
pub fn calculate_radar_pitch(quality_pct: u8) -> (r: u32)
    ensures
        r == radar_pitch(quality_pct),
{
    let q: u32 = if quality_pct > 100 {
        100
    } else {
        quality_pct as u32
    };
    if q >= 95 {
        1500 + 140 * (q - 95)
    } else if q >= 70 {
        600 + (2 * ((q - 70) * 100) + 3) / 6
    } else {
        250 + (2 * (q * 250) + 69) / 138
    }
}

/// The radar pitch rises with quality, stays within 250..=2200 Hz, and each
/// band keeps to its range.
pub proof fn lemma_radar_pitch_bands(q: u8, r: u8)
    requires
        q <= r,
    ensures
        radar_pitch(q) <= radar_pitch(r),
        250 <= radar_pitch(q) <= 2200,
        q >= 95 ==> 1500 <= radar_pitch(q),
        70 <= q < 95 ==> 600 <= radar_pitch(q) <= 1400,
        q < 70 ==> radar_pitch(q) <= 500,
{
    let qa: int = if q > 100 { 100 } else { q as int };
    let ra: int = if r > 100 { 100 } else { r as int };
    if qa < 70 && ra < 70 {
        assert(div_round(qa * 250, 69) <= div_round(ra * 250, 69)) by (nonlinear_arith)
            requires
                0 <= qa <= ra,
        ;
    }
    if 70 <= qa && ra < 95 {
        assert(div_round((qa - 70) * 100, 3) <= div_round((ra - 70) * 100, 3)) by (nonlinear_arith)
            requires
                70 <= qa <= ra,
        ;
    }
    assert(qa < 70 ==> 0 <= div_round(qa * 250, 69) <= 250) by (nonlinear_arith)
        requires
            0 <= qa <= 100,
    ;
    assert(70 <= qa < 95 ==> 0 <= div_round((qa - 70) * 100, 3) <= 800) by (nonlinear_arith)
        requires
            0 <= qa <= 100,
    ;
    assert(ra < 70 ==> 0 <= div_round(ra * 250, 69) <= 250) by (nonlinear_arith)
        requires
            0 <= ra <= 100,
    ;
    assert(70 <= ra < 95 ==> 0 <= div_round((ra - 70) * 100, 3) <= 800) by (nonlinear_arith)
        requires
            0 <= ra <= 100,
    ;
}

/// The pass the radar listens to: the selected head's, or in both-heads mode
/// the one of the head just read.
pub open spec fn active_pass(
    head_select: HeadSelection,
    active_head: u8,
    pass_h0: Option<DiagnosticPass>,
    pass_h1: Option<DiagnosticPass>,
) -> Option<DiagnosticPass> {
    match head_select {
        HeadSelection::Head0 => pass_h0,
        HeadSelection::Head1 => pass_h1,
        HeadSelection::Both => if active_head == 0 {
            pass_h0
        } else {
            pass_h1
        },
    }
}

/// The audio event of a pass: no pass means nothing decoded; a pass on
/// another track is a mismatch; a pass with nothing at all decoded hums;
/// otherwise the tone follows the pass quality.
pub open spec fn audio_event_for(p: Option<DiagnosticPass>, target_track: u8) -> AudioEvent {
    match p {
        None => AudioEvent::ZeroDecodedSectors,
        Some(p) => if p.track_id != target_track || p.track != target_track {
            AudioEvent::TrackMismatch
        } else if p.valid_sectors == 0 && p.ok_count == 0 && p.crc_errors == 0 {
            AudioEvent::ZeroDecodedSectors
        } else {
            AudioEvent::AlignmentTone { pitch_hz: radar_pitch(p.quality_pct) as u32 }
        },
    }
}

/// Law: a pass read off the sought track, by the cylinder found in its
/// sector headers or by the track it was recorded for, always gives the
/// mismatch buzz, never the alignment tone; the tone comes only from a pass
/// on the sought track, at the pitch of its quality.
pub proof fn lemma_off_track_pass_is_mismatch(p: DiagnosticPass, target_track: u8)
    ensures
        (p.track_id != target_track || p.track != target_track) ==> audio_event_for(Some(p), target_track)
            == AudioEvent::TrackMismatch,
        audio_event_for(Some(p), target_track) is AlignmentTone ==> {
            &&& p.track_id == target_track
            &&& p.track == target_track
            &&& audio_event_for(Some(p), target_track) == AudioEvent::AlignmentTone {
                pitch_hz: radar_pitch(p.quality_pct) as u32,
            }
        },
        (p.track_id == target_track && p.track == target_track) ==> audio_event_for(Some(p), target_track) == (if p.valid_sectors
            == 0 && p.ok_count == 0 && p.crc_errors == 0 {
            AudioEvent::ZeroDecodedSectors
        } else {
            AudioEvent::AlignmentTone { pitch_hz: radar_pitch(p.quality_pct) as u32 }
        }),
        audio_event_for(None, target_track) == AudioEvent::ZeroDecodedSectors,
{
}

/// Law: the radar listens to head 0's pass in head-0 mode and to head 1's
/// in head-1 mode, whatever the other head gave; in both-heads mode, to the
/// pass of the head just read.
pub proof fn lemma_radar_pass_choice(active_head: u8, p0: Option<DiagnosticPass>, p1: Option<DiagnosticPass>)
    ensures
        active_pass(HeadSelection::Head0, active_head, p0, p1) == p0,
        active_pass(HeadSelection::Head1, active_head, p0, p1) == p1,
        active_pass(HeadSelection::Both, active_head, p0, p1) == (if active_head == 0 {
            p0
        } else {
            p1
        }),
{
}

/// The radar's audio event after a pass (always one; see `audio_event_for`).
pub fn evaluate_alignment_audio_event(
    head_select: HeadSelection,
    target_track: u8,
    active_head: u8,
    pass_h0: Option<&DiagnosticPass>,
    pass_h1: Option<&DiagnosticPass>,
    fallback_expected: u8,
) -> (r: Option<AudioEvent>)
    ensures
        r == Some(
            audio_event_for(
                active_pass(
                    head_select,
                    active_head,
                    match pass_h0 {
                        Some(p) => Some(*p),
                        None => None,
                    },
                    match pass_h1 {
                        Some(p) => Some(*p),
                        None => None,
                    },
                ),
                target_track,
            ),
        ),
        ({
            let act = active_pass(
                head_select,
                active_head,
                match pass_h0 {
                    Some(p) => Some(*p),
                    None => None,
                },
                match pass_h1 {
                    Some(p) => Some(*p),
                    None => None,
                },
            );
            &&& act is None ==> r == Some(AudioEvent::ZeroDecodedSectors)
            &&& (act is Some && (act->0.track_id != target_track || act->0.track != target_track)) ==> r == Some(
                AudioEvent::TrackMismatch,
            )
        }),
{
    let active = match head_select {
        HeadSelection::Head0 => pass_h0,
        HeadSelection::Head1 => pass_h1,
        HeadSelection::Both => {
            if active_head == 0 {
                pass_h0
            } else {
                pass_h1
            }
        },
    };
    let p = match active {
        Some(p) => p,
        None => {
            return Some(AudioEvent::ZeroDecodedSectors);
        },
    };
    if p.track_id != target_track || p.track != target_track {
        return Some(AudioEvent::TrackMismatch);
    }
    if p.valid_sectors == 0 && p.ok_count == 0 && p.crc_errors == 0 {
        return Some(AudioEvent::ZeroDecodedSectors);
    }
    let pitch_hz = calculate_radar_pitch(p.quality_pct);
    Some(AudioEvent::AlignmentTone { pitch_hz })
}

} // verus!
