//! The status snapshot: an aggregate, point-in-time view of playback,
//! with every field independently optional, and its display rendering.
//!
//! Times are carried as whole milliseconds; the player's fractional
//! seconds are truncated to that precision when a response is decoded.

use vstd::prelude::*;
use vstd::string::StringExecFns;

use crate::text::{
    is_digit_char, push_pad2, push_u64_decimal, spec_pad2, push_i64_decimal, spec_idec, spec_udec,
};

verus! {

/// One playback status snapshot.  Any field may be absent: a property
/// read can fail, return null, or not exist for the current media.
#[derive(Debug, PartialEq, Eq)]
pub struct MpvStatus {
    /// Title of the current track.
    pub title: Option<String>,
    /// Elapsed position, in milliseconds.
    pub position_ms: Option<u64>,
    /// Total duration, in milliseconds.
    pub duration_ms: Option<u64>,
    /// One-based position in the playlist.
    pub playlist_pos: Option<i64>,
    /// Number of playlist entries.
    pub playlist_count: Option<i64>,
    /// Album name from the track metadata.
    pub album: Option<String>,
    /// Playlist title from the track metadata.
    pub playlist_title: Option<String>,
}

/// The mathematical value of a snapshot.
#[verifier::ext_equal]
pub struct StatusVal {
    pub title: Option<Seq<char>>,
    pub position_ms: Option<u64>,
    pub duration_ms: Option<u64>,
    pub playlist_pos: Option<i64>,
    pub playlist_count: Option<i64>,
    pub album: Option<Seq<char>>,
    pub playlist_title: Option<Seq<char>>,
}

impl View for MpvStatus {
    type V = StatusVal;

    open spec fn view(&self) -> StatusVal {
        StatusVal {
            title: match self.title {
                Some(t) => Some(t@),
                None => None,
            },
            position_ms: self.position_ms,
            duration_ms: self.duration_ms,
            playlist_pos: self.playlist_pos,
            playlist_count: self.playlist_count,
            album: match self.album {
                Some(a) => Some(a@),
                None => None,
            },
            playlist_title: match self.playlist_title {
                Some(p) => Some(p@),
                None => None,
            },
        }
    }
}

/// Display text of an optional time: `MM:SS` with both fields
/// zero-padded to at least two digits — minutes are whole minutes,
/// seconds the remainder rounded to the nearest second — or `--:--`
/// when the time is absent.
pub open spec fn spec_format_time(ms: Option<u64>) -> Seq<char> {
    match ms {
        None => seq!['-', '-', ':', '-', '-'],
        Some(v) => spec_pad2((v / 60000) as nat) + seq![':'] + spec_pad2(
            (((v % 60000) + 500) / 1000) as nat,
        ),
    }
}

/// Format an optional time for display.
pub fn format_time(ms: Option<u64>) -> (r: String)
    ensures
        r@ == spec_format_time(ms),
{
    match ms {
        None => {
            proof {
                reveal_strlit("--:--");
            }
            let r = String::from_str("--:--");
            proof {
                assert(r@ =~= seq!['-', '-', ':', '-', '-']);
            }
            r
        },
        Some(v) => {
            proof {
                reveal_strlit(":");
            }
            let mut out = String::new();
            push_pad2(v / 60000, &mut out);
            out.append(":");
            push_pad2(((v % 60000) + 500) / 1000, &mut out);
            proof {
                assert(out@ =~= spec_format_time(Some(v)));
            }
            out
        },
    }
}

/// For every present time below one hundred minutes, the display text
/// is exactly five characters: two digits, a colon, two digits; an
/// absent time always shows as `--:--`.  (At one hundred minutes the
/// minutes field grows a third digit.)
pub proof fn lemma_format_time_shape(v: u64)
    requires
        v < 6000000,
    ensures
        spec_format_time(Some(v)).len() == 5,
        is_digit_char(spec_format_time(Some(v))[0]),
        is_digit_char(spec_format_time(Some(v))[1]),
        spec_format_time(Some(v))[2] == ':',
        is_digit_char(spec_format_time(Some(v))[3]),
        is_digit_char(spec_format_time(Some(v))[4]),
        spec_format_time(None) == seq!['-', '-', ':', '-', '-'],
{
    let m = (v / 60000) as nat;
    let s = (((v % 60000) + 500) / 1000) as nat;
    assert(m < 100);
    assert(s <= 60);
    lemma_pad2_shape(m);
    lemma_pad2_shape(s);
}

/// A zero-padded value below one hundred is exactly two digits.
proof fn lemma_pad2_shape(n: nat)
    requires
        n < 100,
    ensures
        spec_pad2(n).len() == 2,
        is_digit_char(spec_pad2(n)[0]),
        is_digit_char(spec_pad2(n)[1]),
{
    crate::text::lemma_udec_digits(n);
    if n < 10 {
        assert(is_digit_char('0'));
    } else {
        assert(spec_udec(n) =~= spec_udec(n / 10) + seq![
            crate::text::char_of_digit((n % 10) as int),
        ]);
        crate::text::lemma_udec_digits(n / 10);
    }
}

/// Completion percentage: the elapsed share of the duration in whole
/// percent, rounded down; zero whenever either time is absent or the
/// duration is not positive, regardless of the position.
pub open spec fn spec_percent(position_ms: Option<u64>, duration_ms: Option<u64>) -> u32 {
    match (position_ms, duration_ms) {
        (Some(p), Some(d)) => if d > 0 {
            if p * 100 / (d as int) <= u32::MAX {
                (p * 100 / (d as int)) as u32
            } else {
                u32::MAX
            }
        } else {
            0
        },
        _ => 0,
    }
}

/// Compute the completion percentage of a snapshot's times.
pub fn completion_percent(position_ms: Option<u64>, duration_ms: Option<u64>) -> (r: u32)
    ensures
        r == spec_percent(position_ms, duration_ms),
        duration_ms is None || duration_ms == Some(0u64) ==> r == 0,
{
    match (position_ms, duration_ms) {
        (Some(p), Some(d)) => {
            if d > 0 {
                let wide: u128 = (p as u128) * 100 / (d as u128);
                if wide <= u32::MAX as u128 {
                    wide as u32
                } else {
                    u32::MAX
                }
            } else {
                0
            }
        },
        _ => 0,
    }
}

/// The optional second display line: the album when one is present,
/// otherwise the playlist title when one is present.
pub open spec fn spec_collection_line(v: StatusVal) -> Option<Seq<char>> {
    match v.album {
        Some(a) => Some("Album: "@ + a),
        None => match v.playlist_title {
            Some(p) => Some("Playlist: "@ + p),
            None => None,
        },
    }
}

/// The playlist marker of the progress line: position and count when
/// the playlist has more than one entry, a plain marker otherwise.
pub open spec fn spec_playlist_info(v: StatusVal) -> Seq<char> {
    match (v.playlist_pos, v.playlist_count) {
        (Some(p), Some(c)) => if c > 1 {
            "[playlist] #"@ + spec_idec(p as int) + "/"@ + spec_idec(c as int)
        } else {
            "[playing]"@
        },
        _ => "[playing]"@,
    }
}

/// The progress line: playlist marker, elapsed and total time, and
/// completion percentage.
pub open spec fn spec_progress_line(v: StatusVal) -> Seq<char> {
    spec_playlist_info(v) + "   "@ + spec_format_time(v.position_ms) + " / "@ + spec_format_time(
        v.duration_ms,
    ) + " ("@ + spec_udec(spec_percent(v.position_ms, v.duration_ms) as nat) + "%)"@
}

/// The display lines of a snapshot.  A snapshot without a title shows
/// only that the player is not responding; with one, the title, the
/// optional album or playlist line, the progress line and the volume
/// line.
pub open spec fn spec_render_status(v: StatusVal) -> Seq<Seq<char>> {
    match v.title {
        None => seq!["Player not responding"@],
        Some(t) => {
            let head = seq![t];
            let mid = match spec_collection_line(v) {
                Some(l) => head.push(l),
                None => head,
            };
            mid.push(spec_progress_line(v)).push("volume: 100%"@)
        },
    }
}

/// Render a snapshot for display, one string per line.
pub fn render_status(s: &MpvStatus) -> (r: Vec<String>)
    ensures
        r@.map_values(|l: String| l@) == spec_render_status(s@),
{
    let mut lines: Vec<String> = Vec::new();
    match &s.title {
        None => {
            lines.push(String::from_str("Player not responding"));
            proof {
                assert(lines@.map_values(|l: String| l@) =~= spec_render_status(s@));
            }
        },
        Some(t) => {
            lines.push(t.clone());
            match &s.album {
                Some(a) => {
                    let mut l = String::from_str("Album: ");
                    l.append(a.as_str());
                    lines.push(l);
                },
                None => {
                    match &s.playlist_title {
                        Some(p) => {
                            let mut l = String::from_str("Playlist: ");
                            l.append(p.as_str());
                            lines.push(l);
                        },
                        None => {},
                    }
                },
            }
            let mut prog = String::new();
            match (&s.playlist_pos, &s.playlist_count) {
                (Some(p), Some(c)) => {
                    if *c > 1 {
                        prog.append("[playlist] #");
                        push_i64_decimal(*p, &mut prog);
                        prog.append("/");
                        push_i64_decimal(*c, &mut prog);
                    } else {
                        prog.append("[playing]");
                    }
                },
                _ => {
                    prog.append("[playing]");
                },
            }
            proof {
                assert(prog@ =~= spec_playlist_info(s@));
            }
            prog.append("   ");
            let pos_text = format_time(s.position_ms);
            prog.append(pos_text.as_str());
            prog.append(" / ");
            let dur_text = format_time(s.duration_ms);
            prog.append(dur_text.as_str());
            prog.append(" (");
            let pct = completion_percent(s.position_ms, s.duration_ms);
            push_u64_decimal(pct as u64, &mut prog);
            prog.append("%)");
            proof {
                assert(prog@ =~= spec_progress_line(s@));
            }
            lines.push(prog);
            lines.push(String::from_str("volume: 100%"));
            proof {
                assert(lines@.map_values(|l: String| l@) =~= spec_render_status(s@));
            }
        },
    }
    lines
}

} // verus!
