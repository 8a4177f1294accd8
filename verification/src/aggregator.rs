//! The status aggregator: an ordered batch of property queries and the
//! decoding of their response lines into one snapshot.
//!
//! Each property is decoded on its own; a missing or malformed line
//! degrades that one field to absent and never the whole snapshot.
//! When the endpoint could not be reached at all, the read reports
//! "not running" instead of an empty snapshot, so callers can tell the
//! two apart.

use vstd::prelude::*;

use crate::frame::{CommandFrame, TokenVal};
use crate::json::{
    data_i64, data_i64_of, data_number_text, data_number_text_of, data_string, data_string_of,
};
use crate::parse::{parse_seconds_ms, spec_seconds_ms_u64};
use crate::status::MpvStatus;

verus! {

/// The `data` field of one response line, as text; absent when the
/// line is not JSON, has no `data`, or the field is not a string.
pub fn response_data_string(line: &str) -> (r: Option<String>)
    ensures
        (match r {
            Some(s) => Some(s@),
            None => None,
        }) == data_string_of(line@),
{
    data_string(line)
}

/// The `data` field of one response line, as a signed integer.
pub fn response_data_i64(line: &str) -> (r: Option<i64>)
    ensures
        r == data_i64_of(line@),
{
    data_i64(line)
}

/// The milliseconds a response line's `data` field carries: the
/// field's decimal number text, read by
/// [`parse_seconds_ms`](crate::parse::parse_seconds_ms), which
/// carries the exact contract.
pub open spec fn spec_data_seconds_ms(line: Seq<char>) -> Option<u64> {
    match data_number_text_of(line) {
        Some(t) => spec_seconds_ms_u64(t),
        None => None,
    }
}

/// The `data` field of one response line, a number of seconds, as
/// whole milliseconds.
pub fn response_data_seconds_ms(line: &str) -> (r: Option<u64>)
    ensures
        r == spec_data_seconds_ms(line@),
{
    match data_number_text(line) {
        Some(text) => parse_seconds_ms(text.as_str()),
        None => None,
    }
}

/// The ordered batch of property queries behind one snapshot: title,
/// position, duration, playlist position, playlist count, album and
/// playlist title.  Responses must be read back in this order.
pub fn status_property_frames() -> (r: Vec<CommandFrame>)
    ensures
        r@.len() == 7,
        forall|i: int| 0 <= i < 7 ==> (#[trigger] r@[i]).wf(),
        r@[0]@ == seq![TokenVal::Text("get_property"@), TokenVal::Text("media-title"@)],
        r@[1]@ == seq![TokenVal::Text("get_property"@), TokenVal::Text("time-pos"@)],
        r@[2]@ == seq![TokenVal::Text("get_property"@), TokenVal::Text("duration"@)],
        r@[3]@ == seq![TokenVal::Text("get_property"@), TokenVal::Text("playlist-pos-1"@)],
        r@[4]@ == seq![TokenVal::Text("get_property"@), TokenVal::Text("playlist-count"@)],
        r@[5]@ == seq![TokenVal::Text("get_property"@), TokenVal::Text("metadata/album"@)],
        r@[6]@ == seq![
            TokenVal::Text("get_property"@),
            TokenVal::Text("metadata/ytdl_playlist_title"@),
        ],
{
    let mut r: Vec<CommandFrame> = Vec::new();
    r.push(CommandFrame::get_property("media-title"));
    r.push(CommandFrame::get_property("time-pos"));
    r.push(CommandFrame::get_property("duration"));
    r.push(CommandFrame::get_property("playlist-pos-1"));
    r.push(CommandFrame::get_property("playlist-count"));
    r.push(CommandFrame::get_property("metadata/album"));
    r.push(CommandFrame::get_property("metadata/ytdl_playlist_title"));
    r
}

/// Assemble one snapshot from the seven response lines, in the order
/// of [`status_property_frames`].  Every field equals the decode of
/// its own line and no other: a line that is absent — its read failed
/// — or that does not decode leaves exactly that field absent, and no
/// line can fail the others.
pub fn snapshot_from_lines(lines: &Vec<Option<String>>) -> (r: MpvStatus)
    requires
        lines@.len() == 7,
    ensures
        r@.title == (match lines@[0] {
            Some(l) => data_string_of(l@),
            None => None,
        }),
        r@.position_ms == (match lines@[1] {
            Some(l) => spec_data_seconds_ms(l@),
            None => None,
        }),
        r@.duration_ms == (match lines@[2] {
            Some(l) => spec_data_seconds_ms(l@),
            None => None,
        }),
        r@.playlist_pos == (match lines@[3] {
            Some(l) => data_i64_of(l@),
            None => None,
        }),
        r@.playlist_count == (match lines@[4] {
            Some(l) => data_i64_of(l@),
            None => None,
        }),
        r@.album == (match lines@[5] {
            Some(l) => data_string_of(l@),
            None => None,
        }),
        r@.playlist_title == (match lines@[6] {
            Some(l) => data_string_of(l@),
            None => None,
        }),
{
    let title = match &lines[0] {
        Some(l) => response_data_string(l.as_str()),
        None => None,
    };
    let position_ms = match &lines[1] {
        Some(l) => response_data_seconds_ms(l.as_str()),
        None => None,
    };
    let duration_ms = match &lines[2] {
        Some(l) => response_data_seconds_ms(l.as_str()),
        None => None,
    };
    let playlist_pos = match &lines[3] {
        Some(l) => response_data_i64(l.as_str()),
        None => None,
    };
    let playlist_count = match &lines[4] {
        Some(l) => response_data_i64(l.as_str()),
        None => None,
    };
    let album = match &lines[5] {
        Some(l) => response_data_string(l.as_str()),
        None => None,
    };
    let playlist_title = match &lines[6] {
        Some(l) => response_data_string(l.as_str()),
        None => None,
    };
    MpvStatus { title, position_ms, duration_ms, playlist_pos, playlist_count, album, playlist_title }
}

/// The outcome of one status read.
#[derive(Debug, PartialEq, Eq)]
pub enum StatusRead {
    /// The endpoint could not be reached: the player is not running.
    NotRunning,
    /// The endpoint answered; the snapshot holds what it said.
    Running(MpvStatus),
}

/// One aggregator read.  `lines` is absent when the connection could
/// not be established, and then the read is "not running" — never a
/// populated-but-empty snapshot; otherwise it holds the seven response
/// lines and the read carries exactly their snapshot, field by field.
pub fn status_read(lines: &Option<Vec<Option<String>>>) -> (r: StatusRead)
    requires
        match lines {
            Some(ls) => ls@.len() == 7,
            None => true,
        },
    ensures
        (lines is None) <==> (r is NotRunning),
        match lines {
            None => r is NotRunning,
            Some(ls) => r matches StatusRead::Running(snap) && snap@.title == (match ls@[0] {
                Some(l) => data_string_of(l@),
                None => None,
            }) && snap@.position_ms == (match ls@[1] {
                Some(l) => spec_data_seconds_ms(l@),
                None => None,
            }) && snap@.duration_ms == (match ls@[2] {
                Some(l) => spec_data_seconds_ms(l@),
                None => None,
            }) && snap@.playlist_pos == (match ls@[3] {
                Some(l) => data_i64_of(l@),
                None => None,
            }) && snap@.playlist_count == (match ls@[4] {
                Some(l) => data_i64_of(l@),
                None => None,
            }) && snap@.album == (match ls@[5] {
                Some(l) => data_string_of(l@),
                None => None,
            }) && snap@.playlist_title == (match ls@[6] {
                Some(l) => data_string_of(l@),
                None => None,
            }),
        },
{
    match lines {
        None => StatusRead::NotRunning,
        Some(ls) => StatusRead::Running(snapshot_from_lines(ls)),
    }
}

} // verus!
