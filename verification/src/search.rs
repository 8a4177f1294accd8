//! Search results, the menu entries they map to, and the selection
//! logic around the interactive picker.
//!
//! Fetching results from the platform and running the picker are I/O
//! and happen outside this crate; everything that shapes, labels,
//! filters and resolves them is here.

use vstd::prelude::*;
use vstd::string::{StrSliceExecFns, StringExecFns};

use crate::parse::{find_char, parse_usize, spec_find, spec_parse_usize};
use crate::text::{push_u64_decimal, spec_trim, spec_udec, str_eq, trim_str};

verus! {

/// The identifier block of one search result.
#[derive(Debug, Clone, PartialEq, Eq)]
pub struct ItemId {
    /// The result kind, `youtube#video` or `youtube#playlist`.
    pub kind: String,
    /// The video id, for video results.
    pub video_id: Option<String>,
    /// The playlist id, for playlist results.
    pub playlist_id: Option<String>,
}

/// The display block of one search result.
#[derive(Debug, Clone, PartialEq, Eq)]
pub struct Snippet {
    /// Result title.
    pub title: String,
    /// Channel the result belongs to.
    pub channel_title: String,
    /// Free-text description, where the platform gave one.
    pub description: Option<String>,
}

/// One search result.
#[derive(Debug, Clone, PartialEq, Eq)]
pub struct SearchItem {
    pub id: ItemId,
    pub snippet: Snippet,
}

/// The mathematical value of an identifier block.
#[verifier::ext_equal]
pub struct ItemIdVal {
    pub kind: Seq<char>,
    pub video_id: Option<Seq<char>>,
    pub playlist_id: Option<Seq<char>>,
}

/// The mathematical value of a display block.
#[verifier::ext_equal]
pub struct SnippetVal {
    pub title: Seq<char>,
    pub channel_title: Seq<char>,
    pub description: Option<Seq<char>>,
}

/// The mathematical value of a search result.
#[verifier::ext_equal]
pub struct SearchItemVal {
    pub id: ItemIdVal,
    pub snippet: SnippetVal,
}

impl View for ItemId {
    type V = ItemIdVal;

    open spec fn view(&self) -> ItemIdVal {
        ItemIdVal {
            kind: self.kind@,
            video_id: match self.video_id {
                Some(v) => Some(v@),
                None => None,
            },
            playlist_id: match self.playlist_id {
                Some(p) => Some(p@),
                None => None,
            },
        }
    }
}

impl View for Snippet {
    type V = SnippetVal;

    open spec fn view(&self) -> SnippetVal {
        SnippetVal {
            title: self.title@,
            channel_title: self.channel_title@,
            description: match self.description {
                Some(d) => Some(d@),
                None => None,
            },
        }
    }
}

impl View for SearchItem {
    type V = SearchItemVal;

    open spec fn view(&self) -> SearchItemVal {
        SearchItemVal { id: self.id@, snippet: self.snippet@ }
    }
}

/// The search item a video result maps to: kind `youtube#video`, the
/// video id, and a channel fallback when the result named none.
pub fn search_item_from_video(
    id: String,
    name: String,
    channel_name: Option<String>,
    short_description: Option<String>,
) -> (r: SearchItem)
    ensures
        r@.id.kind == "youtube#video"@,
        r@.id.video_id == Some(id@),
        r@.id.playlist_id is None,
        r@.snippet.title == name@,
        r@.snippet.channel_title == match channel_name {
            Some(c) => c@,
            None => "Unknown channel"@,
        },
        r@.snippet.description == match short_description {
            Some(d) => Some(d@),
            None => None::<Seq<char>>,
        },
{
    let channel_title = match channel_name {
        Some(c) => c,
        None => String::from_str("Unknown channel"),
    };
    SearchItem {
        id: ItemId { kind: String::from_str("youtube#video"), video_id: Some(id), playlist_id: None },
        snippet: Snippet { title: name, channel_title, description: short_description },
    }
}

/// The search item a playlist result maps to: kind
/// `youtube#playlist`, the playlist id, a channel fallback, and the
/// video count rendered as its description.
pub fn search_item_from_playlist(
    id: String,
    name: String,
    channel_name: Option<String>,
    video_count: Option<u64>,
) -> (r: SearchItem)
    ensures
        r@.id.kind == "youtube#playlist"@,
        r@.id.video_id is None,
        r@.id.playlist_id == Some(id@),
        r@.snippet.title == name@,
        r@.snippet.channel_title == match channel_name {
            Some(c) => c@,
            None => "Unknown channel"@,
        },
        r@.snippet.description == match video_count {
            Some(c) => Some(spec_udec(c as nat) + " videos"@),
            None => None::<Seq<char>>,
        },
{
    let channel_title = match channel_name {
        Some(c) => c,
        None => String::from_str("Unknown channel"),
    };
    let description = match video_count {
        Some(c) => {
            let mut d = String::new();
            push_u64_decimal(c, &mut d);
            d.append(" videos");
            Some(d)
        },
        None => None,
    };
    SearchItem {
        id: ItemId {
            kind: String::from_str("youtube#playlist"),
            video_id: None,
            playlist_id: Some(id),
        },
        snippet: Snippet { title: name, channel_title, description },
    }
}

/// What a menu entry points at.
#[derive(Debug, Clone, PartialEq, Eq)]
pub enum SearchTarget {
    /// A single video, by id.
    Video(String),
    /// A playlist, by id.
    Playlist(String),
}

/// The mathematical value of a target.
#[verifier::ext_equal]
pub enum TargetVal {
    Video(Seq<char>),
    Playlist(Seq<char>),
}

impl View for SearchTarget {
    type V = TargetVal;

    open spec fn view(&self) -> TargetVal {
        match self {
            SearchTarget::Video(id) => TargetVal::Video(id@),
            SearchTarget::Playlist(id) => TargetVal::Playlist(id@),
        }
    }
}

impl SearchTarget {
    /// The URL handed to the player.
    pub fn url(&self) -> (r: String)
        ensures
            match self@ {
                TargetVal::Video(id) => r@ == "https://www.youtube.com/watch?v="@ + id,
                TargetVal::Playlist(id) => r@ == "https://www.youtube.com/playlist?list="@ + id,
            },
    {
        match self {
            SearchTarget::Video(id) => {
                let mut r = String::from_str("https://www.youtube.com/watch?v=");
                r.append(id.as_str());
                r
            },
            SearchTarget::Playlist(id) => {
                let mut r = String::from_str("https://www.youtube.com/playlist?list=");
                r.append(id.as_str());
                r
            },
        }
    }
}

/// One picker entry: the line shown, and what it plays.
#[derive(Debug, Clone, PartialEq, Eq)]
pub struct SearchChoice {
    pub label: String,
    pub target: SearchTarget,
}

/// The mathematical value of a picker entry.
#[verifier::ext_equal]
pub struct ChoiceVal {
    pub label: Seq<char>,
    pub target: TargetVal,
}

impl View for SearchChoice {
    type V = ChoiceVal;

    open spec fn view(&self) -> ChoiceVal {
        ChoiceVal { label: self.label@, target: self.target@ }
    }
}

/// The picker entry an item maps to: a video gets `title | channel`,
/// a playlist the same with a playlist mark, and an item with neither
/// id none.  Title and channel are trimmed.
pub open spec fn spec_choice_of(item: SearchItemVal) -> Option<ChoiceVal> {
    let title = spec_trim(item.snippet.title);
    let channel = spec_trim(item.snippet.channel_title);
    match item.id.video_id {
        Some(v) => Some(
            ChoiceVal { label: title + " | "@ + channel, target: TargetVal::Video(v) },
        ),
        None => match item.id.playlist_id {
            Some(p) => Some(
                ChoiceVal {
                    label: title + " | "@ + channel + " [playlist]"@,
                    target: TargetVal::Playlist(p),
                },
            ),
            None => None,
        },
    }
}

impl SearchChoice {
    /// Map one search item to its picker entry, where it has one.
    pub fn from_item(item: &SearchItem) -> (r: Option<SearchChoice>)
        ensures
            match r {
                Some(c) => spec_choice_of(item@) == Some(c@),
                None => spec_choice_of(item@) is None,
            },
    {
        let title = trim_str(item.snippet.title.as_str());
        let channel = trim_str(item.snippet.channel_title.as_str());
        match &item.id.video_id {
            Some(v) => {
                let mut label = String::from_str(title);
                label.append(" | ");
                label.append(channel);
                let c = SearchChoice { label, target: SearchTarget::Video(v.clone()) };
                proof {
                    assert(spec_choice_of(item@) =~~= Some(c@));
                }
                Some(c)
            },
            None => {
                match &item.id.playlist_id {
                    Some(p) => {
                        let mut label = String::from_str(title);
                        label.append(" | ");
                        label.append(channel);
                        label.append(" [playlist]");
                        let c = SearchChoice {
                            label,
                            target: SearchTarget::Playlist(p.clone()),
                        };
                        proof {
                            assert(spec_choice_of(item@) =~~= Some(c@));
                        }
                        Some(c)
                    },
                    None => None,
                }
            },
        }
    }
}

/// The picker entries of a result list, in order, skipping items
/// without one.
pub open spec fn spec_choices(items: Seq<SearchItemVal>) -> Seq<ChoiceVal>
    decreases items.len(),
{
    if items.len() == 0 {
        Seq::empty()
    } else {
        spec_choices(items.drop_last()) + (match spec_choice_of(items.last()) {
            Some(c) => seq![c],
            None => Seq::empty(),
        })
    }
}

/// Build the picker entries of a result list.
pub fn search_choices(items: &Vec<SearchItem>) -> (r: Vec<SearchChoice>)
    ensures
        r@.map_values(|c: SearchChoice| c@) == spec_choices(
            items@.map_values(|i: SearchItem| i@),
        ),
{
    let ghost ivals = items@.map_values(|i: SearchItem| i@);
    let mut r: Vec<SearchChoice> = Vec::new();
    let mut k: usize = 0;
    proof {
        assert(ivals.take(0) =~= Seq::<SearchItemVal>::empty());
        assert(r@.map_values(|c: SearchChoice| c@) =~= spec_choices(ivals.take(0)));
    }
    while k < items.len()
        invariant
            k <= items@.len(),
            ivals == items@.map_values(|i: SearchItem| i@),
            r@.map_values(|c: SearchChoice| c@) == spec_choices(ivals.take(k as int)),
        decreases items@.len() - k,
    {
        let ghost pre = r@.map_values(|c: SearchChoice| c@);
        proof {
            assert(ivals.take(k as int + 1).drop_last() =~= ivals.take(k as int));
            assert(ivals.take(k as int + 1).last() == ivals[k as int]);
            assert(ivals[k as int] == items@[k as int]@);
        }
        match SearchChoice::from_item(&items[k]) {
            Some(c) => {
                r.push(c);
                proof {
                    assert(r@.map_values(|c: SearchChoice| c@) =~= pre.push(c@));
                    assert(pre.push(c@) =~= spec_choices(ivals.take(k as int + 1)));
                }
            },
            None => {
                proof {
                    assert(spec_choices(ivals.take(k as int + 1)) =~= spec_choices(
                        ivals.take(k as int),
                    ));
                }
            },
        }
        k += 1;
    }
    proof {
        assert(ivals.take(items@.len() as int) =~= ivals);
    }
    r
}

/// Find the entry whose label is exactly the picked line: the first
/// match, or none when no label matches.
pub fn find_choice(choices: &Vec<SearchChoice>, selected: &str) -> (r: Option<usize>)
    ensures
        match r {
            Some(i) => i < choices@.len() && choices@[i as int]@.label == selected@ && forall|
                j: int,
            | 0 <= j < i ==> (#[trigger] choices@[j]@.label) != selected@,
            None => forall|j: int| 0 <= j < choices@.len() ==> (#[trigger] choices@[j]@.label)
                != selected@,
        },
{
    let mut i: usize = 0;
    while i < choices.len()
        invariant
            i <= choices@.len(),
            forall|j: int| 0 <= j < i ==> (#[trigger] choices@[j]@.label) != selected@,
        decreases choices@.len() - i,
    {
        if str_eq(choices[i].label.as_str(), selected) {
            return Some(i);
        }
        i += 1;
    }
    None
}

/// The menu line of one numbered result: its one-based number, the
/// title, and a playlist mark where due.
pub open spec fn spec_menu_line(number: nat, title: Seq<char>, is_playlist: bool) -> Seq<char> {
    spec_udec(number) + ": "@ + title + (if is_playlist {
        " [playlist]"@
    } else {
        Seq::empty()
    })
}

/// Render one numbered menu line.
pub fn menu_line(number: u64, title: &str, is_playlist: bool) -> (r: String)
    ensures
        r@ == spec_menu_line(number as nat, title@, is_playlist),
{
    let mut r = String::new();
    push_u64_decimal(number, &mut r);
    r.append(": ");
    r.append(title);
    if is_playlist {
        r.append(" [playlist]");
    }
    proof {
        assert(r@ =~= spec_menu_line(number as nat, title@, is_playlist));
    }
    r
}

/// The number a picked menu line names: the text before the first
/// colon (or the whole line), trimmed and read as a decimal index.
/// An empty pick means no selection and yields nothing.
pub open spec fn spec_selection_index(line: Seq<char>) -> Option<usize> {
    let t = spec_trim(line);
    if t.len() == 0 {
        None
    } else {
        match spec_find(t, ':') {
            Some(i) => spec_parse_usize(spec_trim(t.take(i))),
            None => spec_parse_usize(t),
        }
    }
}

/// Read the one-based index a picked menu line names.
pub fn parse_selection_index(line: &str) -> (r: Option<usize>)
    ensures
        r == spec_selection_index(line@),
{
    let t = trim_str(line);
    let n = t.unicode_len();
    if n == 0 {
        return None;
    }
    match find_char(t, ':') {
        Some(i) => {
            let head = t.substring_char(0, i);
            proof {
                assert(head@ =~= t@.take(i as int));
            }
            parse_usize(trim_str(head))
        },
        None => parse_usize(t),
    }
}

/// A one-based selection index is valid for a list of `count` items.
pub fn selection_in_range(index: usize, count: usize) -> (r: bool)
    ensures
        r == (1 <= index <= count),
{
    index >= 1 && index <= count
}

/// The playback URLs of a list of video ids, in order.
pub fn watch_urls(ids: &Vec<String>) -> (r: Vec<String>)
    ensures
        r@.len() == ids@.len(),
        forall|i: int| 0 <= i < ids@.len() ==> (#[trigger] r@[i])@ == "https://youtube.com/watch?v="@
            + ids@[i]@,
{
    let mut r: Vec<String> = Vec::new();
    let mut k: usize = 0;
    while k < ids.len()
        invariant
            k <= ids@.len(),
            r@.len() == k,
            forall|i: int| 0 <= i < k ==> (#[trigger] r@[i])@ == "https://youtube.com/watch?v="@
                + ids@[i]@,
        decreases ids@.len() - k,
    {
        let mut u = String::from_str("https://youtube.com/watch?v=");
        u.append(ids[k].as_str());
        r.push(u);
        k += 1;
    }
    r
}

/// Why a search ended without playback.
#[derive(Debug, PartialEq, Eq)]
pub enum SearchError {
    /// The platform returned no results at all.
    NoResults,
    /// Results came back, but none was a playable video or playlist.
    NoPlayable,
    /// The picked line matched no entry's label.
    SelectionNotFound,
}

impl SearchError {
    /// A description for the command-line caller, naming the query.
    pub fn message(&self, query: &str) -> (r: String)
        ensures
            match self {
                SearchError::NoResults => r@ == "No results for '"@ + query@ + "'"@,
                SearchError::NoPlayable => r@ == "No playable videos or playlists found for '"@
                    + query@ + "'"@,
                SearchError::SelectionNotFound => r@ == "Selection not found"@,
            },
    {
        match self {
            SearchError::NoResults => {
                let mut r = String::from_str("No results for '");
                r.append(query);
                r.append("'");
                proof {
                    assert(r@ =~= "No results for '"@ + query@ + "'"@);
                }
                r
            },
            SearchError::NoPlayable => {
                let mut r = String::from_str("No playable videos or playlists found for '");
                r.append(query);
                r.append("'");
                proof {
                    assert(r@ =~= "No playable videos or playlists found for '"@ + query@
                        + "'"@);
                }
                r
            },
            SearchError::SelectionNotFound => String::from_str("Selection not found"),
        }
    }
}

/// The number of results one search asks for: the given limit, five
/// when none was given, clamped between one and fifty.
pub fn clamp_max_results(max_results: Option<u32>) -> (r: usize)
    ensures
        r == match max_results {
            Some(m) => if m < 1 {
                1usize
            } else if m > 50 {
                50usize
            } else {
                m as usize
            },
            None => 5usize,
        },
{
    match max_results {
        Some(m) => {
            if m < 1 {
                1
            } else if m > 50 {
                50
            } else {
                m as usize
            }
        },
        None => 5,
    }
}

/// The cache key of one search request, naming the limit and the
/// query.
pub fn search_cache_key(query: &str, max_results: usize) -> (r: String)
    ensures
        r@ == "ytm::search::"@ + spec_udec(max_results as nat) + "::"@ + query@,
{
    let mut r = String::from_str("ytm::search::");
    push_u64_decimal(max_results as u64, &mut r);
    r.append("::");
    r.append(query);
    proof {
        assert(r@ =~= "ytm::search::"@ + spec_udec(max_results as nat) + "::"@ + query@);
    }
    r
}

} // verus!
