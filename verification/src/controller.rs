//! The playback controller's decisions: which control word maps to
//! which transport command, how the player process is launched, how
//! the player's state is derived from a probe, and how a `next` or
//! `previous` transition is confirmed by bounded polling.
//!
//! All of it is pure decision logic; opening sockets, spawning the
//! player and sleeping between polls happen outside this crate.

use vstd::prelude::*;
use vstd::string::StringExecFns;

use crate::frame::{CommandFrame, TokenVal};
use crate::text::str_eq;

verus! {

broadcast use vstd::string::group_string_axioms;

/// The player's state, re-derived from a live probe on every query
/// and never stored: the probe is the source of truth.
#[derive(Debug, PartialEq, Eq)]
pub enum PlayerState {
    /// The control endpoint did not accept a connection.
    NotRunning,
    /// The endpoint answered but no track is loaded.
    Idle,
    /// The endpoint answered and a track title is present.
    Playing,
}

/// Derive the player's state from one probe: whether a connection was
/// accepted, and whether the status carried a title.
pub fn derive_state(connected: bool, title_present: bool) -> (r: PlayerState)
    ensures
        !connected ==> r is NotRunning,
        connected && !title_present ==> r is Idle,
        connected && title_present ==> r is Playing,
{
    if !connected {
        PlayerState::NotRunning
    } else if title_present {
        PlayerState::Playing
    } else {
        PlayerState::Idle
    }
}

/// A player control command named on the command line.
#[derive(Debug, PartialEq, Eq, Clone, Copy)]
pub enum ControlCommand {
    Stop,
    Pause,
    Resume,
    Next,
    Prev,
    Status,
}

/// The control words, as spec text.
pub open spec fn is_control_word(q: Seq<char>) -> bool {
    q == "stop"@ || q == "pause"@ || q == "resume"@ || q == "next"@ || q == "prev"@ || q
        == "status"@
}

/// Whether a query names a player control command rather than a
/// search.
pub fn is_control_command(query: &str) -> (r: bool)
    ensures
        r == is_control_word(query@),
{
    str_eq(query, "stop") || str_eq(query, "pause") || str_eq(query, "resume") || str_eq(
        query,
        "next",
    ) || str_eq(query, "prev") || str_eq(query, "status")
}

/// An unknown control word.
#[derive(Debug, PartialEq, Eq)]
pub enum ControlError {
    UnknownCommand,
}

impl ControlError {
    /// A description for the command-line caller.
    pub fn message(&self) -> (r: String)
        ensures
            r@ == "Unknown control command"@,
    {
        String::from_str("Unknown control command")
    }
}

/// The command a control word resolves to: the first word of the
/// fixed list it equals, or nothing.
pub open spec fn spec_control_of(q: Seq<char>) -> Option<ControlCommand> {
    if q == "stop"@ {
        Some(ControlCommand::Stop)
    } else if q == "pause"@ {
        Some(ControlCommand::Pause)
    } else if q == "resume"@ {
        Some(ControlCommand::Resume)
    } else if q == "next"@ {
        Some(ControlCommand::Next)
    } else if q == "prev"@ {
        Some(ControlCommand::Prev)
    } else if q == "status"@ {
        Some(ControlCommand::Status)
    } else {
        None
    }
}

/// Resolve a control word to the command it runs.  Exactly the words
/// that [`is_control_command`] accepts resolve; any other word is an
/// error.
pub fn execute_control_command(cmd: &str) -> (r: Result<ControlCommand, ControlError>)
    ensures
        r is Ok <==> is_control_word(cmd@),
        match spec_control_of(cmd@) {
            Some(c) => r == Ok::<ControlCommand, ControlError>(c),
            None => r == Err::<ControlCommand, ControlError>(ControlError::UnknownCommand),
        },
{
    if str_eq(cmd, "stop") {
        Ok(ControlCommand::Stop)
    } else if str_eq(cmd, "pause") {
        Ok(ControlCommand::Pause)
    } else if str_eq(cmd, "resume") {
        Ok(ControlCommand::Resume)
    } else if str_eq(cmd, "next") {
        Ok(ControlCommand::Next)
    } else if str_eq(cmd, "prev") {
        Ok(ControlCommand::Prev)
    } else if str_eq(cmd, "status") {
        Ok(ControlCommand::Status)
    } else {
        Err(ControlError::UnknownCommand)
    }
}

/// The transport frame a command sends, where it sends one: `status`
/// sends none, it only reads.  `pause` and `resume` both toggle the
/// pause state; `stop` falls back to the process supervisor when its
/// frame cannot be delivered.
pub fn transition_frame(c: &ControlCommand) -> (r: Option<CommandFrame>)
    ensures
        match c {
            ControlCommand::Stop => r matches Some(f) && f.wf() && f@ == seq![
                TokenVal::Text("stop"@),
            ],
            ControlCommand::Pause | ControlCommand::Resume => r matches Some(f) && f.wf() && f@
                == seq![TokenVal::Text("cycle"@), TokenVal::Text("pause"@)],
            ControlCommand::Next => r matches Some(f) && f.wf() && f@ == seq![
                TokenVal::Text("playlist-next"@),
                TokenVal::Text("force"@),
            ],
            ControlCommand::Prev => r matches Some(f) && f.wf() && f@ == seq![
                TokenVal::Text("playlist-prev"@),
                TokenVal::Text("force"@),
            ],
            ControlCommand::Status => r is None,
        },
{
    match c {
        ControlCommand::Stop => Some(CommandFrame::stop_playback()),
        ControlCommand::Pause => Some(CommandFrame::cycle_pause()),
        ControlCommand::Resume => Some(CommandFrame::cycle_pause()),
        ControlCommand::Next => Some(CommandFrame::playlist_next()),
        ControlCommand::Prev => Some(CommandFrame::playlist_prev()),
        ControlCommand::Status => None,
    }
}

/// The argument list a player launch uses, in order: the video
/// switch, the control-socket switch for background mode, then the
/// target URL.
pub open spec fn spec_player_args(url: Seq<char>, no_video: bool, background: bool) -> Seq<
    Seq<char>,
> {
    (if no_video {
        seq!["--no-video"@]
    } else {
        Seq::empty()
    }) + (if background {
        seq!["--input-ipc-server=/tmp/ytm-mpv.sock"@]
    } else {
        Seq::empty()
    }) + seq![url]
}

/// Build the player's argument list.
pub fn player_args(url: &str, no_video: bool, background: bool) -> (r: Vec<String>)
    ensures
        r@.map_values(|s: String| s@) == spec_player_args(url@, no_video, background),
{
    let mut r: Vec<String> = Vec::new();
    if no_video {
        r.push(String::from_str("--no-video"));
    }
    if background {
        r.push(String::from_str("--input-ipc-server=/tmp/ytm-mpv.sock"));
    }
    r.push(String::from_str(url));
    proof {
        assert(r@.map_values(|s: String| s@) =~= spec_player_args(url@, no_video, background));
    }
    r
}

/// One poll observation confirms the transition when it saw a
/// playlist position different from the baseline.
pub open spec fn spec_poll_confirms(baseline: Option<i64>, seen: Option<i64>) -> bool {
    seen is Some && seen != baseline
}

/// Some poll within the budget confirms the transition.
pub open spec fn spec_confirm_within(
    baseline: Option<i64>,
    polls: Seq<Option<i64>>,
    budget: int,
) -> bool {
    exists|i: int|
        0 <= i < polls.len() && i < budget && spec_poll_confirms(baseline, #[trigger] polls[i])
}

/// What one poll observation means for the transition.
#[derive(Debug, PartialEq, Eq)]
pub enum PollStep {
    /// The position moved: the transition is confirmed.
    Confirmed,
    /// No movement yet and budget remains: poll again after the
    /// settle delay.
    Retry,
    /// The budget is exhausted: the transition is unconfirmed — not
    /// an error; a snapshot is rendered all the same.
    Exhausted,
}

/// Settle-and-confirm state for one `next` or `previous` transition:
/// the playlist position read before the command, and the polls that
/// remain.
pub struct ConfirmPoll {
    /// Playlist position before the transition command was sent.
    pub baseline: Option<i64>,
    /// Polls that may still be made.
    pub attempts_left: u32,
}

impl ConfirmPoll {
    /// Start confirming a transition against `baseline` with a fixed
    /// number of polls.
    pub fn new(baseline: Option<i64>, budget: u32) -> (r: ConfirmPoll)
        ensures
            r.baseline == baseline,
            r.attempts_left == budget,
    {
        ConfirmPoll { baseline, attempts_left: budget }
    }

    /// Take one poll's observation.  A changed position confirms; an
    /// unchanged or unreadable one consumes an attempt, and the last
    /// attempt ends the loop unconfirmed.
    pub fn observe(&mut self, seen: Option<i64>) -> (r: PollStep)
        ensures
            final(self).baseline == old(self).baseline,
            spec_poll_confirms(old(self).baseline, seen) ==> r is Confirmed && final(
                self
            ).attempts_left == old(self).attempts_left,
            !spec_poll_confirms(old(self).baseline, seen) && old(self).attempts_left > 1 ==> r
                is Retry && final(self).attempts_left == old(self).attempts_left - 1,
            !spec_poll_confirms(old(self).baseline, seen) && old(self).attempts_left <= 1 ==> r
                is Exhausted && final(self).attempts_left == 0,
    {
        let moved = match (seen, self.baseline) {
            (Some(s), Some(b)) => s != b,
            (Some(_), None) => true,
            (None, _) => false,
        };
        if moved {
            PollStep::Confirmed
        } else if self.attempts_left > 1 {
            self.attempts_left = self.attempts_left - 1;
            PollStep::Retry
        } else {
            self.attempts_left = 0;
            PollStep::Exhausted
        }
    }
}

/// Run a whole confirmation against an already-collected list of
/// observations: confirmed exactly when some poll within the budget
/// saw a changed position.
pub fn confirm_transition(baseline: Option<i64>, polls: &Vec<Option<i64>>, budget: u32) -> (r:
    bool)
    ensures
        r == spec_confirm_within(baseline, polls@, budget as int),
{
    let mut i: usize = 0;
    let end: usize = if polls.len() < budget as usize {
        polls.len()
    } else {
        budget as usize
    };
    while i < end
        invariant
            i <= end,
            end <= polls@.len(),
            end as int == if polls@.len() < budget as int {
                polls@.len() as int
            } else {
                budget as int
            },
            forall|j: int| 0 <= j < i ==> !spec_poll_confirms(baseline, #[trigger] polls@[j]),
        decreases end - i,
    {
        let moved = match (&polls[i], &baseline) {
            (Some(s), Some(b)) => *s != *b,
            (Some(_), None) => true,
            (None, _) => false,
        };
        if moved {
            return true;
        }
        i += 1;
    }
    false
}

/// With a single-track playlist the playlist position never moves, so
/// no poll can confirm the transition: the loop always ends with its
/// budget exhausted and the snapshot is still rendered — an
/// unconfirmed transition, never an error.
pub proof fn lemma_single_track_exhausts(
    baseline: Option<i64>,
    polls: Seq<Option<i64>>,
    budget: int,
)
    requires
        forall|i: int| 0 <= i < polls.len() ==> (#[trigger] polls[i]) is None || polls[i]
            == baseline,
    ensures
        !spec_confirm_within(baseline, polls, budget),
{
}

} // verus!
