//! Command frames of the player's control protocol: an ordered list of
//! string, number and boolean tokens, carried as one JSON object per
//! line of the form `{"command":[...]}`.
//!
//! The wire format is this crate's own grammar: the serializer and the
//! parser below are verified against one spec of the text, and parsing
//! a serialized frame is proved to give the frame back.

use vstd::prelude::*;
use vstd::string::{StrSliceExecFns, StringExecFns};

use crate::parse::{all_digits, spec_digits_val};
use crate::text::{
    char_of_digit, ctrl_char_str, digit_val, hex_char, hex_str, hex_val, is_digit_char,
    is_lower_hex, lemma_hex_char_roundtrip, lemma_udec_digits, push_i64_decimal, spec_idec,
    spec_udec,
};

verus! {

/// One token of a command frame.
#[derive(Debug, PartialEq, Eq)]
pub enum FrameToken {
    /// A string argument, such as an action or property name.
    Text(String),
    /// An integer argument.
    Number(i64),
    /// A boolean argument.
    Flag(bool),
}

/// The mathematical value of a token.
#[verifier::ext_equal]
pub enum TokenVal {
    Text(Seq<char>),
    Number(int),
    Flag(bool),
}

impl View for FrameToken {
    type V = TokenVal;

    open spec fn view(&self) -> TokenVal {
        match self {
            FrameToken::Text(s) => TokenVal::Text(s@),
            FrameToken::Number(i) => TokenVal::Number(*i as int),
            FrameToken::Flag(b) => TokenVal::Flag(*b),
        }
    }
}

/// A control request: at least one token, the first naming the action.
#[derive(Debug, PartialEq, Eq)]
pub struct CommandFrame {
    pub tokens: Vec<FrameToken>,
}

impl View for CommandFrame {
    type V = Seq<TokenVal>;

    open spec fn view(&self) -> Seq<TokenVal> {
        self.tokens@.map_values(|t: FrameToken| t@)
    }
}

/// A token value this crate will serialize: any text (the escaping
/// below covers every character), or a number within `i64`.
pub open spec fn wf_token_val(t: TokenVal) -> bool {
    match t {
        TokenVal::Text(_) => true,
        TokenVal::Number(i) => i64::MIN <= i <= i64::MAX,
        TokenVal::Flag(_) => true,
    }
}

/// A well-formed frame model: at least one token, each well-formed.
pub open spec fn wf_frame_val(ts: Seq<TokenVal>) -> bool {
    ts.len() >= 1 && forall|i: int| 0 <= i < ts.len() ==> wf_token_val(#[trigger] ts[i])
}

impl CommandFrame {
    /// The frame is fit for serialization.
    pub open spec fn wf(&self) -> bool {
        wf_frame_val(self@)
    }

    /// The frame that requests the value of the named property.
    pub fn get_property(name: &str) -> (r: CommandFrame)
        ensures
            r.wf(),
            r@ == seq![TokenVal::Text("get_property"@), TokenVal::Text(name@)],
    {
        two_text_frame("get_property", name)
    }

    /// The frame that toggles the pause state.
    pub fn cycle_pause() -> (r: CommandFrame)
        ensures
            r.wf(),
            r@ == seq![TokenVal::Text("cycle"@), TokenVal::Text("pause"@)],
    {
        two_text_frame("cycle", "pause")
    }

    /// The frame that forces a jump to the next playlist entry.
    pub fn playlist_next() -> (r: CommandFrame)
        ensures
            r.wf(),
            r@ == seq![TokenVal::Text("playlist-next"@), TokenVal::Text("force"@)],
    {
        two_text_frame("playlist-next", "force")
    }

    /// The frame that forces a jump to the previous playlist entry.
    pub fn playlist_prev() -> (r: CommandFrame)
        ensures
            r.wf(),
            r@ == seq![TokenVal::Text("playlist-prev"@), TokenVal::Text("force"@)],
    {
        two_text_frame("playlist-prev", "force")
    }

    /// The frame that stops playback.
    pub fn stop_playback() -> (r: CommandFrame)
        ensures
            r.wf(),
            r@ == seq![TokenVal::Text("stop"@)],
    {
        let mut tokens: Vec<FrameToken> = Vec::new();
        tokens.push(FrameToken::Text(String::from_str("stop")));
        let r = CommandFrame { tokens };
        proof {
            assert(r@ =~= seq![TokenVal::Text("stop"@)]);
        }
        r
    }
}

impl CommandFrame {
    /// Whether the frame is fit for serialization, so that a caller
    /// holding an arbitrary frame can establish it: a token must name
    /// the action.  Every token an executable frame can hold is
    /// serializable on its own.
    pub fn is_wf(&self) -> (r: bool)
        ensures
            r == self.wf(),
    {
        let r = self.tokens.len() >= 1;
        proof {
            assert(forall|j: int| 0 <= j < self@.len() ==> wf_token_val(#[trigger] self@[j])) by {
                assert(forall|j: int| 0 <= j < self@.len() ==> self@[j] == self.tokens@[j]@);
            }
        }
        r
    }
}

/// A frame of two string tokens.
fn two_text_frame(a: &str, b: &str) -> (r: CommandFrame)
    ensures
        r.wf(),
        r@ == seq![TokenVal::Text(a@), TokenVal::Text(b@)],
{
    let mut tokens: Vec<FrameToken> = Vec::new();
    tokens.push(FrameToken::Text(String::from_str(a)));
    tokens.push(FrameToken::Text(String::from_str(b)));
    let r = CommandFrame { tokens };
    proof {
        assert(r@ =~= seq![TokenVal::Text(a@), TokenVal::Text(b@)]);
    }
    r
}

/// JSON string escaping: a backslash before every quote and
/// backslash, and a `\u00..` form for every control character, so
/// that any text serializes to one valid JSON string.
pub open spec fn spec_escape(s: Seq<char>) -> Seq<char>
    decreases s.len(),
{
    if s.len() == 0 {
        Seq::empty()
    } else {
        (if s[0] == '"' || s[0] == '\\' {
            seq!['\\', s[0]]
        } else if (s[0] as u32) < 32 {
            seq!['\\', 'u', '0', '0', hex_char(((s[0] as u32) / 16) as int), hex_char(
                ((s[0] as u32) % 16) as int,
            )]
        } else {
            seq![s[0]]
        }) + spec_escape(s.drop_first())
    }
}

/// The serialized text of one token.
pub open spec fn spec_token_text(t: TokenVal) -> Seq<char> {
    match t {
        TokenVal::Text(s) => seq!['"'] + spec_escape(s) + seq!['"'],
        TokenVal::Number(i) => spec_idec(i),
        TokenVal::Flag(b) => if b {
            seq!['t', 'r', 'u', 'e']
        } else {
            seq!['f', 'a', 'l', 's', 'e']
        },
    }
}

/// The serialized text of a token list, comma-separated.
pub open spec fn spec_tokens_text(ts: Seq<TokenVal>) -> Seq<char>
    decreases ts.len(),
{
    if ts.len() == 0 {
        Seq::empty()
    } else if ts.len() == 1 {
        spec_token_text(ts[0])
    } else {
        spec_token_text(ts[0]) + seq![','] + spec_tokens_text(ts.drop_first())
    }
}

/// The opening text of every serialized frame.
pub open spec fn spec_frame_head() -> Seq<char> {
    seq!['{', '"', 'c', 'o', 'm', 'm', 'a', 'n', 'd', '"', ':', '[']
}

/// The full serialized text of a frame: the head, the tokens, and the
/// closing bracket and brace.  A newline is not part of the frame; the
/// transport adds it.
pub open spec fn spec_frame_text(ts: Seq<TokenVal>) -> Seq<char> {
    spec_frame_head() + spec_tokens_text(ts) + seq![']', '}']
}

proof fn lemma_escape_append(a: Seq<char>, b: Seq<char>)
    ensures
        spec_escape(a + b) == spec_escape(a) + spec_escape(b),
    decreases a.len(),
{
    if a.len() == 0 {
        assert(a + b =~= b);
        assert(spec_escape(a) + spec_escape(b) =~= spec_escape(b));
    } else {
        lemma_escape_append(a.drop_first(), b);
        assert((a + b).drop_first() =~= a.drop_first() + b);
        assert(spec_escape(a + b) =~= spec_escape(a) + spec_escape(b));
    }
}

/// Append the escaped form of `s` to `out`.
pub(crate) fn push_escaped(s: &str, out: &mut String)
    ensures
        final(out)@ == old(out)@ + spec_escape(s@),
{
    proof {
        reveal_strlit("\\\"");
        reveal_strlit("\\\\");
    }
    let n = s.unicode_len();
    let mut i: usize = 0;
    proof {
        assert(s@.subrange(0, 0) =~= Seq::<char>::empty());
        assert(spec_escape(s@.subrange(0, 0)) =~= Seq::<char>::empty());
        assert(out@ =~= old(out)@ + spec_escape(s@.subrange(0, 0)));
    }
    while i < n
        invariant
            i <= n,
            n == s@.len(),
            out@ == old(out)@ + spec_escape(s@.subrange(0, i as int)),
        decreases n - i,
    {
        let c = s.get_char(i);
        let ghost pre = s@.subrange(0, i as int);
        let ghost post = s@.subrange(0, i as int + 1);
        proof {
            reveal_strlit("\\\"");
            reveal_strlit("\\\\");
            assert(post =~= pre + seq![s@[i as int]]);
            lemma_escape_append(pre, seq![s@[i as int]]);
            assert(seq![s@[i as int]].drop_first() =~= Seq::<char>::empty());
            assert(spec_escape(Seq::<char>::empty()) =~= Seq::<char>::empty());
        }
        if c == '"' {
            out.append("\\\"");
            proof {
                assert(spec_escape(seq![s@[i as int]]) =~= seq!['\\', '"']);
                assert(out@ =~= old(out)@ + spec_escape(post));
            }
        } else if c == '\\' {
            out.append("\\\\");
            proof {
                assert(spec_escape(seq![s@[i as int]]) =~= seq!['\\', '\\']);
                assert(out@ =~= old(out)@ + spec_escape(post));
            }
        } else if (c as u32) < 32 {
            let u = c as u32;
            proof {
                reveal_strlit("\\u00");
            }
            out.append("\\u00");
            out.append(hex_str(u / 16));
            out.append(hex_str(u % 16));
            proof {
                assert(spec_escape(seq![s@[i as int]]) =~= seq!['\\', 'u', '0', '0', hex_char(
                    (u / 16) as int,
                ), hex_char((u % 16) as int)]);
                assert(out@ =~= old(out)@ + spec_escape(post));
            }
        } else {
            let piece = s.substring_char(i, i + 1);
            out.append(piece);
            proof {
                assert(piece@ =~= seq![s@[i as int]]);
                assert(spec_escape(seq![s@[i as int]]) =~= seq![s@[i as int]]);
                assert(out@ =~= old(out)@ + spec_escape(post));
            }
        }
        i += 1;
    }
    proof {
        assert(s@.subrange(0, n as int) =~= s@);
    }
}

/// Append the serialized text of one token to `out`.
fn push_token(t: &FrameToken, out: &mut String)
    ensures
        final(out)@ == old(out)@ + spec_token_text(t@),
{
    match t {
        FrameToken::Text(s) => {
            proof {
                reveal_strlit("\"");
            }
            out.append("\"");
            push_escaped(s.as_str(), out);
            out.append("\"");
            proof {
                assert(out@ =~= old(out)@ + spec_token_text(t@));
            }
        },
        FrameToken::Number(i) => {
            push_i64_decimal(*i, out);
        },
        FrameToken::Flag(b) => {
            proof {
                reveal_strlit("true");
                reveal_strlit("false");
            }
            if *b {
                out.append("true");
                proof {
                    assert(out@ =~= old(out)@ + spec_token_text(t@));
                }
            } else {
                out.append("false");
                proof {
                    assert(out@ =~= old(out)@ + spec_token_text(t@));
                }
            }
        },
    }
}

/// Serialize a frame to its one-line JSON text.
pub fn serialize_frame(f: &CommandFrame) -> (r: String)
    requires
        f.wf(),
    ensures
        r@ == spec_frame_text(f@),
{
    proof {
        reveal_strlit("{\"command\":[");
        reveal_strlit(",");
        reveal_strlit("]}");
    }
    let mut out = String::new();
    out.append("{\"command\":[");
    proof {
        assert(out@ =~= spec_frame_head());
    }
    let k = f.tokens.len();
    let mut i: usize = 0;
    proof {
        assert(f@.subrange(0, 0) =~= Seq::<TokenVal>::empty());
    }
    while i < k
        invariant
            1 <= k == f.tokens.len(),
            i <= k,
            f@.len() == k,
            out@ == spec_frame_head() + spec_head_tokens_text(f@, i as int),
        decreases k - i,
    {
        proof {
            reveal_strlit(",");
        }
        let ghost before = out@;
        if i > 0 {
            out.append(",");
        }
        push_token(&f.tokens[i], &mut out);
        proof {
            assert(f@[i as int] == f.tokens@[i as int]@);
            lemma_head_tokens_step(f@, i as int);
            if i > 0 {
                assert(out@ =~= before + seq![','] + spec_token_text(f@[i as int]));
            } else {
                assert(out@ =~= before + spec_token_text(f@[i as int]));
            }
            assert(out@ =~= spec_frame_head() + spec_head_tokens_text(f@, i as int + 1));
        }
        i += 1;
    }
    out.append("]}");
    proof {
        lemma_head_tokens_full(f@);
        assert(out@ =~= spec_frame_text(f@));
    }
    out
}

/// Serialize a frame as the transport sends it: the frame text,
/// terminated by the one newline that delimits it on the wire.
pub fn frame_line(f: &CommandFrame) -> (r: String)
    requires
        f.wf(),
    ensures
        r@ == spec_frame_text(f@) + "\n"@,
{
    let mut r = serialize_frame(f);
    r.append("\n");
    r
}

/// The serialized text of the first `i` tokens of `ts`, with the
/// separating commas that precede and join them.
pub open spec fn spec_head_tokens_text(ts: Seq<TokenVal>, i: int) -> Seq<char>
    recommends
        0 <= i <= ts.len(),
    decreases i,
{
    if i <= 0 {
        Seq::empty()
    } else if i == 1 {
        spec_token_text(ts[0])
    } else {
        spec_head_tokens_text(ts, i - 1) + seq![','] + spec_token_text(ts[i - 1])
    }
}

proof fn lemma_head_tokens_step(ts: Seq<TokenVal>, i: int)
    requires
        0 <= i < ts.len(),
    ensures
        spec_head_tokens_text(ts, i + 1) == if i == 0 {
            spec_head_tokens_text(ts, i) + spec_token_text(ts[i])
        } else {
            spec_head_tokens_text(ts, i) + seq![','] + spec_token_text(ts[i])
        },
{
    if i == 0 {
        assert(spec_head_tokens_text(ts, 0) =~= Seq::<char>::empty());
        assert(spec_head_tokens_text(ts, 1) =~= spec_head_tokens_text(ts, 0) + spec_token_text(
            ts[0],
        ));
    }
}

proof fn lemma_head_tokens_full(ts: Seq<TokenVal>)
    requires
        ts.len() >= 1,
    ensures
        spec_head_tokens_text(ts, ts.len() as int) == spec_tokens_text(ts),
    decreases ts.len(),
{
    if ts.len() == 1 {
    } else {
        let tail = ts.drop_first();
        lemma_head_tokens_full(tail);
        lemma_head_tokens_shift(ts, ts.len() as int);
        assert(spec_tokens_text(ts) =~= spec_token_text(ts[0]) + seq![','] + spec_tokens_text(
            tail,
        ));
    }
}

/// What follows the opening quote of a string token: the unescaped
/// content and the text after the closing quote.  Control characters
/// and unknown escapes are rejected.
pub open spec fn spec_parse_string_body(s: Seq<char>) -> Option<(Seq<char>, Seq<char>)>
    decreases s.len(),
{
    if s.len() == 0 {
        None
    } else if s[0] == '"' {
        Some((Seq::empty(), s.drop_first()))
    } else if s[0] == '\\' {
        if s.len() >= 2 && (s[1] == '"' || s[1] == '\\') {
            match spec_parse_string_body(s.skip(2)) {
                Some((t, r)) => Some((seq![s[1]] + t, r)),
                None => None,
            }
        } else if s.len() >= 6 && s[1] == 'u' && s[2] == '0' && s[3] == '0' && is_lower_hex(s[4])
            && is_lower_hex(s[5]) && hex_val(s[4]) * 16 + hex_val(s[5]) < 32 {
            match spec_parse_string_body(s.skip(6)) {
                Some((t, r)) => Some(
                    (seq![(((hex_val(s[4]) * 16 + hex_val(s[5])) as u32) as char)] + t, r),
                ),
                None => None,
            }
        } else {
            None
        }
    } else if (s[0] as u32) < 32 {
        None
    } else {
        match spec_parse_string_body(s.drop_first()) {
            Some((t, r)) => Some((seq![s[0]] + t, r)),
            None => None,
        }
    }
}

/// Number of leading decimal digits of `s`.
pub open spec fn spec_digit_run(s: Seq<char>) -> nat
    decreases s.len(),
{
    if s.len() == 0 || !is_digit_char(s[0]) {
        0
    } else {
        (1 + spec_digit_run(s.drop_first())) as nat
    }
}

/// A number token: an optional minus sign, then a maximal digit run,
/// read as an `i64`.  Out-of-range values are rejected.
pub open spec fn spec_parse_number(s: Seq<char>) -> Option<(TokenVal, Seq<char>)> {
    let neg = s.len() > 0 && s[0] == '-';
    let body = if neg {
        s.drop_first()
    } else {
        s
    };
    let k = spec_digit_run(body);
    if k == 0 {
        None
    } else {
        let v = spec_digits_val(body.take(k as int)) as int;
        let sv = if neg {
            -v
        } else {
            v
        };
        if i64::MIN <= sv <= i64::MAX {
            Some((TokenVal::Number(sv), body.skip(k as int)))
        } else {
            None
        }
    }
}

/// A boolean token: the literal text `true` or `false`.
pub open spec fn spec_parse_flag(s: Seq<char>) -> Option<(TokenVal, Seq<char>)> {
    if s.len() >= 4 && s[0] == 't' && s[1] == 'r' && s[2] == 'u' && s[3] == 'e' {
        Some((TokenVal::Flag(true), s.skip(4)))
    } else if s.len() >= 5 && s[0] == 'f' && s[1] == 'a' && s[2] == 'l' && s[3] == 's' && s[4]
        == 'e' {
        Some((TokenVal::Flag(false), s.skip(5)))
    } else {
        None
    }
}

/// One token, dispatched on its first character, and the text after it.
pub open spec fn spec_parse_token(s: Seq<char>) -> Option<(TokenVal, Seq<char>)> {
    if s.len() == 0 {
        None
    } else if s[0] == '"' {
        match spec_parse_string_body(s.drop_first()) {
            Some((t, r)) => Some((TokenVal::Text(t), r)),
            None => None,
        }
    } else if s[0] == 't' || s[0] == 'f' {
        spec_parse_flag(s)
    } else if s[0] == '-' || is_digit_char(s[0]) {
        spec_parse_number(s)
    } else {
        None
    }
}

proof fn lemma_digit_run_le(s: Seq<char>)
    ensures
        spec_digit_run(s) <= s.len(),
    decreases s.len(),
{
    if s.len() > 0 && is_digit_char(s[0]) {
        lemma_digit_run_le(s.drop_first());
    }
}

proof fn lemma_string_body_consumes(s: Seq<char>)
    ensures
        spec_parse_string_body(s) is Some ==> (spec_parse_string_body(s)->0).1.len() < s.len(),
    decreases s.len(),
{
    if s.len() == 0 {
    } else if s[0] == '"' {
    } else if s[0] == '\\' {
        if s.len() >= 2 && (s[1] == '"' || s[1] == '\\') {
            lemma_string_body_consumes(s.skip(2));
        } else if s.len() >= 6 && s[1] == 'u' && s[2] == '0' && s[3] == '0' && is_lower_hex(s[4])
            && is_lower_hex(s[5]) && hex_val(s[4]) * 16 + hex_val(s[5]) < 32 {
            lemma_string_body_consumes(s.skip(6));
        }
    } else if (s[0] as u32) < 32 {
    } else {
        lemma_string_body_consumes(s.drop_first());
    }
}

pub proof fn lemma_token_consumes(s: Seq<char>)
    ensures
        spec_parse_token(s) is Some ==> (spec_parse_token(s)->0).1.len() < s.len(),
{
    if s.len() > 0 {
        if s[0] == '"' {
            lemma_string_body_consumes(s.drop_first());
        } else if s[0] == 't' || s[0] == 'f' {
        } else if s[0] == '-' || is_digit_char(s[0]) {
            let neg = s[0] == '-';
            let body = if neg {
                s.drop_first()
            } else {
                s
            };
            lemma_digit_run_le(body);
        }
    }
}

/// A bracketed token list after its opening `[`: one or more tokens,
/// comma-separated, up to and including the closing `]`, and the text
/// after it.
pub open spec fn spec_parse_tokens(s: Seq<char>) -> Option<(Seq<TokenVal>, Seq<char>)>
    decreases s.len(),
{
    match spec_parse_token(s) {
        None => None,
        Some((t, r)) => {
            if r.len() == 0 {
                None
            } else if r[0] == ']' {
                Some((seq![t], r.drop_first()))
            } else if r[0] == ',' {
                proof {
                    lemma_token_consumes(s);
                }
                match spec_parse_tokens(r.drop_first()) {
                    Some((ts, r2)) => Some((seq![t] + ts, r2)),
                    None => None,
                }
            } else {
                None
            }
        },
    }
}

/// A whole frame line: the fixed head, the token list, the closing
/// brace, nothing after it.
pub open spec fn spec_parse_frame(s: Seq<char>) -> Option<Seq<TokenVal>> {
    if s.len() >= 12 && s.subrange(0, 12) == spec_frame_head() {
        match spec_parse_tokens(s.skip(12)) {
            Some((ts, r)) => if r == seq!['}'] {
                Some(ts)
            } else {
                None
            },
            None => None,
        }
    } else {
        None
    }
}

/// Unescaping inverts escaping for every text: the escaped form,
/// closed by a quote, reads back as the text itself.
pub(crate) proof fn lemma_escape_roundtrip(t: Seq<char>, rest: Seq<char>)
    ensures
        spec_parse_string_body(spec_escape(t) + seq!['"'] + rest) == Some((t, rest)),
    decreases t.len(),
{
    let s = spec_escape(t) + seq!['"'] + rest;
    if t.len() == 0 {
        assert(spec_escape(t) =~= Seq::<char>::empty());
        assert(s =~= seq!['"'] + rest);
        assert(s[0] == '"');
        assert(s.drop_first() =~= rest);
        assert(spec_parse_string_body(s) =~~= Some((t, rest)));
    } else {
        let c = t[0];
        let tail = t.drop_first();
        lemma_escape_roundtrip(tail, rest);
        if c == '"' || c == '\\' {
            assert(spec_escape(t) =~= seq!['\\', c] + spec_escape(tail));
            assert(s[0] == '\\');
            assert(s[1] == c);
            assert(s.skip(2) =~= spec_escape(tail) + seq!['"'] + rest);
            assert(seq![s[1]] + tail =~= t);
            assert(spec_parse_string_body(s) =~~= Some((t, rest)));
        } else if (c as u32) < 32 {
            let u = c as u32;
            lemma_hex_char_roundtrip((u / 16) as int);
            lemma_hex_char_roundtrip((u % 16) as int);
            assert(spec_escape(t) =~= seq!['\\', 'u', '0', '0', hex_char((u / 16) as int),
                hex_char((u % 16) as int)] + spec_escape(tail));
            assert(s[0] == '\\');
            assert(s[1] == 'u');
            assert(s[2] == '0');
            assert(s[3] == '0');
            assert(s[4] == hex_char((u / 16) as int));
            assert(s[5] == hex_char((u % 16) as int));
            assert(hex_val(s[4]) * 16 + hex_val(s[5]) == u);
            vstd::utf8::char_u32_cast(c, u);
            assert(s.skip(6) =~= spec_escape(tail) + seq!['"'] + rest);
            assert(seq![((u) as char)] + tail =~= t);
            assert(spec_parse_string_body(s) =~~= Some((t, rest)));
        } else {
            assert(spec_escape(t) =~= seq![c] + spec_escape(tail));
            assert(s[0] == c);
            assert(s.drop_first() =~= spec_escape(tail) + seq!['"'] + rest);
            assert(seq![s[0]] + tail =~= t);
            assert(spec_parse_string_body(s) =~~= Some((t, rest)));
        }
    }
}

/// The decimal rendering of `n` reads back as `n`.
pub(crate) proof fn lemma_udec_val(n: nat)
    ensures
        spec_digits_val(spec_udec(n)) == n,
    decreases n,
{
    if n < 10 {
        assert(is_digit_char(char_of_digit(n as int)) && digit_val(char_of_digit(n as int)) == n);
        assert(spec_udec(n) =~= seq![char_of_digit(n as int)]);
        assert(spec_udec(n).drop_last() =~= Seq::<char>::empty());
        assert(spec_digits_val(Seq::<char>::empty()) == 0);
        assert(spec_udec(n).last() == char_of_digit(n as int));
        assert(spec_digits_val(spec_udec(n)) == digit_val(char_of_digit(n as int)));
    } else {
        lemma_udec_val(n / 10);
        let d = (n % 10) as int;
        assert(is_digit_char(char_of_digit(d)) && digit_val(char_of_digit(d)) == d);
        let w = spec_udec(n);
        assert(w =~= spec_udec(n / 10) + seq![char_of_digit(d)]);
        assert(w.drop_last() =~= spec_udec(n / 10));
        assert(w.last() == char_of_digit(d));
        assert(spec_digits_val(w) == spec_digits_val(spec_udec(n / 10)) * 10 + digit_val(
            char_of_digit(d),
        ));
    }
}

pub(crate) proof fn lemma_digit_run_exact(d: Seq<char>, rest: Seq<char>)
    requires
        all_digits(d),
        rest.len() == 0 || !is_digit_char(rest[0]),
    ensures
        spec_digit_run(d + rest) == d.len(),
    decreases d.len(),
{
    if d.len() == 0 {
        assert(d + rest =~= rest);
    } else {
        lemma_digit_run_exact(d.drop_first(), rest);
        assert((d + rest).drop_first() =~= d.drop_first() + rest);
        assert(is_digit_char((d + rest)[0]));
    }
}

proof fn lemma_number_roundtrip(i: int, rest: Seq<char>)
    requires
        i64::MIN <= i <= i64::MAX,
        rest.len() > 0,
        !is_digit_char(rest[0]),
    ensures
        spec_parse_number(spec_idec(i) + rest) == Some((TokenVal::Number(i), rest)),
{
    let s = spec_idec(i) + rest;
    if i < 0 {
        let m = (-i) as nat;
        lemma_udec_digits(m);
        assert(spec_idec(i) =~= seq!['-'] + spec_udec(m));
        assert(s[0] == '-');
        let body = s.drop_first();
        assert(body =~= spec_udec(m) + rest);
        lemma_digit_run_exact(spec_udec(m), rest);
        let k = spec_digit_run(body);
        assert(k == spec_udec(m).len());
        assert(body.take(k as int) =~= spec_udec(m));
        assert(body.skip(k as int) =~= rest);
        lemma_udec_val(m);
        assert(spec_parse_number(s) =~~= Some((TokenVal::Number(i), rest)));
    } else {
        let m = i as nat;
        lemma_udec_digits(m);
        assert(spec_idec(i) =~= spec_udec(m));
        assert(s =~= spec_udec(m) + rest);
        assert(is_digit_char(s[0]));
        assert(s[0] != '-');
        lemma_digit_run_exact(spec_udec(m), rest);
        let k = spec_digit_run(s);
        assert(k == spec_udec(m).len());
        assert(s.take(k as int) =~= spec_udec(m));
        assert(s.skip(k as int) =~= rest);
        lemma_udec_val(m);
        assert(spec_parse_number(s) =~~= Some((TokenVal::Number(i), rest)));
    }
}

proof fn lemma_flag_roundtrip(b: bool, rest: Seq<char>)
    ensures
        spec_parse_flag(spec_token_text(TokenVal::Flag(b)) + rest) == Some(
            (TokenVal::Flag(b), rest),
        ),
{
    let s = spec_token_text(TokenVal::Flag(b)) + rest;
    if b {
        assert(s.skip(4) =~= rest);
        assert(spec_parse_flag(s) =~~= Some((TokenVal::Flag(b), rest)));
    } else {
        assert(s.skip(5) =~= rest);
        assert(spec_parse_flag(s) =~~= Some((TokenVal::Flag(b), rest)));
    }
}

proof fn lemma_token_roundtrip(t: TokenVal, rest: Seq<char>)
    requires
        wf_token_val(t),
        rest.len() > 0,
        rest[0] == ',' || rest[0] == ']',
    ensures
        spec_parse_token(spec_token_text(t) + rest) == Some((t, rest)),
{
    let s = spec_token_text(t) + rest;
    match t {
        TokenVal::Text(content) => {
            assert(s[0] == '"');
            assert(s.drop_first() =~= spec_escape(content) + seq!['"'] + rest);
            lemma_escape_roundtrip(content, rest);
            assert(spec_parse_token(s) =~~= Some((t, rest)));
        },
        TokenVal::Number(i) => {
            if i < 0 {
                assert(spec_idec(i) =~= seq!['-'] + spec_udec((-i) as nat));
                assert(s[0] == '-');
            } else {
                lemma_udec_digits(i as nat);
                assert(spec_idec(i) =~= spec_udec(i as nat));
                assert(is_digit_char(s[0]));
            }
            assert(s[0] != '"' && s[0] != 't' && s[0] != 'f');
            lemma_number_roundtrip(i, rest);
            assert(spec_parse_token(s) =~~= Some((t, rest)));
        },
        TokenVal::Flag(b) => {
            if b {
                assert(s[0] == 't');
            } else {
                assert(s[0] == 'f');
            }
            lemma_flag_roundtrip(b, rest);
            assert(spec_parse_token(s) =~~= Some((t, rest)));
        },
    }
}

#[verifier::rlimit(100)]
proof fn lemma_tokens_roundtrip(ts: Seq<TokenVal>, rest: Seq<char>)
    requires
        wf_frame_val(ts),
    ensures
        spec_parse_tokens(spec_tokens_text(ts) + seq![']'] + rest) == Some((ts, rest)),
    decreases ts.len(),
{
    let s = spec_tokens_text(ts) + seq![']'] + rest;
    if ts.len() == 1 {
        let tail_text = seq![']'] + rest;
        assert(s =~= spec_token_text(ts[0]) + tail_text);
        lemma_token_roundtrip(ts[0], tail_text);
        assert(tail_text.drop_first() =~= rest);
        assert(seq![ts[0]] =~= ts);
        assert(spec_parse_tokens(s) =~~= Some((ts, rest)));
    } else {
        let tail = ts.drop_first();
        assert(wf_frame_val(tail));
        let tail_text = seq![','] + spec_tokens_text(tail) + seq![']'] + rest;
        assert(spec_tokens_text(ts) =~= spec_token_text(ts[0]) + seq![','] + spec_tokens_text(
            tail,
        ));
        assert(s =~= spec_token_text(ts[0]) + tail_text);
        lemma_token_roundtrip(ts[0], tail_text);
        assert(tail_text[0] == ',');
        assert(tail_text.drop_first() =~= spec_tokens_text(tail) + seq![']'] + rest);
        lemma_tokens_roundtrip(tail, rest);
        assert(seq![ts[0]] + tail =~= ts);
        assert(spec_parse_tokens(s) =~~= Some((ts, rest)));
    }
}

/// A serialized frame parses back to exactly the frame it came from:
/// the action name and the argument list are preserved token for token.
pub proof fn lemma_frame_round_trip(ts: Seq<TokenVal>)
    requires
        wf_frame_val(ts),
    ensures
        spec_parse_frame(spec_frame_text(ts)) == Some(ts),
{
    let s = spec_frame_text(ts);
    assert(s.len() >= 14);
    assert(s.subrange(0, 12) =~= spec_frame_head());
    assert(s.skip(12) =~= spec_tokens_text(ts) + seq![']'] + seq!['}']);
    lemma_tokens_roundtrip(ts, seq!['}']);
    assert(spec_parse_frame(s) =~~= Some(ts));
}

/// Relates prefix texts of `ts` and of its tail.
proof fn lemma_head_tokens_shift(ts: Seq<TokenVal>, i: int)
    requires
        2 <= i <= ts.len(),
    ensures
        spec_head_tokens_text(ts, i) == spec_token_text(ts[0]) + seq![','] + spec_head_tokens_text(
            ts.drop_first(),
            i - 1,
        ),
    decreases i,
{
    let tail = ts.drop_first();
    if i == 2 {
        assert(tail[0] == ts[1]);
        assert(spec_head_tokens_text(ts, 1) == spec_token_text(ts[0]));
        assert(spec_head_tokens_text(tail, 1) == spec_token_text(tail[0]));
        assert(spec_head_tokens_text(ts, 2) =~= spec_token_text(ts[0]) + seq![',']
            + spec_head_tokens_text(tail, 1));
    } else {
        lemma_head_tokens_shift(ts, i - 1);
        assert(tail[i - 2] == ts[i - 1]);
        assert(spec_head_tokens_text(ts, i) =~= spec_token_text(ts[0]) + seq![',']
            + spec_head_tokens_text(tail, i - 1));
    }
}

/// The model sequence of a token vector.
pub open spec fn token_models(ts: Seq<FrameToken>) -> Seq<TokenVal> {
    ts.map_values(|t: FrameToken| t@)
}

/// Continue a partial string-body parse: what the whole body yields
/// when `pre` has already been read and `s` remains.
pub open spec fn string_body_cont(pre: Seq<char>, s: Seq<char>) -> Option<(Seq<char>, Seq<char>)> {
    match spec_parse_string_body(s) {
        Some((t, r)) => Some((pre + t, r)),
        None => None,
    }
}

/// Parse a string token's body beginning at `start`, just after the
/// opening quote; yields the unescaped content and the position after
/// the closing quote.
pub(crate) fn parse_string_body_at(s: &str, start: usize) -> (r: Option<(String, usize)>)
    requires
        start <= s@.len(),
    ensures
        match r {
            Some(p) => start < p.1 <= s@.len() && spec_parse_string_body(s@.skip(start as int))
                == Some((p.0@, s@.skip(p.1 as int))),
            None => spec_parse_string_body(s@.skip(start as int)) is None,
        },
{
    let n = s.unicode_len();
    let mut out = String::new();
    let mut i: usize = start;
    while i < n
        invariant
            start <= i <= n,
            n == s@.len(),
            string_body_cont(out@, s@.skip(i as int)) == spec_parse_string_body(
                s@.skip(start as int),
            ),
        decreases n - i,
    {
        let c = s.get_char(i);
        let ghost here = s@.skip(i as int);
        proof {
            assert(here[0] == s@[i as int]);
            assert(here.drop_first() =~= s@.skip(i as int + 1));
        }
        if c == '"' {
            proof {
                assert(spec_parse_string_body(here) =~~= Some(
                    (Seq::<char>::empty(), s@.skip(i as int + 1)),
                ));
                assert(out@ + Seq::<char>::empty() =~= out@);
            }
            return Some((out, i + 1));
        } else if c == '\\' {
            if i + 1 < n {
                let e = s.get_char(i + 1);
                if e == '"' || e == '\\' {
                    proof {
                        assert(here[1] == s@[i as int + 1]);
                        assert(here.skip(2) =~= s@.skip(i as int + 2));
                    }
                    let piece = s.substring_char(i + 1, i + 2);
                    out.append(piece);
                    proof {
                        assert(piece@ =~= seq![s@[i as int + 1]]);
                    }
                    i += 2;
                    proof {
                        assert(string_body_cont(out@, s@.skip(i as int)) =~~= spec_parse_string_body(
                            s@.skip(start as int),
                        ));
                    }
                } else if e == 'u' && n - i >= 6 {
                    let z0 = s.get_char(i + 2);
                    let z1 = s.get_char(i + 3);
                    let h0 = s.get_char(i + 4) as u32;
                    let h1 = s.get_char(i + 5) as u32;
                    let v0: u32 = if 48 <= h0 && h0 <= 57 {
                        h0 - 48
                    } else if 97 <= h0 && h0 <= 102 {
                        h0 - 87
                    } else {
                        16
                    };
                    let v1: u32 = if 48 <= h1 && h1 <= 57 {
                        h1 - 48
                    } else if 97 <= h1 && h1 <= 102 {
                        h1 - 87
                    } else {
                        16
                    };
                    let w: u32 = v0 * 16 + v1;
                    proof {
                        assert(here[1] == s@[i as int + 1]);
                        assert(here[2] == s@[i as int + 2]);
                        assert(here[3] == s@[i as int + 3]);
                        assert(here[4] == s@[i as int + 4]);
                        assert(here[5] == s@[i as int + 5]);
                    }
                    if z0 == '0' && z1 == '0' && v0 < 16 && v1 < 16 && w < 32 {
                        proof {
                            assert(is_lower_hex(here[4]) && hex_val(here[4]) == v0);
                            assert(is_lower_hex(here[5]) && hex_val(here[5]) == v1);
                            assert(here.skip(6) =~= s@.skip(i as int + 6));
                        }
                        out.append(ctrl_char_str(w));
                        i += 6;
                        proof {
                            assert(string_body_cont(out@, s@.skip(i as int))
                                =~~= spec_parse_string_body(s@.skip(start as int)));
                        }
                    } else {
                        proof {
                            if is_lower_hex(here[4]) {
                                assert(hex_val(here[4]) == v0);
                            }
                            if is_lower_hex(here[5]) {
                                assert(hex_val(here[5]) == v1);
                            }
                            assert(spec_parse_string_body(here) is None);
                        }
                        return None;
                    }
                } else {
                    proof {
                        assert(here[1] == s@[i as int + 1]);
                        assert(spec_parse_string_body(here) is None);
                    }
                    return None;
                }
            } else {
                proof {
                    assert(here.len() == 1);
                    assert(spec_parse_string_body(here) is None);
                }
                return None;
            }
        } else if (c as u32) < 32 {
            proof {
                assert(spec_parse_string_body(here) is None);
            }
            return None;
        } else {
            let piece = s.substring_char(i, i + 1);
            out.append(piece);
            proof {
                assert(piece@ =~= seq![s@[i as int]]);
            }
            i += 1;
            proof {
                assert(string_body_cont(out@, s@.skip(i as int)) =~~= spec_parse_string_body(
                    s@.skip(start as int),
                ));
            }
        }
    }
    proof {
        assert(s@.skip(n as int).len() == 0);
        assert(spec_parse_string_body(s@.skip(start as int)) is None);
    }
    None
}

/// The character of `s` at `i` is a decimal digit.
pub(crate) fn digit_char_at(s: &str, i: usize) -> (r: bool)
    requires
        i < s@.len(),
    ensures
        r == is_digit_char(s@[i as int]),
{
    let u = s.get_char(i) as u32;
    48 <= u && u <= 57
}

pub(crate) proof fn lemma_digit_run_of(t: Seq<char>, k: int)
    requires
        0 <= k <= t.len(),
        forall|j: int| 0 <= j < k ==> is_digit_char(#[trigger] t[j]),
        k == t.len() || !is_digit_char(t[k]),
    ensures
        spec_digit_run(t) == k,
    decreases k,
{
    if k == 0 {
    } else {
        lemma_digit_run_of(t.drop_first(), k - 1);
    }
}

/// Parse a number token beginning at `start`; yields the value and the
/// position after its digits.
fn parse_number_at(s: &str, start: usize) -> (r: Option<(i64, usize)>)
    requires
        start < s@.len(),
    ensures
        match r {
            Some(p) => start < p.1 <= s@.len() && spec_parse_number(s@.skip(start as int)) == Some(
                (TokenVal::Number(p.0 as int), s@.skip(p.1 as int)),
            ),
            None => spec_parse_number(s@.skip(start as int)) is None,
        },
{
    let n = s.unicode_len();
    let ghost here = s@.skip(start as int);
    let neg = s.get_char(start) == '-';
    let bstart: usize = if neg {
        start + 1
    } else {
        start
    };
    let ghost body = if neg {
        here.drop_first()
    } else {
        here
    };
    proof {
        assert(here[0] == s@[start as int]);
        assert(body =~= s@.skip(bstart as int));
    }
    // scan the digit run
    let mut i: usize = bstart;
    while i < n && digit_char_at(s, i)
        invariant
            bstart <= i <= n,
            n == s@.len(),
            forall|j: int| bstart <= j < i ==> is_digit_char(#[trigger] s@[j]),
        decreases n - i,
    {
        i += 1;
    }
    let run_end = i;
    proof {
        assert(forall|j: int| 0 <= j < run_end - bstart ==> is_digit_char(
            #[trigger] body[j],
        )) by {
            assert(forall|j: int| 0 <= j < run_end - bstart ==> body[j] == s@[bstart + j]);
        }
        if run_end < n {
            assert(body[run_end - bstart] == s@[run_end as int]);
        }
        lemma_digit_run_of(body, run_end - bstart as int);
    }
    if run_end == bstart {
        return None;
    }
    match crate::parse::digits_val_u64(s, bstart, run_end) {
        Some(v) => {
            proof {
                assert(s@.subrange(bstart as int, run_end as int) =~= body.take(
                    run_end - bstart as int,
                ));
                assert(body.skip(run_end - bstart as int) =~= s@.skip(run_end as int));
            }
            if neg {
                if v <= 9223372036854775808u64 {
                    let w: i64 = (-(v as i128)) as i64;
                    proof {
                        assert(spec_parse_number(here) =~~= Some(
                            (TokenVal::Number(w as int), s@.skip(run_end as int)),
                        ));
                    }
                    Some((w, run_end))
                } else {
                    None
                }
            } else {
                if v <= i64::MAX as u64 {
                    proof {
                        assert(spec_parse_number(here) =~~= Some(
                            (TokenVal::Number(v as int), s@.skip(run_end as int)),
                        ));
                    }
                    Some((v as i64, run_end))
                } else {
                    None
                }
            }
        },
        None => {
            proof {
                assert(s@.subrange(bstart as int, run_end as int) =~= body.take(
                    run_end - bstart as int,
                ));
                let k = spec_digit_run(body);
                assert(spec_digits_val(body.take(k as int)) > u64::MAX);
            }
            None
        },
    }
}

/// Parse one token beginning at `start`.
fn parse_token_at(s: &str, start: usize) -> (r: Option<(FrameToken, usize)>)
    requires
        start <= s@.len(),
    ensures
        match r {
            Some(p) => start < p.1 <= s@.len() && wf_token_val(p.0@) && spec_parse_token(
                s@.skip(start as int),
            ) == Some((p.0@, s@.skip(p.1 as int))),
            None => spec_parse_token(s@.skip(start as int)) is None,
        },
{
    let n = s.unicode_len();
    if start == n {
        proof {
            assert(s@.skip(start as int).len() == 0);
        }
        return None;
    }
    let ghost here = s@.skip(start as int);
    proof {
        assert(here[0] == s@[start as int]);
        assert(here.len() == n - start);
    }
    let c = s.get_char(start);
    if c == '"' {
        proof {
            assert(here.drop_first() =~= s@.skip(start as int + 1));
        }
        match parse_string_body_at(s, start + 1) {
            Some((t, j)) => {
                proof {
                    assert(spec_parse_token(here) =~~= Some(
                        (TokenVal::Text(t@), s@.skip(j as int)),
                    ));
                }
                Some((FrameToken::Text(t), j))
            },
            None => None,
        }
    } else if c == 't' {
        if n - start >= 4 && s.get_char(start + 1) == 'r' && s.get_char(start + 2) == 'u'
            && s.get_char(start + 3) == 'e' {
            proof {
                assert(here[1] == s@[start as int + 1]);
                assert(here[2] == s@[start as int + 2]);
                assert(here[3] == s@[start as int + 3]);
                assert(here.skip(4) =~= s@.skip(start as int + 4));
                assert(spec_parse_token(here) =~~= Some(
                    (TokenVal::Flag(true), s@.skip(start as int + 4)),
                ));
            }
            Some((FrameToken::Flag(true), start + 4))
        } else {
            proof {
                if here.len() >= 4 {
                    assert(here[1] == s@[start as int + 1]);
                    assert(here[2] == s@[start as int + 2]);
                    assert(here[3] == s@[start as int + 3]);
                }
                assert(spec_parse_flag(here) is None);
            }
            None
        }
    } else if c == 'f' {
        if n - start >= 5 && s.get_char(start + 1) == 'a' && s.get_char(start + 2) == 'l'
            && s.get_char(start + 3) == 's' && s.get_char(start + 4) == 'e' {
            proof {
                assert(here[1] == s@[start as int + 1]);
                assert(here[2] == s@[start as int + 2]);
                assert(here[3] == s@[start as int + 3]);
                assert(here[4] == s@[start as int + 4]);
                assert(here.skip(5) =~= s@.skip(start as int + 5));
                assert(spec_parse_token(here) =~~= Some(
                    (TokenVal::Flag(false), s@.skip(start as int + 5)),
                ));
            }
            Some((FrameToken::Flag(false), start + 5))
        } else {
            proof {
                if here.len() >= 5 {
                    assert(here[1] == s@[start as int + 1]);
                    assert(here[2] == s@[start as int + 2]);
                    assert(here[3] == s@[start as int + 3]);
                    assert(here[4] == s@[start as int + 4]);
                }
                assert(spec_parse_flag(here) is None);
            }
            None
        }
    } else {
        let u = c as u32;
        if c == '-' || (48 <= u && u <= 57) {
            match parse_number_at(s, start) {
                Some((v, j)) => {
                    proof {
                        assert(spec_parse_token(here) =~~= Some(
                            (TokenVal::Number(v as int), s@.skip(j as int)),
                        ));
                    }
                    Some((FrameToken::Number(v), j))
                },
                None => None,
            }
        } else {
            None
        }
    }
}

/// Continue a partial token-list parse: what the whole list yields
/// when the models `pre` have already been read and `s` remains.
pub open spec fn tokens_cont(pre: Seq<TokenVal>, s: Seq<char>) -> Option<
    (Seq<TokenVal>, Seq<char>),
> {
    match spec_parse_tokens(s) {
        Some((ts, r)) => Some((pre + ts, r)),
        None => None,
    }
}

/// Parse a comma-separated token list beginning at `start`, up to and
/// including the closing bracket.
fn parse_tokens_at(s: &str, start: usize) -> (r: Option<(Vec<FrameToken>, usize)>)
    requires
        start <= s@.len(),
    ensures
        match r {
            Some(p) => start < p.1 <= s@.len() && p.0@.len() >= 1 && wf_frame_val(
                token_models(p.0@),
            ) && spec_parse_tokens(s@.skip(start as int)) == Some(
                (token_models(p.0@), s@.skip(p.1 as int)),
            ),
            None => spec_parse_tokens(s@.skip(start as int)) is None,
        },
{
    let n = s.unicode_len();
    let mut acc: Vec<FrameToken> = Vec::new();
    let mut i: usize = start;
    proof {
        assert(token_models(acc@) =~= Seq::<TokenVal>::empty());
    }
    loop
        invariant
            start <= i <= n,
            n == s@.len(),
            i == start ==> acc@.len() == 0,
            i > start ==> acc@.len() >= 1,
            forall|k: int| 0 <= k < acc@.len() ==> wf_token_val(#[trigger] token_models(acc@)[k]),
            tokens_cont(token_models(acc@), s@.skip(i as int)) == spec_parse_tokens(
                s@.skip(start as int),
            ),
        decreases n - i,
    {
        let ghost here = s@.skip(i as int);
        match parse_token_at(s, i) {
            None => {
                proof {
                    assert(spec_parse_tokens(here) is None);
                }
                return None;
            },
            Some((t, j)) => {
                proof {
                    lemma_token_consumes(here);
                }
                if j == n {
                    proof {
                        assert(s@.skip(j as int).len() == 0);
                        assert(spec_parse_tokens(here) is None);
                    }
                    return None;
                }
                let d = s.get_char(j);
                proof {
                    assert(s@.skip(j as int)[0] == s@[j as int]);
                    assert(s@.skip(j as int).drop_first() =~= s@.skip(j as int + 1));
                }
                if d == ']' {
                    let ghost old_models = token_models(acc@);
                    acc.push(t);
                    proof {
                        assert(token_models(acc@) =~= old_models.push(t@));
                        assert(spec_parse_tokens(here) =~~= Some(
                            (seq![t@], s@.skip(j as int + 1)),
                        ));
                        assert(old_models + seq![t@] =~= token_models(acc@));
                        assert(tokens_cont(old_models, here) =~~= Some(
                            (token_models(acc@), s@.skip(j as int + 1)),
                        ));
                    }
                    return Some((acc, j + 1));
                } else if d == ',' {
                    let ghost old_models = token_models(acc@);
                    acc.push(t);
                    i = j + 1;
                    proof {
                        assert(token_models(acc@) =~= old_models.push(t@));
                        assert(forall|k: int| 0 <= k < old_models.len()
                            ==> token_models(acc@)[k] == old_models[k]);
                        let tail_parse = spec_parse_tokens(s@.skip(i as int));
                        if tail_parse is Some {
                            let (ts2, r2) = tail_parse->0;
                            assert(spec_parse_tokens(here) =~~= Some((seq![t@] + ts2, r2)));
                            assert(old_models + (seq![t@] + ts2) =~= token_models(acc@) + ts2);
                            assert(tokens_cont(token_models(acc@), s@.skip(i as int)) =~~= Some(
                                (old_models + (seq![t@] + ts2), r2),
                            ));
                        } else {
                            assert(spec_parse_tokens(here) is None);
                        }
                    }
                } else {
                    proof {
                        assert(spec_parse_tokens(here) is None);
                    }
                    return None;
                }
            },
        }
    }
}

/// Parse one serialized frame line.  Yields the frame when the whole
/// text is exactly one well-formed frame, and nothing otherwise.
pub fn parse_frame(s: &str) -> (r: Option<CommandFrame>)
    ensures
        match r {
            Some(f) => spec_parse_frame(s@) == Some(f@) && f.wf(),
            None => spec_parse_frame(s@) is None,
        },
{
    proof {
        reveal_strlit("{\"command\":[");
    }
    let n = s.unicode_len();
    if n < 12 {
        return None;
    }
    let head = s.substring_char(0, 12);
    if !crate::text::str_eq(head, "{\"command\":[") {
        proof {
            assert(head@ =~= s@.subrange(0, 12));
            assert(s@.subrange(0, 12) != spec_frame_head()) by {
                assert("{\"command\":["@ =~= spec_frame_head());
            }
        }
        return None;
    }
    proof {
        assert(head@ =~= s@.subrange(0, 12));
        assert("{\"command\":["@ =~= spec_frame_head());
        assert(s@.subrange(0, 12) == spec_frame_head());
    }
    match parse_tokens_at(s, 12) {
        Some((toks, j)) => {
            if n - j == 1 && s.get_char(j) == '}' {
                proof {
                    assert(s@.skip(j as int) =~= seq!['}']);
                }
                let f = CommandFrame { tokens: toks };
                proof {
                    assert(f@ == token_models(toks@));
                }
                Some(f)
            } else {
                proof {
                    let rest = s@.skip(j as int);
                    if j < n {
                        assert(rest[0] == s@[j as int]);
                    }
                    assert(rest != seq!['}']) by {
                        if j + 1 == n {
                            assert(rest.len() == 1);
                            assert(rest[0] != '}');
                        } else if j == n {
                            assert(rest.len() == 0);
                        } else {
                            assert(rest.len() >= 2);
                        }
                    }
                }
                None
            }
        },
        None => None,
    }
}

} // verus!
