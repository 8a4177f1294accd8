//! The result cache's bookkeeping: how a request key becomes a file
//! name, when an entry is still fresh against the time-to-live, and
//! the envelope that wraps a payload with its write time.
//!
//! The envelope is this crate's own format.  It is written and read
//! back by one pair of verified functions, and reading what was
//! written is proved to give the write time and the payload back.
//! Reading and writing the files themselves is I/O and happens
//! outside this crate.

use vstd::prelude::*;
use vstd::string::{StrSliceExecFns, StringExecFns};

use crate::frame::{
    digit_char_at, lemma_digit_run_exact, lemma_digit_run_of, lemma_udec_val, spec_digit_run,
};
use crate::parse::{digits_val_u64, spec_digits_val};
use crate::text::{lemma_udec_digits, push_u64_decimal, spec_udec, str_eq};

verus! {

/// A name for what base64's standard encoding returns for a key: it
/// depends on the bytes alone.
pub uninterp spec fn b64_of(s: Seq<char>) -> Seq<char>;

/// Relies on base64's `STANDARD` engine `encode`: a reversible
/// encoding of the key, safe to use as a file name.
#[verifier::external_body]
fn encode_key(s: &str) -> (r: String)
    ensures
        r@ == b64_of(s@),
{
    base64::Engine::encode(&base64::engine::general_purpose::STANDARD, s.as_bytes())
}

/// One cache entry: a payload and the time it was written, in
/// milliseconds since the epoch.
#[derive(Debug, PartialEq, Eq)]
pub struct CacheEntry<T> {
    /// Write time, milliseconds since the epoch.
    pub timestamp_millis: u64,
    /// The cached payload.
    pub data: T,
}

/// The opening text of every entry file, naming the write time.
pub open spec fn spec_entry_prefix() -> Seq<char> {
    seq![
        '{',
        '"',
        't',
        'i',
        'm',
        'e',
        's',
        't',
        'a',
        'm',
        'p',
        '_',
        'm',
        'i',
        'l',
        'l',
        'i',
        's',
        '"',
        ':',
    ]
}

/// The text between the write time and the payload.
pub open spec fn spec_entry_mid() -> Seq<char> {
    seq![',', '"', 'd', 'a', 't', 'a', '"', ':']
}

/// The full text of an entry file: the envelope around a payload that
/// is already JSON text, with its write time.
pub open spec fn spec_entry_text(timestamp_millis: u64, payload: Seq<char>) -> Seq<char> {
    spec_entry_prefix() + spec_udec(timestamp_millis as nat) + spec_entry_mid() + payload + seq![
        '}',
    ]
}

/// What an entry file's text holds: the write time and the payload,
/// when the text has exactly the envelope's shape.
pub open spec fn spec_parse_entry(s: Seq<char>) -> Option<(u64, Seq<char>)> {
    if s.len() >= 20 && s.subrange(0, 20) == spec_entry_prefix() {
        let k = spec_digit_run(s.skip(20)) as int;
        let v = spec_digits_val(s.skip(20).take(k));
        if k >= 1 && 20 + k + 8 < s.len() && v <= u64::MAX && s.subrange(20 + k, 28 + k)
            == spec_entry_mid() && s.last() == '}' {
            Some((v as u64, s.subrange(28 + k, s.len() - 1)))
        } else {
            None
        }
    } else {
        None
    }
}

/// Write the entry envelope.
pub fn entry_json(timestamp_millis: u64, payload: &str) -> (r: String)
    ensures
        r@ == spec_entry_text(timestamp_millis, payload@),
{
    proof {
        reveal_strlit("{\"timestamp_millis\":");
        reveal_strlit(",\"data\":");
        reveal_strlit("}");
    }
    let mut r = String::from_str("{\"timestamp_millis\":");
    push_u64_decimal(timestamp_millis, &mut r);
    r.append(",\"data\":");
    r.append(payload);
    r.append("}");
    proof {
        assert(r@ =~= spec_entry_text(timestamp_millis, payload@));
    }
    r
}

/// Read the entry envelope back: the write time and the payload, or
/// nothing when the text does not have the envelope's shape.
pub fn parse_entry(s: &str) -> (r: Option<(u64, String)>)
    ensures
        match r {
            Some(p) => spec_parse_entry(s@) == Some((p.0, p.1@)),
            None => spec_parse_entry(s@) is None,
        },
{
    proof {
        reveal_strlit("{\"timestamp_millis\":");
        reveal_strlit(",\"data\":");
    }
    let n = s.unicode_len();
    if n < 20 {
        return None;
    }
    let head = s.substring_char(0, 20);
    if !str_eq(head, "{\"timestamp_millis\":") {
        proof {
            assert(head@ =~= s@.subrange(0, 20));
            assert("{\"timestamp_millis\":"@ =~= spec_entry_prefix());
        }
        return None;
    }
    proof {
        assert(head@ =~= s@.subrange(0, 20));
        assert("{\"timestamp_millis\":"@ =~= spec_entry_prefix());
        assert(s@.subrange(0, 20) == spec_entry_prefix());
    }
    // scan the write time's digit run
    let mut i: usize = 20;
    while i < n && digit_char_at(s, i)
        invariant
            20 <= i <= n,
            n == s@.len(),
            forall|j: int| 20 <= j < i ==> crate::text::is_digit_char(#[trigger] s@[j]),
        decreases n - i,
    {
        i += 1;
    }
    let run_end = i;
    let ghost t = s@.skip(20);
    proof {
        assert(forall|j: int| 0 <= j < run_end - 20 ==> crate::text::is_digit_char(
            #[trigger] t[j],
        )) by {
            assert(forall|j: int| 0 <= j < run_end - 20 ==> t[j] == s@[20 + j]);
        }
        if run_end < n {
            assert(t[run_end - 20] == s@[run_end as int]);
        }
        lemma_digit_run_of(t, run_end - 20);
    }
    if run_end == 20 {
        return None;
    }
    if n - run_end < 9 {
        return None;
    }
    proof {
        assert(s@.subrange(20, run_end as int) =~= t.take(run_end - 20));
    }
    match digits_val_u64(s, 20, run_end) {
        None => None,
        Some(v) => {
            let mid = s.substring_char(run_end, run_end + 8);
            if !str_eq(mid, ",\"data\":") {
                proof {
                    assert(mid@ =~= s@.subrange(run_end as int, run_end + 8));
                    assert(",\"data\":"@ =~= spec_entry_mid());
                }
                return None;
            }
            if s.get_char(n - 1) != '}' {
                return None;
            }
            let payload = s.substring_char(run_end + 8, n - 1);
            proof {
                assert(mid@ =~= s@.subrange(run_end as int, run_end + 8));
                assert(",\"data\":"@ =~= spec_entry_mid());
                assert(payload@ =~= s@.subrange(run_end + 8, n - 1));
                assert(s@.last() == s@[n - 1]);
            }
            Some((v, String::from_str(payload)))
        },
    }
}

/// What this crate writes, it reads back: the envelope of any write
/// time and payload parses to exactly that pair.
pub proof fn lemma_entry_round_trip(timestamp_millis: u64, payload: Seq<char>)
    ensures
        spec_parse_entry(spec_entry_text(timestamp_millis, payload)) == Some(
            (timestamp_millis, payload),
        ),
{
    let s = spec_entry_text(timestamp_millis, payload);
    let u = spec_udec(timestamp_millis as nat);
    let rest0 = spec_entry_mid() + payload + seq!['}'];
    lemma_udec_digits(timestamp_millis as nat);
    assert(s.subrange(0, 20) =~= spec_entry_prefix());
    assert(s.skip(20) =~= u + rest0);
    assert(rest0[0] == ',');
    lemma_digit_run_exact(u, rest0);
    let k = u.len() as int;
    assert(s.skip(20).take(k) =~= u);
    lemma_udec_val(timestamp_millis as nat);
    assert(s.subrange(20 + k, 28 + k) =~= spec_entry_mid());
    assert(s.last() == '}');
    assert(s.subrange(28 + k, s.len() - 1) =~= payload);
    assert(spec_parse_entry(s) =~~= Some((timestamp_millis, payload)));
}

/// The cache: a directory of entry files and a time-to-live.
#[derive(Debug, PartialEq, Eq)]
pub struct Cache {
    dir: String,
    ttl_ms: u64,
}

impl Cache {
    /// The directory the entries live in.
    pub closed spec fn spec_dir(&self) -> Seq<char> {
        self.dir@
    }

    /// The time-to-live, in milliseconds.
    pub closed spec fn spec_ttl_ms(&self) -> u64 {
        self.ttl_ms
    }

    /// A cache over `dir` whose entries live for `ttl_ms`
    /// milliseconds.
    pub fn new(dir: String, ttl_ms: u64) -> (r: Cache)
        ensures
            r.spec_dir() == dir@,
            r.spec_ttl_ms() == ttl_ms,
    {
        Cache { dir, ttl_ms }
    }

    /// The file a key's entry is stored under: the key's reversible
    /// encoding, in the cache directory.
    pub fn key_path(&self, key: &str) -> (r: String)
        ensures
            r@ == self.spec_dir() + "/"@ + b64_of(key@) + ".json"@,
    {
        let mut r = self.dir.clone();
        r.append("/");
        let safe = encode_key(key);
        r.append(safe.as_str());
        r.append(".json");
        proof {
            assert(r@ =~= self.spec_dir() + "/"@ + b64_of(key@) + ".json"@);
        }
        r
    }

    /// An entry written at `ts_ms` is still fresh at `now_ms`: no
    /// older than the time-to-live.  An entry dated in the future is
    /// not older than it, so it counts as fresh.
    pub fn is_fresh(&self, now_ms: u64, ts_ms: u64) -> (r: bool)
        ensures
            r == (now_ms <= ts_ms + self.spec_ttl_ms()),
    {
        if ts_ms >= now_ms {
            true
        } else {
            now_ms - ts_ms <= self.ttl_ms
        }
    }

    /// Keep an entry's payload exactly when its write time is still
    /// fresh at `now_ms`.
    pub fn accept_entry(&self, timestamp_millis: u64, payload: String, now_ms: u64) -> (r: Option<
        String,
    >)
        ensures
            now_ms <= timestamp_millis + self.spec_ttl_ms() ==> r == Some(payload),
            now_ms > timestamp_millis + self.spec_ttl_ms() ==> r is None,
    {
        if self.is_fresh(now_ms, timestamp_millis) {
            Some(payload)
        } else {
            None
        }
    }

    /// The payload of an entry file read at `now_ms`: exactly the
    /// payload of a text with the envelope's shape whose write time
    /// is still fresh.  A missing file, a text of any other shape, or
    /// a lapsed write time never fails the caller: the cache simply
    /// has nothing.
    pub fn fresh_payload(&self, raw: &Option<String>, now_ms: u64) -> (r: Option<String>)
        ensures
            match raw {
                None => r is None,
                Some(text) => match spec_parse_entry(text@) {
                    Some(e) => if now_ms <= e.0 + self.spec_ttl_ms() {
                        r matches Some(p) && p@ == e.1
                    } else {
                        r is None
                    },
                    None => r is None,
                },
            },
    {
        match raw {
            None => None,
            Some(text) => {
                match parse_entry(text.as_str()) {
                    Some((ts, payload)) => self.accept_entry(ts, payload, now_ms),
                    None => None,
                }
            },
        }
    }
}

} // verus!
