//! The configuration: one persisted credential, its JSON file form,
//! and the decision that guards headless use.
//!
//! The file format this crate writes is its own one-field grammar,
//! read back by a verified parser, and loading what was saved is
//! proved to give the credential back.  A file of any other shape —
//! hand-edited, or written by another tool — falls back to a tolerant
//! JSON decode, and an unusable file to the default.  Reading and
//! writing the file, and validating the credential against the
//! network, happen outside this crate.

use vstd::prelude::*;
use vstd::string::{StrSliceExecFns, StringExecFns};

use crate::frame::{
    lemma_escape_roundtrip, parse_string_body_at, push_escaped, spec_escape,
    spec_parse_string_body,
};
use crate::json::{config_api_key, config_key_of};

verus! {

/// The application configuration.
#[derive(Debug, PartialEq, Eq)]
pub struct Config {
    api_key: Option<String>,
}

impl View for Config {
    type V = Option<Seq<char>>;

    closed spec fn view(&self) -> Option<Seq<char>> {
        match self.api_key {
            Some(k) => Some(k@),
            None => None,
        }
    }
}

impl Default for Config {
    /// A configuration without a credential.
    fn default() -> (r: Config)
        ensures
            r@ is None,
    {
        Config { api_key: None }
    }
}

/// Failure to come up with a usable credential.
#[derive(Debug, PartialEq, Eq)]
pub enum ConfigError {
    /// No credential is stored, or the stored one did not validate.
    NoValidKey,
}

impl ConfigError {
    /// A description for the command-line caller.
    pub fn message(&self) -> (r: String)
        ensures
            r@ == "No valid API key available. Use --api to set one."@,
    {
        String::from_str("No valid API key available. Use --api to set one.")
    }
}

/// The opening text of the configuration file, naming its one field.
pub open spec fn spec_config_prefix() -> Seq<char> {
    seq!['{', '\n', ' ', ' ', '"', 'a', 'p', 'i', '_', 'k', 'e', 'y', '"', ':', ' ']
}

/// The JSON text the configuration file holds for a credential state:
/// the pretty-printed single-field object.
pub open spec fn spec_config_json(key: Option<Seq<char>>) -> Seq<char> {
    spec_config_prefix() + (match key {
        Some(k) => seq!['"'] + spec_escape(k) + seq!['"'],
        None => seq!['n', 'u', 'l', 'l'],
    }) + seq!['\n', '}']
}

/// The credential state a configuration text holds, when the text has
/// exactly the shape this crate writes: an explicit `null`, or a
/// quoted, escaped key.
pub open spec fn spec_parse_config(s: Seq<char>) -> Option<Option<Seq<char>>> {
    if s.len() >= 15 && s.subrange(0, 15) == spec_config_prefix() {
        let rest = s.skip(15);
        if rest == seq!['n', 'u', 'l', 'l', '\n', '}'] {
            Some(None)
        } else if rest.len() >= 1 && rest[0] == '"' {
            match spec_parse_string_body(rest.drop_first()) {
                Some((k, r2)) => if r2 == seq!['\n', '}'] {
                    Some(Some(k))
                } else {
                    None
                },
                None => None,
            }
        } else {
            None
        }
    } else {
        None
    }
}

/// Read a configuration text of this crate's own shape.
fn parse_config_text(s: &str) -> (r: Option<Option<String>>)
    ensures
        match r {
            Some(k) => spec_parse_config(s@) == Some(
                match k {
                    Some(ks) => Some(ks@),
                    None => None,
                },
            ),
            None => spec_parse_config(s@) is None,
        },
{
    proof {
        reveal_strlit("{\n  \"api_key\": ");
        reveal_strlit("null\n}");
    }
    let n = s.unicode_len();
    if n < 15 {
        return None;
    }
    let head = s.substring_char(0, 15);
    proof {
        assert(head@ =~= s@.subrange(0, 15));
        assert("{\n  \"api_key\": "@ =~= spec_config_prefix());
    }
    if !crate::text::str_eq(head, "{\n  \"api_key\": ") {
        return None;
    }
    let ghost rest = s@.skip(15);
    if n == 21 {
        let tail = s.substring_char(15, 21);
        proof {
            assert(tail@ =~= rest);
            assert("null\n}"@ =~= seq!['n', 'u', 'l', 'l', '\n', '}']);
        }
        if crate::text::str_eq(tail, "null\n}") {
            return Some(None);
        }
    }
    proof {
        if rest == seq!['n', 'u', 'l', 'l', '\n', '}'] {
            assert(rest.len() == 6);
            assert(n == 21);
        }
    }
    if n == 15 {
        proof {
            assert(rest.len() == 0);
        }
        return None;
    }
    if s.get_char(15) != '"' {
        proof {
            assert(rest[0] == s@[15]);
            if rest == seq!['n', 'u', 'l', 'l', '\n', '}'] {
                assert(rest[0] == 'n');
            }
        }
        return None;
    }
    proof {
        assert(rest[0] == s@[15]);
        if rest == seq!['n', 'u', 'l', 'l', '\n', '}'] {
            assert(rest[0] == 'n');
        }
        assert(rest.drop_first() =~= s@.skip(16));
    }
    match parse_string_body_at(s, 16) {
        Some((k, j)) => {
            let ghost r2 = s@.skip(j as int);
            if n - j == 2 && s.get_char(j) == '\n' && s.get_char(j + 1) == '}' {
                proof {
                    assert(r2 =~= seq!['\n', '}']);
                }
                Some(Some(k))
            } else {
                proof {
                    if j < n {
                        assert(r2[0] == s@[j as int]);
                    }
                    if j + 1 < n {
                        assert(r2[1] == s@[j + 1]);
                    }
                    assert(r2 != seq!['\n', '}']) by {
                        if r2 =~= seq!['\n', '}'] {
                            assert(r2.len() == 2);
                            assert(n - j == 2);
                            assert(s@[j as int] == '\n' && s@[j + 1] == '}');
                        }
                    }
                }
                None
            }
        },
        None => None,
    }
}

/// Saving and loading round-trip the credential: the text that
/// [`Config::to_json`] writes parses back, by this crate's own
/// parser, to the same credential state.
pub proof fn lemma_config_round_trip(key: Option<Seq<char>>)
    ensures
        spec_parse_config(spec_config_json(key)) == Some(key),
{
    let s = spec_config_json(key);
    assert(s.subrange(0, 15) =~= spec_config_prefix());
    let rest = s.skip(15);
    match key {
        None => {
            assert(rest =~= seq!['n', 'u', 'l', 'l', '\n', '}']);
            assert(spec_parse_config(s) =~~= Some(Option::<Seq<char>>::None));
        },
        Some(k) => {
            assert(rest =~= seq!['"'] + spec_escape(k) + seq!['"'] + seq!['\n', '}']);
            assert(rest[0] == '"');
            assert(rest != seq!['n', 'u', 'l', 'l', '\n', '}']);
            assert(rest.drop_first() =~= spec_escape(k) + seq!['"'] + seq!['\n', '}']);
            lemma_escape_roundtrip(k, seq!['\n', '}']);
            assert(spec_parse_config(s) =~~= Some(Some(k)));
        },
    }
}

impl Config {
    /// The stored credential, if any.
    pub fn api_key(&self) -> (r: Option<&String>)
        ensures
            match r {
                Some(k) => self@ == Some(k@),
                None => self@ is None,
            },
    {
        self.api_key.as_ref()
    }

    /// Store a credential, replacing any prior one.
    pub fn set_api_key(&mut self, key: String)
        ensures
            final(self)@ == Some(key@),
    {
        self.api_key = Some(key);
    }

    /// The configuration a file's text holds: exactly the credential
    /// state of a text in this crate's own shape; for any other text,
    /// whatever the tolerant JSON decode finds, and for an absent or
    /// unusable file the default.  Loading never fails.
    pub fn from_json(content: &Option<String>) -> (r: Config)
        ensures
            match content {
                None => r@ is None,
                Some(text) => r@ == (match spec_parse_config(text@) {
                    Some(k) => k,
                    None => config_key_of(text@),
                }),
            },
    {
        match content {
            None => Config { api_key: None },
            Some(text) => {
                match parse_config_text(text.as_str()) {
                    Some(k) => Config { api_key: k },
                    None => Config { api_key: config_api_key(text.as_str()) },
                }
            },
        }
    }

    /// The JSON text that saving this configuration writes.
    pub fn to_json(&self) -> (r: String)
        ensures
            r@ == spec_config_json(self@),
    {
        proof {
            reveal_strlit("{\n  \"api_key\": ");
            reveal_strlit("null");
            reveal_strlit("\n}");
            reveal_strlit("\"");
        }
        let mut r = String::from_str("{\n  \"api_key\": ");
        match &self.api_key {
            Some(k) => {
                r.append("\"");
                push_escaped(k.as_str(), &mut r);
                r.append("\"");
            },
            None => {
                r.append("null");
            },
        }
        r.append("\n}");
        proof {
            assert(r@ =~= spec_config_json(self@));
        }
        r
    }

    /// The credential for headless use: the stored key when one is
    /// stored and it validated; an error otherwise.
    pub fn ensure_api_key(&self, validated: bool) -> (r: Result<String, ConfigError>)
        ensures
            match r {
                Ok(k) => self@ == Some(k@) && validated,
                Err(_) => self@ is None || !validated,
            },
    {
        match &self.api_key {
            Some(k) => {
                if validated {
                    Ok(k.clone())
                } else {
                    Err(ConfigError::NoValidKey)
                }
            },
            None => Err(ConfigError::NoValidKey),
        }
    }
}

/// The configuration file's path inside the application's
/// configuration directory.
pub fn config_file(config_dir: &str) -> (r: String)
    ensures
        r@ == config_dir@ + "/config.json"@,
{
    let mut r = String::from_str(config_dir);
    r.append("/config.json");
    r
}

} // verus!
