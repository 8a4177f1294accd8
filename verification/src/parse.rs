//! Verified parsing of decimal text: process ids, selection indices and
//! the fractional-seconds values carried by player responses.

use vstd::prelude::*;
use vstd::string::StrSliceExecFns;

use crate::text::{digit_val, is_digit_char};

verus! {

/// Every character of `s` is a decimal digit.
pub open spec fn all_digits(s: Seq<char>) -> bool {
    forall|i: int| 0 <= i < s.len() ==> is_digit_char(#[trigger] s[i])
}

/// Value of a digit sequence read as a decimal number, most significant
/// digit first.
pub open spec fn spec_digits_val(s: Seq<char>) -> nat
    recommends
        all_digits(s),
    decreases s.len(),
{
    if s.len() == 0 {
        0
    } else {
        spec_digits_val(s.drop_last()) * 10 + digit_val(s.last())
    }
}

/// An unsigned decimal number as `u64::from_str` reads it, before any
/// range check: an optional leading `'+'`, then at least one digit.
pub open spec fn spec_parse_uint(s: Seq<char>) -> Option<int> {
    let body = if s.len() > 0 && s[0] == '+' {
        s.drop_first()
    } else {
        s
    };
    if body.len() >= 1 && all_digits(body) {
        Some(spec_digits_val(body) as int)
    } else {
        None
    }
}

/// A signed decimal number as `i32::from_str` reads it, before any
/// range check: an optional `'+'` or `'-'`, then at least one digit.
pub open spec fn spec_parse_int(s: Seq<char>) -> Option<int> {
    if s.len() > 0 && s[0] == '-' {
        let body = s.drop_first();
        if body.len() >= 1 && all_digits(body) {
            Some(-(spec_digits_val(body) as int))
        } else {
            None
        }
    } else {
        spec_parse_uint(s)
    }
}

/// What `str::parse::<u64>` returns: the parsed value, or nothing on a
/// malformed or out-of-range input.
pub open spec fn spec_parse_u64(s: Seq<char>) -> Option<u64> {
    match spec_parse_uint(s) {
        Some(v) => if v <= u64::MAX {
            Some(v as u64)
        } else {
            None
        },
        None => None,
    }
}

/// What `str::parse::<usize>` returns.
pub open spec fn spec_parse_usize(s: Seq<char>) -> Option<usize> {
    match spec_parse_uint(s) {
        Some(v) => if v <= usize::MAX {
            Some(v as usize)
        } else {
            None
        },
        None => None,
    }
}

/// What `str::parse::<i32>` returns.
pub open spec fn spec_parse_i32(s: Seq<char>) -> Option<i32> {
    match spec_parse_int(s) {
        Some(v) => if i32::MIN <= v <= i32::MAX {
            Some(v as i32)
        } else {
            None
        },
        None => None,
    }
}

/// Appending digits never makes the value smaller.
proof fn lemma_digits_val_prefix_le(s: Seq<char>, i: int, j: int)
    requires
        0 <= i <= j <= s.len(),
        all_digits(s),
    ensures
        spec_digits_val(s.subrange(0, i)) <= spec_digits_val(s.subrange(0, j)),
    decreases j - i,
{
    if i < j {
        lemma_digits_val_prefix_le(s, i, j - 1);
        let p = s.subrange(0, j - 1);
        let q = s.subrange(0, j);
        assert(q.drop_last() =~= p);
    }
}

/// Read the digits of `s` between `start` and `end` as a decimal value,
/// reporting nothing when a character is not a digit, the range is
/// empty, or the value does not fit in `u64`.
pub(crate) fn digits_val_u64(s: &str, start: usize, end: usize) -> (r: Option<u64>)
    requires
        start <= end <= s@.len(),
    ensures
        ({
            let sub = s@.subrange(start as int, end as int);
            r == (if sub.len() >= 1 && all_digits(sub) && spec_digits_val(sub) <= u64::MAX {
                Some(spec_digits_val(sub) as u64)
            } else {
                None::<u64>
            })
        }),
{
    let ghost sub = s@.subrange(start as int, end as int);
    if start == end {
        return None;
    }
    let mut acc: u64 = 0;
    let mut i: usize = start;
    while i < end
        invariant
            start <= i <= end <= s@.len(),
            sub == s@.subrange(start as int, end as int),
            all_digits(s@.subrange(start as int, i as int)),
            acc == spec_digits_val(s@.subrange(start as int, i as int)),
        decreases end - i,
    {
        let c = s.get_char(i);
        let u = c as u32;
        let ghost pre = s@.subrange(start as int, i as int);
        let ghost post = s@.subrange(start as int, i as int + 1);
        proof {
            assert(post.drop_last() =~= pre);
            assert(post.last() == s@[i as int]);
        }
        if u < 48 || u > 57 {
            proof {
                assert(s@[i as int] == sub[i - start]);
                assert(!is_digit_char(sub[i - start]));
            }
            return None;
        }
        let d: u64 = (u - 48) as u64;
        let wide: u128 = acc as u128 * 10 + d as u128;
        if wide > u64::MAX as u128 {
            proof {
                assert(all_digits(post));
                assert(spec_digits_val(post) == wide);
                if all_digits(sub) {
                    assert(post =~= sub.subrange(0, i - start + 1));
                    lemma_digits_val_prefix_le(sub, i - start + 1, sub.len() as int);
                    assert(sub.subrange(0, sub.len() as int) =~= sub);
                    assert(spec_digits_val(sub) > u64::MAX);
                }
            }
            return None;
        }
        acc = wide as u64;
        i += 1;
    }
    proof {
        assert(s@.subrange(start as int, i as int) =~= sub);
    }
    Some(acc)
}

/// Parse an unsigned decimal number, as `str::parse::<u64>` does.
pub fn parse_u64(s: &str) -> (r: Option<u64>)
    ensures
        r == spec_parse_u64(s@),
{
    let n = s.unicode_len();
    let start: usize = if n > 0 && s.get_char(0) == '+' {
        1
    } else {
        0
    };
    proof {
        if n > 0 && s@[0] == '+' {
            assert(s@.drop_first() =~= s@.subrange(1, n as int));
        } else {
            assert(s@ =~= s@.subrange(0, n as int));
        }
    }
    digits_val_u64(s, start, n)
}

/// Parse an unsigned decimal number, as `str::parse::<usize>` does.
pub fn parse_usize(s: &str) -> (r: Option<usize>)
    ensures
        r == spec_parse_usize(s@),
{
    match parse_u64(s) {
        Some(v) => {
            if v <= usize::MAX as u64 {
                Some(v as usize)
            } else {
                None
            }
        },
        None => None,
    }
}

/// Parse a signed decimal number, as `str::parse::<i32>` does.
pub fn parse_i32(s: &str) -> (r: Option<i32>)
    ensures
        r == spec_parse_i32(s@),
{
    let n = s.unicode_len();
    if n > 0 && s.get_char(0) == '-' {
        proof {
            assert(s@.drop_first() =~= s@.subrange(1, n as int));
        }
        match digits_val_u64(s, 1, n) {
            Some(v) => {
                if v <= i32::MAX as u64 + 1 {
                    let w: i64 = -(v as i64);
                    Some(w as i32)
                } else {
                    None
                }
            },
            None => None,
        }
    } else {
        match parse_u64(s) {
            Some(v) => {
                if v <= i32::MAX as u64 {
                    Some(v as i32)
                } else {
                    None
                }
            },
            None => None,
        }
    }
}

/// Index of the first occurrence of `c` in `s`.
pub open spec fn spec_find(s: Seq<char>, c: char) -> Option<int>
    decreases s.len(),
{
    if s.len() == 0 {
        None
    } else if s[0] == c {
        Some(0)
    } else {
        match spec_find(s.drop_first(), c) {
            Some(i) => Some(i + 1),
            None => None,
        }
    }
}

proof fn lemma_find_hit(s: Seq<char>, c: char, i: int)
    requires
        0 <= i < s.len(),
        s[i] == c,
        forall|j: int| 0 <= j < i ==> s[j] != c,
    ensures
        spec_find(s, c) == Some(i),
    decreases i,
{
    if i > 0 {
        lemma_find_hit(s.drop_first(), c, i - 1);
    }
}

proof fn lemma_find_miss(s: Seq<char>, c: char)
    requires
        forall|j: int| 0 <= j < s.len() ==> s[j] != c,
    ensures
        spec_find(s, c) is None,
    decreases s.len(),
{
    if s.len() > 0 {
        lemma_find_miss(s.drop_first(), c);
    }
}

/// Index of the first occurrence of `c` in `s`, scanning left to right.
pub fn find_char(s: &str, c: char) -> (r: Option<usize>)
    ensures
        match r {
            Some(i) => spec_find(s@, c) == Some(i as int) && i < s@.len() && s@[i as int] == c,
            None => spec_find(s@, c) is None,
        },
{
    let n = s.unicode_len();
    let mut i: usize = 0;
    while i < n
        invariant
            i <= n,
            n == s@.len(),
            forall|j: int| 0 <= j < i ==> s@[j] != c,
        decreases n - i,
    {
        if s.get_char(i) == c {
            proof {
                lemma_find_hit(s@, c, i as int);
            }
            return Some(i);
        }
        i += 1;
    }
    proof {
        lemma_find_miss(s@, c);
    }
    None
}

/// The digit of `f` at position `i`, or zero past the end.
pub open spec fn frac_digit_or_zero(f: Seq<char>, i: int) -> nat {
    if i < f.len() {
        digit_val(f[i])
    } else {
        0
    }
}

/// Milliseconds encoded by a fractional part: its first three digits,
/// zero-padded on the right; further digits are cut off.
pub open spec fn spec_frac_ms(f: Seq<char>) -> nat {
    100 * frac_digit_or_zero(f, 0) + 10 * frac_digit_or_zero(f, 1) + frac_digit_or_zero(f, 2)
}

/// A non-negative decimal seconds value, as the player's number text
/// carries it, read as whole milliseconds: digits, optionally followed
/// by a dot and at least one more digit.  Text with a sign, an exponent
/// or any other character yields nothing.
pub open spec fn spec_parse_seconds_ms(s: Seq<char>) -> Option<int> {
    match spec_find(s, '.') {
        None => if s.len() >= 1 && all_digits(s) {
            Some((spec_digits_val(s) * 1000) as int)
        } else {
            None
        },
        Some(i) => {
            let ip = s.subrange(0, i);
            let fp = s.subrange(i + 1, s.len() as int);
            if ip.len() >= 1 && all_digits(ip) && fp.len() >= 1 && all_digits(fp) {
                Some((spec_digits_val(ip) * 1000 + spec_frac_ms(fp)) as int)
            } else {
                None
            }
        },
    }
}

/// Bounded form of [`spec_parse_seconds_ms`]: values beyond `u64::MAX`
/// milliseconds yield nothing.
pub open spec fn spec_seconds_ms_u64(s: Seq<char>) -> Option<u64> {
    match spec_parse_seconds_ms(s) {
        Some(v) => if v <= u64::MAX {
            Some(v as u64)
        } else {
            None
        },
        None => None,
    }
}

/// Read a decimal seconds text as whole milliseconds.
pub fn parse_seconds_ms(s: &str) -> (r: Option<u64>)
    ensures
        r == spec_seconds_ms_u64(s@),
{
    let n = s.unicode_len();
    match find_char(s, '.') {
        None => {
            match digits_val_u64(s, 0, n) {
                Some(v) => {
                    proof {
                        assert(s@.subrange(0, n as int) =~= s@);
                    }
                    let wide: u128 = v as u128 * 1000;
                    if wide <= u64::MAX as u128 {
                        Some(wide as u64)
                    } else {
                        None
                    }
                },
                None => {
                    proof {
                        assert(s@.subrange(0, n as int) =~= s@);
                    }
                    None
                },
            }
        },
        Some(dot) => {
            let ghost ip = s@.subrange(0, dot as int);
            let ghost fp = s@.subrange(dot as int + 1, s@.len() as int);
            // every character after the dot must be a digit
            let mut k: usize = dot + 1;
            while k < n
                invariant
                    dot < k <= n,
                    n == s@.len(),
                    spec_find(s@, '.') == Some(dot as int),
                    fp == s@.subrange(dot as int + 1, s@.len() as int),
                    forall|j: int| dot < j < k ==> is_digit_char(#[trigger] s@[j]),
                decreases n - k,
            {
                let u = s.get_char(k) as u32;
                if u < 48 || u > 57 {
                    proof {
                        assert(fp[k - dot - 1] == s@[k as int]);
                        assert(!all_digits(fp));
                    }
                    return None;
                }
                k += 1;
            }
            proof {
                assert(forall|j: int| 0 <= j < fp.len() ==> fp[j] == s@[dot + 1 + j]);
                assert(all_digits(fp));
            }
            if dot + 1 == n {
                // a trailing dot with no digits after it
                return None;
            }
            match digits_val_u64(s, 0, dot) {
                Some(v) => {
                    let rem: usize = n - (dot + 1);
                    let d0: u64 = (s.get_char(dot + 1) as u32 - 48) as u64;
                    let d1: u64 = if rem >= 2 {
                        (s.get_char(dot + 2) as u32 - 48) as u64
                    } else {
                        0
                    };
                    let d2: u64 = if rem >= 3 {
                        (s.get_char(dot + 3) as u32 - 48) as u64
                    } else {
                        0
                    };
                    let frac: u64 = 100 * d0 + 10 * d1 + d2;
                    proof {
                        assert(fp[0] == s@[dot + 1]);
                        if rem >= 2 {
                            assert(fp[1] == s@[dot + 2]);
                        }
                        if rem >= 3 {
                            assert(fp[2] == s@[dot + 3]);
                        }
                        assert(frac == spec_frac_ms(fp));
                    }
                    let wide: u128 = v as u128 * 1000 + frac as u128;
                    if wide <= u64::MAX as u128 {
                        Some(wide as u64)
                    } else {
                        None
                    }
                },
                None => None,
            }
        },
    }
}

} // verus!
