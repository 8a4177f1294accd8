//! Characters, decimal digits and small string utilities shared by the
//! wire-format, display and parsing modules.

use vstd::prelude::*;
use vstd::string::{StrSliceExecFns, StringExecFns};

verus! {

/// `c` is one of the ten ASCII decimal digits.
pub open spec fn is_digit_char(c: char) -> bool {
    '0' as u32 <= c as u32 && c as u32 <= '9' as u32
}

/// Numeric value of a decimal digit character; zero on any other
/// character.
pub open spec fn digit_val(c: char) -> nat {
    if is_digit_char(c) {
        (c as u32 - '0' as u32) as nat
    } else {
        0
    }
}

/// The digit character for a value below ten.
pub open spec fn char_of_digit(d: int) -> char
    recommends
        0 <= d < 10,
{
    if d == 0 {
        '0'
    } else if d == 1 {
        '1'
    } else if d == 2 {
        '2'
    } else if d == 3 {
        '3'
    } else if d == 4 {
        '4'
    } else if d == 5 {
        '5'
    } else if d == 6 {
        '6'
    } else if d == 7 {
        '7'
    } else if d == 8 {
        '8'
    } else {
        '9'
    }
}

/// Decimal digit sequence of a natural number, most significant digit
/// first, with no leading zero (a single `'0'` for zero).
pub open spec fn spec_udec(n: nat) -> Seq<char>
    decreases n,
{
    if n < 10 {
        seq![char_of_digit(n as int)]
    } else {
        spec_udec(n / 10) + seq![char_of_digit((n % 10) as int)]
    }
}

/// Decimal digit sequence of an integer: a minus sign for negative
/// values, then the digits of the magnitude.
pub open spec fn spec_idec(i: int) -> Seq<char> {
    if i < 0 {
        seq!['-'] + spec_udec((-i) as nat)
    } else {
        spec_udec(i as nat)
    }
}

pub proof fn lemma_udec_digits(n: nat)
    ensures
        spec_udec(n).len() >= 1,
        forall|k: int| 0 <= k < spec_udec(n).len() ==> is_digit_char(#[trigger] spec_udec(n)[k]),
        spec_udec(n)[0] != '0' || n < 10,
    decreases n,
{
    if n >= 10 {
        lemma_udec_digits(n / 10);
    }
}

/// `c` is a lower-case hexadecimal digit.
pub open spec fn is_lower_hex(c: char) -> bool {
    is_digit_char(c) || ('a' as u32 <= c as u32 && c as u32 <= 'f' as u32)
}

/// Numeric value of a lower-case hexadecimal digit; zero on any other
/// character.
pub open spec fn hex_val(c: char) -> nat {
    if is_digit_char(c) {
        digit_val(c)
    } else if 'a' as u32 <= c as u32 && c as u32 <= 'f' as u32 {
        (c as u32 - 'a' as u32 + 10) as nat
    } else {
        0
    }
}

/// The lower-case hexadecimal digit character for a value below
/// sixteen.
pub open spec fn hex_char(d: int) -> char
    recommends
        0 <= d < 16,
{
    if d < 10 {
        char_of_digit(d)
    } else if d == 10 {
        'a'
    } else if d == 11 {
        'b'
    } else if d == 12 {
        'c'
    } else if d == 13 {
        'd'
    } else if d == 14 {
        'e'
    } else {
        'f'
    }
}

pub proof fn lemma_hex_char_roundtrip(d: int)
    requires
        0 <= d < 16,
    ensures
        is_lower_hex(hex_char(d)),
        hex_val(hex_char(d)) == d,
{
}

/// The one-character text of a lower-case hexadecimal digit.
pub(crate) fn hex_str(d: u32) -> (r: &'static str)
    requires
        d < 16,
    ensures
        r@ =~= seq![hex_char(d as int)],
{
    if d < 10 {
        digit_str(d as u64)
    } else {
        proof {
            reveal_strlit("a");
            reveal_strlit("b");
            reveal_strlit("c");
            reveal_strlit("d");
            reveal_strlit("e");
            reveal_strlit("f");
        }
        if d == 10 {
            "a"
        } else if d == 11 {
            "b"
        } else if d == 12 {
            "c"
        } else if d == 13 {
            "d"
        } else if d == 14 {
            "e"
        } else {
            "f"
        }
    }
}

/// The one-character text of a control character, for unescaping.
pub(crate) fn ctrl_char_str(v: u32) -> (r: &'static str)
    requires
        v < 32,
    ensures
        r@ =~= seq![(v as char)],
{
    let r: &'static str = if v == 0 {
        "\u{0}"
    } else if v == 1 {
        "\u{1}"
    } else if v == 2 {
        "\u{2}"
    } else if v == 3 {
        "\u{3}"
    } else if v == 4 {
        "\u{4}"
    } else if v == 5 {
        "\u{5}"
    } else if v == 6 {
        "\u{6}"
    } else if v == 7 {
        "\u{7}"
    } else if v == 8 {
        "\u{8}"
    } else if v == 9 {
        "\u{9}"
    } else if v == 10 {
        "\u{a}"
    } else if v == 11 {
        "\u{b}"
    } else if v == 12 {
        "\u{c}"
    } else if v == 13 {
        "\u{d}"
    } else if v == 14 {
        "\u{e}"
    } else if v == 15 {
        "\u{f}"
    } else if v == 16 {
        "\u{10}"
    } else if v == 17 {
        "\u{11}"
    } else if v == 18 {
        "\u{12}"
    } else if v == 19 {
        "\u{13}"
    } else if v == 20 {
        "\u{14}"
    } else if v == 21 {
        "\u{15}"
    } else if v == 22 {
        "\u{16}"
    } else if v == 23 {
        "\u{17}"
    } else if v == 24 {
        "\u{18}"
    } else if v == 25 {
        "\u{19}"
    } else if v == 26 {
        "\u{1a}"
    } else if v == 27 {
        "\u{1b}"
    } else if v == 28 {
        "\u{1c}"
    } else if v == 29 {
        "\u{1d}"
    } else if v == 30 {
        "\u{1e}"
    } else {
        "\u{1f}"
    };
    proof {
        reveal_strlit("\u{0}");
        reveal_strlit("\u{1}");
        reveal_strlit("\u{2}");
        reveal_strlit("\u{3}");
        reveal_strlit("\u{4}");
        reveal_strlit("\u{5}");
        reveal_strlit("\u{6}");
        reveal_strlit("\u{7}");
        reveal_strlit("\u{8}");
        reveal_strlit("\u{9}");
        reveal_strlit("\u{a}");
        reveal_strlit("\u{b}");
        reveal_strlit("\u{c}");
        reveal_strlit("\u{d}");
        reveal_strlit("\u{e}");
        reveal_strlit("\u{f}");
        reveal_strlit("\u{10}");
        reveal_strlit("\u{11}");
        reveal_strlit("\u{12}");
        reveal_strlit("\u{13}");
        reveal_strlit("\u{14}");
        reveal_strlit("\u{15}");
        reveal_strlit("\u{16}");
        reveal_strlit("\u{17}");
        reveal_strlit("\u{18}");
        reveal_strlit("\u{19}");
        reveal_strlit("\u{1a}");
        reveal_strlit("\u{1b}");
        reveal_strlit("\u{1c}");
        reveal_strlit("\u{1d}");
        reveal_strlit("\u{1e}");
        reveal_strlit("\u{1f}");
        assert(r@.len() == 1);
        assert(r@[0] as u32 == v);
        vstd::utf8::char_u32_cast(r@[0], v);
        assert(r@ =~= seq![(v as char)]);
    }
    r
}

/// A two-character zero-padded decimal rendering, as `{:02}` formatting
/// gives it: numbers below ten get a leading zero, larger numbers keep
/// all their digits.
pub open spec fn spec_pad2(n: nat) -> Seq<char> {
    if n < 10 {
        seq!['0', char_of_digit(n as int)]
    } else {
        spec_udec(n)
    }
}

fn digit_str(d: u64) -> (r: &'static str)
    requires
        d < 10,
    ensures
        r@ =~= seq![char_of_digit(d as int)],
{
    proof {
        reveal_strlit("0");
        reveal_strlit("1");
        reveal_strlit("2");
        reveal_strlit("3");
        reveal_strlit("4");
        reveal_strlit("5");
        reveal_strlit("6");
        reveal_strlit("7");
        reveal_strlit("8");
        reveal_strlit("9");
    }
    if d == 0 {
        "0"
    } else if d == 1 {
        "1"
    } else if d == 2 {
        "2"
    } else if d == 3 {
        "3"
    } else if d == 4 {
        "4"
    } else if d == 5 {
        "5"
    } else if d == 6 {
        "6"
    } else if d == 7 {
        "7"
    } else if d == 8 {
        "8"
    } else {
        "9"
    }
}

/// Append the decimal rendering of `n` to `out`.
pub fn push_u64_decimal(n: u64, out: &mut String)
    ensures
        final(out)@ == old(out)@ + spec_udec(n as nat),
    decreases n,
{
    if n >= 10 {
        push_u64_decimal(n / 10, out);
    }
    let ghost mid = out@;
    out.append(digit_str(n % 10));
    proof {
        if n < 10 {
            assert(out@ =~= old(out)@ + spec_udec(n as nat));
        } else {
            assert(mid == old(out)@ + spec_udec((n / 10) as nat));
            assert(spec_udec(n as nat) == spec_udec((n / 10) as nat) + seq![
                char_of_digit((n % 10) as int),
            ]);
            assert(out@ =~= old(out)@ + spec_udec(n as nat));
        }
    }
}

/// The decimal rendering of `n` as a fresh string.
pub fn u64_to_decimal(n: u64) -> (r: String)
    ensures
        r@ == spec_udec(n as nat),
{
    let mut out = String::new();
    push_u64_decimal(n, &mut out);
    proof {
        assert(out@ =~= spec_udec(n as nat));
    }
    out
}

/// Append the decimal rendering of `i`, with a sign when negative.
pub fn push_i64_decimal(i: i64, out: &mut String)
    ensures
        final(out)@ == old(out)@ + spec_idec(i as int),
{
    if i < 0 {
        proof {
            reveal_strlit("-");
        }
        out.append("-");
        let m: u64 = (-(i as i128)) as u64;
        push_u64_decimal(m, out);
        proof {
            assert(m as nat == (-(i as int)) as nat);
            assert(out@ =~= old(out)@ + spec_idec(i as int));
        }
    } else {
        push_u64_decimal(i as u64, out);
    }
}

/// Append a two-digit zero-padded rendering of `n` to `out`.
pub fn push_pad2(n: u64, out: &mut String)
    ensures
        final(out)@ == old(out)@ + spec_pad2(n as nat),
{
    if n < 10 {
        proof {
            reveal_strlit("0");
        }
        out.append("0");
        push_u64_decimal(n, out);
        proof {
            assert(spec_udec(n as nat) =~= seq![char_of_digit(n as int)]);
            assert(out@ =~= old(out)@ + spec_pad2(n as nat));
        }
    } else {
        push_u64_decimal(n, out);
    }
}

/// `c` has Unicode's White_Space property, the set `str::trim`
/// removes.
pub open spec fn is_space_char(c: char) -> bool {
    let u = c as u32;
    (9 <= u && u <= 13) || u == 32 || u == 133 || u == 160 || u == 0x1680 || (0x2000 <= u && u
        <= 0x200A) || u == 0x2028 || u == 0x2029 || u == 0x202F || u == 0x205F || u == 0x3000
}

/// `s` without its leading whitespace.
pub open spec fn spec_trim_start(s: Seq<char>) -> Seq<char>
    decreases s.len(),
{
    if s.len() > 0 && is_space_char(s[0]) {
        spec_trim_start(s.drop_first())
    } else {
        s
    }
}

/// `s` without its trailing whitespace.
pub open spec fn spec_trim_end(s: Seq<char>) -> Seq<char>
    decreases s.len(),
{
    if s.len() > 0 && is_space_char(s.last()) {
        spec_trim_end(s.drop_last())
    } else {
        s
    }
}

/// `s` without leading and trailing whitespace, as `str::trim` leaves
/// it.
pub open spec fn spec_trim(s: Seq<char>) -> Seq<char> {
    spec_trim_end(spec_trim_start(s))
}

proof fn lemma_trim_start_skip(s: Seq<char>, i: int)
    requires
        0 <= i <= s.len(),
        forall|j: int| 0 <= j < i ==> is_space_char(#[trigger] s[j]),
        i == s.len() || !is_space_char(s[i]),
    ensures
        spec_trim_start(s) == s.skip(i),
    decreases i,
{
    if i == 0 {
        assert(s.skip(0) =~= s);
    } else {
        lemma_trim_start_skip(s.drop_first(), i - 1);
        assert(s.drop_first().skip(i - 1) =~= s.skip(i));
    }
}

proof fn lemma_trim_end_take(s: Seq<char>, k: int)
    requires
        0 <= k <= s.len(),
        forall|j: int| k <= j < s.len() ==> is_space_char(#[trigger] s[j]),
        k == 0 || !is_space_char(s[k - 1]),
    ensures
        spec_trim_end(s) == s.take(k),
    decreases s.len() - k,
{
    if k == s.len() {
        assert(s.take(k) =~= s);
    } else {
        lemma_trim_end_take(s.drop_last(), k);
        assert(s.drop_last().take(k) =~= s.take(k));
    }
}

/// `c` has the White_Space property.
fn is_space(c: char) -> (r: bool)
    ensures
        r == is_space_char(c),
{
    let u = c as u32;
    (9 <= u && u <= 13) || u == 32 || u == 133 || u == 160 || u == 0x1680 || (0x2000 <= u && u
        <= 0x200A) || u == 0x2028 || u == 0x2029 || u == 0x202F || u == 0x205F || u == 0x3000
}

/// The slice of `s` without leading and trailing whitespace, as
/// `str::trim` returns it.
pub fn trim_str<'a>(s: &'a str) -> (r: &'a str)
    ensures
        r@ == spec_trim(s@),
{
    let n = s.unicode_len();
    let mut i: usize = 0;
    while i < n && is_space(s.get_char(i))
        invariant
            i <= n,
            n == s@.len(),
            forall|j: int| 0 <= j < i ==> is_space_char(#[trigger] s@[j]),
        decreases n - i,
    {
        i += 1;
    }
    proof {
        lemma_trim_start_skip(s@, i as int);
    }
    if i == n {
        proof {
            assert(s@.skip(n as int).len() == 0);
            assert(spec_trim_end(s@.skip(n as int)) =~= s@.skip(n as int));
        }
        let r = s.substring_char(n, n);
        proof {
            assert(r@ =~= spec_trim(s@));
        }
        return r;
    }
    let mut k: usize = n;
    while k > i && is_space(s.get_char(k - 1))
        invariant
            i <= k <= n,
            n == s@.len(),
            forall|j: int| k <= j < n ==> is_space_char(#[trigger] s@[j]),
        decreases k,
    {
        k -= 1;
    }
    // the first non-space character bounds the scan from below
    proof {
        let t = s@.skip(i as int);
        assert(forall|j: int| k - i <= j < t.len() ==> is_space_char(#[trigger] t[j])) by {
            assert(forall|j: int| k - i <= j < t.len() ==> t[j] == s@[i + j]);
        }
        assert(t[0] == s@[i as int]);
        if k == i {
            assert(!is_space_char(t[0]));
            assert(forall|j: int| 0 <= j < t.len() ==> is_space_char(#[trigger] t[j]));
            assert(false);
        }
        assert(t[k - i - 1] == s@[k - 1]);
        lemma_trim_end_take(t, k - i as int);
    }
    let r = s.substring_char(i, k);
    proof {
        assert(r@ =~= s@.skip(i as int).take(k - i as int));
    }
    r
}

/// Character-for-character equality of two string slices.
pub fn str_eq(a: &str, b: &str) -> (r: bool)
    ensures
        r == (a@ == b@),
{
    let alen = a.unicode_len();
    let blen = b.unicode_len();
    if alen != blen {
        return false;
    }
    let mut i: usize = 0;
    while i < alen
        invariant
            i <= alen,
            alen == a@.len(),
            alen == b@.len(),
            forall|j: int| 0 <= j < i ==> a@[j] == b@[j],
        decreases alen - i,
    {
        if a.get_char(i) != b.get_char(i) {
            return false;
        }
        i += 1;
    }
    proof {
        assert(a@ =~= b@);
    }
    true
}

} // verus!
