//! Character and string helpers shared by the validation and lookup logic.
//!
//! Lookups against the identity store are case-insensitive for ASCII, as the
//! store's `LIKE`-style matching was, so the helpers here fold ASCII case.

use vstd::prelude::*;
use vstd::string::StrSliceExecFns;
use vstd::string::StringExecFns;

verus! {

/// ASCII lower-casing of a single character; other characters are unchanged.
pub open spec fn lower_char(c: char) -> char {
    if 'A' <= c && c <= 'Z' {
        ((c as u8) + 32) as char
    } else {
        c
    }
}

/// ASCII lower-casing of a whole character sequence.
pub open spec fn lower(s: Seq<char>) -> Seq<char> {
    s.map_values(|c: char| lower_char(c))
}

/// Lower-cases one character as `lower_char` describes.
pub fn to_lower_char(c: char) -> (r: char)
    ensures
        r == lower_char(c),
{
    if 'A' <= c && c <= 'Z' {
        ((c as u8) + 32) as char
    } else {
        c
    }
}

/// Exact string equality.
pub fn str_eq(a: &str, b: &str) -> (r: bool)
    ensures
        r == (a@ == b@),
{
    let sa = String::from_str(a);
    let sb = String::from_str(b);
    sa == sb
}

/// ASCII case-insensitive string equality.
pub fn str_eq_ci(a: &str, b: &str) -> (r: bool)
    ensures
        r == (lower(a@) == lower(b@)),
{
    let n = a.unicode_len();
    if n != b.unicode_len() {
        proof {
            assert(lower(a@).len() != lower(b@).len());
        }
        return false;
    }
    let mut i: usize = 0;
    while i < n
        invariant
            n == a@.len(),
            n == b@.len(),
            i <= n,
            forall|j: int| 0 <= j < i ==> lower(a@)[j] == lower(b@)[j],
        decreases n - i,
    {
        let ca = to_lower_char(a.get_char(i));
        let cb = to_lower_char(b.get_char(i));
        if ca != cb {
            proof {
                assert(lower(a@)[i as int] != lower(b@)[i as int]);
            }
            return false;
        }
        i = i + 1;
    }
    proof {
        assert(lower(a@) =~= lower(b@));
    }
    true
}

/// True of ASCII decimal digits.
pub open spec fn is_digit_char(c: char) -> bool {
    '0' <= c && c <= '9'
}

/// Numeric value of an ASCII decimal digit.
pub open spec fn digit_val(c: char) -> nat {
    (c as int - '0' as int) as nat
}

/// True when every character of `s` is an ASCII decimal digit.
pub open spec fn all_digits(s: Seq<char>) -> bool {
    forall|i: int| 0 <= i < s.len() ==> is_digit_char(#[trigger] s[i])
}

/// The number a digit string denotes, most significant digit first.
pub open spec fn digits_value(s: Seq<char>) -> nat
    decreases s.len(),
{
    if s.len() == 0 {
        0
    } else {
        digits_value(s.drop_last()) * 10 + digit_val(s.last())
    }
}

/// A digit string's value only grows as more digits are appended.
proof fn lemma_digits_value_prefix(s: Seq<char>, k: int)
    requires
        0 <= k <= s.len(),
    ensures
        digits_value(s.take(k)) <= digits_value(s),
    decreases s.len() - k,
{
    if k < s.len() {
        lemma_digits_value_prefix(s, k + 1);
        assert(s.take(k + 1).drop_last() =~= s.take(k));
        assert(digits_value(s.take(k + 1)) == digits_value(s.take(k)) * 10 + digit_val(
            s.take(k + 1).last(),
        ));
        assert(digits_value(s.take(k)) * 10 >= digits_value(s.take(k))) by (nonlinear_arith);
    } else {
        assert(s.take(k) =~= s);
    }
}

/// Whether `s` would be accepted by a `usize` decimal parse: an optional
/// leading plus sign, then at least one digit, with a value that fits.
pub open spec fn parses_as_usize(s: Seq<char>) -> bool {
    let t = if s.len() > 0 && s[0] == '+' {
        s.skip(1)
    } else {
        s
    };
    t.len() > 0 && all_digits(t) && digits_value(t) <= usize::MAX
}

/// Decides whether `s` parses as a plain (unsigned, machine-sized) integer.
pub fn parses_as_integer(s: &str) -> (r: bool)
    ensures
        r == parses_as_usize(s@),
{
    let n = s.unicode_len();
    let start: usize = if n > 0 && s.get_char(0) == '+' {
        1
    } else {
        0
    };
    let ghost t: Seq<char> = if s@.len() > 0 && s@[0] == '+' {
        s@.skip(1)
    } else {
        s@
    };
    if n == start {
        return false;
    }
    let mut acc: usize = 0;
    let mut i: usize = start;
    while i < n
        invariant
            n == s@.len(),
            start <= i <= n,
            start <= 1,
            start == 1 ==> s@.len() > 0 && s@[0] == '+' && t =~= s@.skip(1),
            start == 0 ==> !(s@.len() > 0 && s@[0] == '+') && t =~= s@,
            n - start == t.len(),
            forall|j: int| 0 <= j < t.len() ==> t[j] == s@[j + start],
            all_digits(t.take(i - start)),
            acc == digits_value(t.take(i - start)),
        decreases n - i,
    {
        let c = s.get_char(i);
        if !('0' <= c && c <= '9') {
            proof {
                assert(t[i - start] == c);
                assert(!is_digit_char(t[i - start]));
            }
            return false;
        }
        let d: u8 = (c as u8) - 48;
        proof {
            assert(t.take(i - start + 1).drop_last() =~= t.take(i - start));
            assert(t.take(i - start + 1).last() == c);
            assert(digit_val(c) == d as nat);
        }
        let step = acc.checked_mul(10);
        match step {
            Some(m) => {
                match m.checked_add(d as usize) {
                    Some(v) => {
                        acc = v;
                    },
                    None => {
                        proof {
                            assert(digits_value(t.take(i - start + 1)) > usize::MAX);
                            lemma_digits_value_prefix(t, i - start + 1);
                        }
                        return false;
                    },
                }
            },
            None => {
                proof {
                    assert(digits_value(t.take(i - start + 1)) > usize::MAX);
                    lemma_digits_value_prefix(t, i - start + 1);
                }
                return false;
            },
        }
        i = i + 1;
    }
    proof {
        assert(t.take(n - start) =~= t);
    }
    true
}

/// The first `n` characters of `s`, or all of `s` when it is shorter.
pub open spec fn trunc(s: Seq<char>, n: int) -> Seq<char> {
    if s.len() <= n {
        s
    } else {
        s.take(n)
    }
}

/// Cuts `s` down to at most `n` characters.
pub fn truncate_chars(s: &str, n: usize) -> (r: String)
    ensures
        r@ == trunc(s@, n as int),
{
    let l = s.unicode_len();
    if l <= n {
        String::from_str(s)
    } else {
        String::from_str(s.substring_char(0, n))
    }
}

/// `needle` occurs in `haystack` starting at position `i`.
pub open spec fn matches_at(haystack: Seq<char>, needle: Seq<char>, i: int) -> bool {
    0 <= i && i + needle.len() <= haystack.len() && haystack.subrange(i, i + needle.len())
        == needle
}

/// `needle` occurs somewhere in `haystack`.
pub open spec fn contains_seq(haystack: Seq<char>, needle: Seq<char>) -> bool {
    exists|i: int| matches_at(haystack, needle, i)
}

/// `needle` occurs in `haystack` up to ASCII case.
pub open spec fn contains_ci(haystack: Seq<char>, needle: Seq<char>) -> bool {
    contains_seq(lower(haystack), lower(needle))
}

/// Compares `needle` against the characters of `haystack` at position `i`,
/// folding ASCII case on both sides.
fn match_at_ci(haystack: &str, needle: &str, i: usize) -> (r: bool)
    requires
        i + needle@.len() <= haystack@.len(),
        haystack@.len() <= usize::MAX,
    ensures
        r == matches_at(lower(haystack@), lower(needle@), i as int),
{
    let nl = needle.unicode_len();
    let mut j: usize = 0;
    while j < nl
        invariant
            nl == needle@.len(),
            i + nl <= haystack@.len(),
            haystack@.len() <= usize::MAX,
            j <= nl,
            forall|k: int| 0 <= k < j ==> lower(haystack@)[i + k] == lower(needle@)[k],
        decreases nl - j,
    {
        let ch = to_lower_char(haystack.get_char(i + j));
        let cn = to_lower_char(needle.get_char(j));
        if ch != cn {
            proof {
                assert(lower(haystack@).subrange(i as int, i + nl)[j as int] == lower(haystack@)[i
                    + j]);
            }
            return false;
        }
        j = j + 1;
    }
    proof {
        assert(lower(haystack@).subrange(i as int, i + nl) =~= lower(needle@));
    }
    true
}

/// Decides whether `needle` occurs in `haystack`, ignoring ASCII case.
pub fn str_contains_ci(haystack: &str, needle: &str) -> (r: bool)
    ensures
        r == contains_ci(haystack@, needle@),
{
    let hl = haystack.unicode_len();
    let nl = needle.unicode_len();
    if nl > hl {
        proof {
            assert(forall|i: int| !matches_at(lower(haystack@), lower(needle@), i));
        }
        return false;
    }
    if nl == 0 {
        proof {
            assert(lower(haystack@).subrange(0, 0) =~= lower(needle@));
            assert(matches_at(lower(haystack@), lower(needle@), 0));
        }
        return true;
    }
    let mut i: usize = 0;
    while i <= hl - nl
        invariant
            hl == haystack@.len(),
            nl == needle@.len(),
            1 <= nl <= hl,
            i <= hl - nl + 1,
            forall|k: int| 0 <= k < i ==> !matches_at(lower(haystack@), lower(needle@), k),
        decreases hl - nl + 1 - i,
    {
        if match_at_ci(haystack, needle, i) {
            return true;
        }
        i = i + 1;
    }
    proof {
        assert(forall|k: int| k > hl - nl ==> !matches_at(lower(haystack@), lower(needle@), k));
    }
    false
}

/// The decimal digit character for a value below ten.
pub open spec fn digit_char(d: int) -> char {
    ((48 + d) as u8) as char
}

/// The decimal notation of `n`, most significant digit first, no sign and
/// no leading zero (a single zero for zero itself).
pub open spec fn dec_digits(n: nat) -> Seq<char>
    decreases n,
{
    if n < 10 {
        seq![digit_char(n as int)]
    } else {
        dec_digits(n / 10).push(digit_char((n % 10) as int))
    }
}

/// A one-character string holding the digit for `d`.
fn digit_str(d: u32) -> (r: String)
    requires
        d < 10,
    ensures
        r@ =~= seq![digit_char(d as int)],
{
    let r = match d {
        0 => String::from_str("0"),
        1 => String::from_str("1"),
        2 => String::from_str("2"),
        3 => String::from_str("3"),
        4 => String::from_str("4"),
        5 => String::from_str("5"),
        6 => String::from_str("6"),
        7 => String::from_str("7"),
        8 => String::from_str("8"),
        _ => String::from_str("9"),
    };
    proof {
        reveal_strlit("0");
        reveal_strlit("1");
        reveal_strlit("2");
        reveal_strlit("3");
        reveal_strlit("4");
        reveal_strlit("5");
        reveal_strlit("6");
        reveal_strlit("7");
        reveal_strlit("8");
        reveal_strlit("9");
    }
    r
}

/// Writes `n` in decimal notation.
pub fn u32_to_dec(n: u32) -> (r: String)
    ensures
        r@ == dec_digits(n as nat),
{
    let mut acc = digit_str(n % 10);
    let mut m: u32 = n / 10;
    proof {
        if m > 0 {
            assert(dec_digits(n as nat) == dec_digits((n / 10) as nat).push(
                digit_char((n % 10) as int),
            ));
            assert(dec_digits((m as nat)) + acc@ =~= dec_digits(n as nat));
        }
    }
    while m > 0
        invariant
            m > 0 ==> dec_digits(m as nat) + acc@ == dec_digits(n as nat),
            m == 0 ==> acc@ == dec_digits(n as nat),
        decreases m,
    {
        let d: u32 = m % 10;
        let m2: u32 = m / 10;
        proof {
            if m2 > 0 {
                assert(dec_digits(m as nat) == dec_digits(m2 as nat).push(digit_char(d as int)));
                assert(dec_digits(m2 as nat) + (seq![digit_char(d as int)] + acc@) =~= dec_digits(
                    m as nat,
                ) + acc@);
            } else {
                assert(dec_digits(m as nat) =~= seq![digit_char(d as int)]);
                assert(seq![digit_char(d as int)] + acc@ =~= dec_digits(m as nat) + acc@);
            }
        }
        acc = digit_str(d).concat(acc.as_str());
        m = m2;
    }
    acc
}

} // verus!
