//! Text predicates over character sequences, and the functions that compute
//! them on strings.

use vstd::prelude::*;
use vstd::string::{StrSliceExecFns, StringExecFns};

verus! {

/// `s` begins with `p`.
pub open spec fn has_prefix(s: Seq<char>, p: Seq<char>) -> bool {
    p.len() <= s.len() && s.subrange(0, p.len() as int) == p
}

/// `s` ends with `p`.
pub open spec fn has_suffix(s: Seq<char>, p: Seq<char>) -> bool {
    p.len() <= s.len() && s.subrange(s.len() - p.len(), s.len() as int) == p
}

/// `s` with every occurrence of the non-empty `from` replaced by `to`,
/// occurrences taken from the left and never overlapping.
pub open spec fn replaced(s: Seq<char>, from: Seq<char>, to: Seq<char>) -> Seq<char>
    decreases s.len(),
{
    if from.len() == 0 || s.len() < from.len() {
        s
    } else if has_prefix(s, from) {
        to + replaced(s.subrange(from.len() as int, s.len() as int), from, to)
    } else {
        seq![s[0]] + replaced(s.subrange(1, s.len() as int), from, to)
    }
}

/// The character that writes the digit `d`.
pub open spec fn digit(d: int) -> char {
    if d == 0 {
        '0'
    } else if d == 1 {
        '1'
    } else if d == 2 {
        '2'
    } else if d == 3 {
        '3'
    } else if d == 4 {
        '4'
    } else if d == 5 {
        '5'
    } else if d == 6 {
        '6'
    } else if d == 7 {
        '7'
    } else if d == 8 {
        '8'
    } else {
        '9'
    }
}

/// `n` written in decimal, without leading zeros.
pub open spec fn decimal(n: nat) -> Seq<char>
    decreases n,
{
    if n < 10 {
        seq![digit(n as int)]
    } else {
        decimal(n / 10).push(digit((n % 10) as int))
    }
}

/// `n` written in decimal, with a minus sign where it is negative.
pub open spec fn signed_decimal(n: int) -> Seq<char> {
    if n < 0 {
        seq!['-'] + decimal((-n) as nat)
    } else {
        decimal(n as nat)
    }
}

/// The text of the digit `d`.
fn digit_text(d: u64) -> (s: &'static str)
    requires
        d < 10,
    ensures
        s@ == seq![digit(d as int)],
{
    proof {
        reveal_strlit("0");
        reveal_strlit("1");
        reveal_strlit("2");
        reveal_strlit("3");
        reveal_strlit("4");
        reveal_strlit("5");
        reveal_strlit("6");
        reveal_strlit("7");
        reveal_strlit("8");
        reveal_strlit("9");
    }
    let s = if d == 0 {
        "0"
    } else if d == 1 {
        "1"
    } else if d == 2 {
        "2"
    } else if d == 3 {
        "3"
    } else if d == 4 {
        "4"
    } else if d == 5 {
        "5"
    } else if d == 6 {
        "6"
    } else if d == 7 {
        "7"
    } else if d == 8 {
        "8"
    } else {
        "9"
    };
    s
}

/// `n` written in decimal.
pub fn decimal_text(n: u64) -> (s: String)
    ensures
        s@ == decimal(n as nat),
{
    let mut rest: u64 = n;
    let mut tail = String::new();
    while rest >= 10
        invariant
            decimal(n as nat) == decimal(rest as nat) + tail@,
        decreases rest,
    {
        let d: u64 = rest % 10;
        let longer = String::from_str(digit_text(d)).concat(tail.as_str());
        tail = longer;
        rest = rest / 10;
    }
    let s = String::from_str(digit_text(rest)).concat(tail.as_str());
    s
}

/// `n` written in decimal, with a minus sign where it is negative.
pub fn signed_decimal_text(n: i64) -> (s: String)
    ensures
        s@ == signed_decimal(n as int),
{
    if n < 0 {
        let wide: i128 = -(n as i128);
        let size: u64 = wide as u64;
        proof {
            reveal_strlit("-");
        }
        let s = String::from_str("-").concat(decimal_text(size).as_str());
        s
    } else {
        decimal_text(n as u64)
    }
}

/// Whether `pattern` stands in `s` at place `at`, counted in characters.
pub fn matches_at(s: &str, at: usize, pattern: &str) -> (b: bool)
    ensures
        b == (at + pattern@.len() <= s@.len() && s@.subrange(
            at as int,
            at + pattern@.len(),
        ) == pattern@),
{
    let n = s.unicode_len();
    let m = pattern.unicode_len();
    if at > n || m > n - at {
        return false;
    }
    let ghost piece = s@.subrange(at as int, at + m);
    let mut i: usize = 0;
    while i < m
        invariant
            i <= m,
            n == s@.len(),
            m == pattern@.len(),
            at + m <= n,
            piece == s@.subrange(at as int, at + m),
            forall|j: int| 0 <= j < i ==> piece[j] == pattern@[j],
        decreases m - i,
    {
        if s.get_char(at + i) != pattern.get_char(i) {
            return false;
        }
        i = i + 1;
    }
    assert(piece =~= pattern@);
    true
}

/// Whether `s` begins with `prefix`.
pub fn starts_with(s: &str, prefix: &str) -> (b: bool)
    ensures
        b == has_prefix(s@, prefix@),
{
    matches_at(s, 0, prefix)
}

/// Whether `s` ends with `suffix`.
pub fn ends_with(s: &str, suffix: &str) -> (b: bool)
    ensures
        b == has_suffix(s@, suffix@),
{
    let n = s.unicode_len();
    let m = suffix.unicode_len();
    if m > n {
        false
    } else {
        matches_at(s, n - m, suffix)
    }
}

/// `s` with every occurrence of the non-empty `from` replaced by `to`,
/// occurrences taken from the left and never overlapping.
pub fn replace_all(s: &str, from: &str, to: &str) -> (r: String)
    requires
        from@.len() > 0,
    ensures
        r@ == replaced(s@, from@, to@),
{
    let n = s.unicode_len();
    let m = from.unicode_len();
    let mut out = String::new();
    let mut i: usize = 0;
    assert(s@.subrange(0, n as int) =~= s@);
    while i < n
        invariant
            i <= n,
            n == s@.len(),
            m == from@.len(),
            m > 0,
            replaced(s@, from@, to@) == out@ + replaced(
                s@.subrange(i as int, n as int),
                from@,
                to@,
            ),
        decreases n - i,
    {
        let ghost rest = s@.subrange(i as int, n as int);
        let ghost done = out@;
        if matches_at(s, i, from) {
            out.append(to);
            proof {
                assert(rest.subrange(0, m as int) =~= s@.subrange(i as int, i + m));
                assert(rest.subrange(m as int, rest.len() as int) =~= s@.subrange(
                    i + m,
                    n as int,
                ));
                assert(done + (to@ + replaced(s@.subrange(i + m, n as int), from@, to@))
                    =~= out@ + replaced(s@.subrange(i + m, n as int), from@, to@));
            }
            i = i + m;
        } else if n - i < m {
            out.append(s.substring_char(i, n));
            proof {
                assert(done + rest =~= out@ + replaced(
                    s@.subrange(n as int, n as int),
                    from@,
                    to@,
                ));
            }
            i = n;
        } else {
            out.append(s.substring_char(i, i + 1));
            proof {
                assert(rest.subrange(0, m as int) =~= s@.subrange(i as int, i + m));
                assert(rest.subrange(1, rest.len() as int) =~= s@.subrange(i + 1, n as int));
                assert(done + (seq![rest[0]] + replaced(
                    s@.subrange(i + 1, n as int),
                    from@,
                    to@,
                )) =~= out@ + replaced(s@.subrange(i + 1, n as int), from@, to@));
            }
            i = i + 1;
        }
    }
    out
}

} // verus!
