//! When a manifest version requirement pins one exact version.
use vstd::prelude::*;
use crate::ecosystem::Ecosystem;
use crate::text::{trim, trim_range, string_of_range, chars_of};

verus! {

pub open spec fn is_digit(c: char) -> bool {
    '0' <= c && c <= '9'
}

pub open spec fn is_version_char(c: char) -> bool {
    ||| is_digit(c)
    ||| ('a' <= c && c <= 'z')
    ||| ('A' <= c && c <= 'Z')
    ||| c == '.'
    ||| c == '-'
    ||| c == '+'
    ||| c == '_'
}

/// A literal version such as `1.2.3` or `2.0.0-rc.1`: it starts with a digit,
/// uses only version characters, and every `.` is followed by a digit (so
/// wildcard segments such as `1.x` are not literal).
pub open spec fn is_plain_version(s: Seq<char>) -> bool {
    &&& s.len() > 0
    &&& is_digit(s[0])
    &&& forall|i: int| 0 <= i < s.len() ==> is_version_char(#[trigger] s[i])
    &&& forall|i: int| 0 <= i < s.len() && #[trigger] s[i] == '.' ==> i + 1 < s.len() && is_digit(
        s[i + 1],
    )
}

pub open spec fn plain_or_none(s: Seq<char>) -> Option<Seq<char>> {
    if is_plain_version(s) {
        Some(s)
    } else {
        None
    }
}

/// The pinned version of `t` after an operator of `n` characters.
pub open spec fn after_operator(t: Seq<char>, n: int) -> Option<Seq<char>> {
    plain_or_none(trim(t.subrange(n, t.len() as int)))
}

/// The exact version that a manifest requirement pins, if it pins one.
///
/// - Cargo: `=X` (a bare `X` is a caret requirement).
/// - PyPI: `==X` (not `===`).
/// - Go: module versions `vX` are always exact.
/// - npm and Ruby: `X` or `=X`.
/// - PHP, JVM and .NET: `X`.
///
/// In each case `X` must be a literal version (`is_plain_version`).
pub open spec fn spec_exact_version(v: Seq<char>, eco: Ecosystem) -> Option<Seq<char>> {
    let t = trim(v);
    match eco {
        Ecosystem::Cargo => {
            if t.len() >= 1 && t[0] == '=' && !(t.len() >= 2 && t[1] == '=') {
                after_operator(t, 1)
            } else {
                None
            }
        },
        Ecosystem::PyPI => {
            if t.len() >= 2 && t[0] == '=' && t[1] == '=' && !(t.len() >= 3 && t[2] == '=') {
                after_operator(t, 2)
            } else {
                None
            }
        },
        Ecosystem::Go => {
            if t.len() >= 2 && t[0] == 'v' && is_plain_version(t.subrange(1, t.len() as int)) {
                Some(t)
            } else {
                None
            }
        },
        Ecosystem::Npm | Ecosystem::Ruby => {
            if t.len() >= 1 && t[0] == '=' {
                after_operator(t, 1)
            } else {
                plain_or_none(t)
            }
        },
        Ecosystem::Php | Ecosystem::Jvm | Ecosystem::Dotnet => plain_or_none(t),
    }
}

fn is_digit_char(c: char) -> (b: bool)
    ensures
        b == is_digit(c),
{
    '0' <= c && c <= '9'
}

fn is_version_character(c: char) -> (b: bool)
    ensures
        b == is_version_char(c),
{
    is_digit_char(c) || ('a' <= c && c <= 'z') || ('A' <= c && c <= 'Z') || c == '.' || c == '-'
        || c == '+' || c == '_'
}

/// Whether `v[lo..hi]` is a literal version.
fn range_is_plain_version(v: &Vec<char>, lo: usize, hi: usize) -> (b: bool)
    requires
        lo <= hi <= v.len(),
    ensures
        b == is_plain_version(v@.subrange(lo as int, hi as int)),
{
    let ghost s = v@.subrange(lo as int, hi as int);
    if lo == hi {
        return false;
    }
    if !is_digit_char(v[lo]) {
        assert(s[0] == v@[lo as int]);
        return false;
    }
    let mut i = lo;
    while i < hi
        invariant
            lo <= i <= hi <= v.len(),
            s == v@.subrange(lo as int, hi as int),
            forall|k: int| 0 <= k < i - lo ==> is_version_char(#[trigger] s[k]),
            forall|k: int|
                0 <= k < i - lo && #[trigger] s[k] == '.' ==> k + 1 < s.len() && is_digit(s[k + 1]),
        decreases hi - i,
    {
        assert(s[i - lo] == v@[i as int]);
        if !is_version_character(v[i]) {
            return false;
        }
        if v[i] == '.' {
            if i + 1 >= hi {
                return false;
            }
            assert(s[i - lo + 1] == v@[i + 1]);
            if !is_digit_char(v[i + 1]) {
                return false;
            }
        }
        i = i + 1;
    }
    true
}

/// `v[lo..hi]` as a `String` if it is a literal version.
fn plain_range(v: &Vec<char>, lo: usize, hi: usize) -> (r: Option<String>)
    requires
        lo <= hi <= v.len(),
    ensures
        r matches Some(s) ==> plain_or_none(v@.subrange(lo as int, hi as int)) == Some(s@),
        r is None ==> plain_or_none(v@.subrange(lo as int, hi as int)) is None,
{
    if range_is_plain_version(v, lo, hi) {
        Some(string_of_range(v, lo, hi))
    } else {
        None
    }
}

/// The version after an operator of `n` characters at `v[lo..]`, trimmed.
fn after_operator_range(v: &Vec<char>, lo: usize, hi: usize, n: usize) -> (r: Option<String>)
    requires
        lo + n <= hi <= v.len(),
    ensures
        r matches Some(s) ==> after_operator(v@.subrange(lo as int, hi as int), n as int) == Some(
            s@,
        ),
        r is None ==> after_operator(v@.subrange(lo as int, hi as int), n as int) is None,
{
    let (a, b) = trim_range(v, lo + n, hi);
    assert(v@.subrange(lo as int, hi as int).subrange(n as int, (hi - lo) as int) == v@.subrange(
        lo + n,
        hi as int,
    ));
    plain_range(v, a, b)
}

/// The exact version that the requirement `version` pins in `ecosystem`.
pub fn exact_version(version: &str, ecosystem: Ecosystem) -> (r: Option<String>)
    ensures
        r matches Some(s) ==> spec_exact_version(version@, ecosystem) == Some(s@),
        r is None ==> spec_exact_version(version@, ecosystem) is None,
{
    let v = chars_of(version);
    let (lo, hi) = trim_range(&v, 0, v.len());
    assert(v@.subrange(0, v.len() as int) == v@);
    let ghost t = v@.subrange(lo as int, hi as int);
    let n = hi - lo;
    proof {
        if n >= 1 {
            assert(t[0] == v@[lo as int]);
        }
        if n >= 2 {
            assert(t[1] == v@[lo + 1]);
        }
        if n >= 3 {
            assert(t[2] == v@[lo + 2]);
        }
    }
    match ecosystem {
        Ecosystem::Cargo => {
            if n >= 1 && v[lo] == '=' && !(n >= 2 && v[lo + 1] == '=') {
                after_operator_range(&v, lo, hi, 1)
            } else {
                None
            }
        },
        Ecosystem::PyPI => {
            if n >= 2 && v[lo] == '=' && v[lo + 1] == '=' && !(n >= 3 && v[lo + 2] == '=') {
                after_operator_range(&v, lo, hi, 2)
            } else {
                None
            }
        },
        Ecosystem::Go => {
            if n >= 2 && v[lo] == 'v' {
                assert(t.subrange(1, t.len() as int) == v@.subrange(lo + 1, hi as int));
                if range_is_plain_version(&v, lo + 1, hi) {
                    Some(string_of_range(&v, lo, hi))
                } else {
                    None
                }
            } else {
                None
            }
        },
        Ecosystem::Npm | Ecosystem::Ruby => {
            if n >= 1 && v[lo] == '=' {
                after_operator_range(&v, lo, hi, 1)
            } else {
                plain_range(&v, lo, hi)
            }
        },
        Ecosystem::Php | Ecosystem::Jvm | Ecosystem::Dotnet => plain_range(&v, lo, hi),
    }
}

} // verus!
