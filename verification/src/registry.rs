//! Which package names the scanner accepts from lockfiles.
use vstd::prelude::*;
use crate::text::{chars_of, is_ws, is_whitespace};

verus! {

/// An ASCII control character.
pub open spec fn is_control(c: char) -> bool {
    c < ' ' || c == '\u{7F}'
}

/// A package name that is safe to look up: not empty, at most 214
/// characters, without whitespace, control characters or backslashes, and
/// without `..` (no path traversal).
pub open spec fn valid_package_name(s: Seq<char>) -> bool {
    &&& 0 < s.len() <= 214
    &&& forall|i: int| 0 <= i < s.len() ==> !is_ws(#[trigger] s[i]) && !is_control(s[i]) && s[i] != '\\'
    &&& forall|i: int| 0 <= i < s.len() - 1 ==> !(#[trigger] s[i] == '.' && s[i + 1] == '.')
}

pub fn validate_package_name(name: &str) -> (b: bool)
    ensures
        b == valid_package_name(name@),
{
    let v = chars_of(name);
    if v.len() == 0 || v.len() > 214 {
        return false;
    }
    let mut i: usize = 0;
    while i < v.len()
        invariant
            i <= v@.len(),
            v@ == name@,
            0 < v@.len() <= 214,
            forall|k: int| 0 <= k < i ==> !is_ws(#[trigger] v@[k]) && !is_control(v@[k]) && v@[k] != '\\',
            forall|k: int| 0 <= k < i && k < v@.len() - 1 ==> !(#[trigger] v@[k] == '.' && v@[k + 1] == '.'),
        decreases v.len() - i,
    {
        let c = v[i];
        if is_whitespace(c) || c < ' ' || c == '\u{7F}' || c == '\\' {
            return false;
        }
        if c == '.' && i + 1 < v.len() && v[i + 1] == '.' {
            return false;
        }
        i = i + 1;
    }
    true
}

} // verus!
