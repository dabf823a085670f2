//! `name@version` descriptors, as pnpm and Bun lockfiles write them.
use vstd::prelude::*;
use crate::text::{
    chars_of, contains_seq, find_char, index_of, lemma_index_of_bound, rfind_pattern, rfind_seq,
    starts_with, str_contains, string_of_range, trim, trim_range, trim_start_char, range_starts_with,
    lemma_lead_count_exact, eq_pred,
};

verus! {

/// `name@version` split at the last `@` (after the scope of a `@scope/name`),
/// with the `@`s that start the version dropped.
pub open spec fn name_version_split(s: Seq<char>) -> Option<(Seq<char>, Seq<char>)> {
    if s.len() > 0 && s[0] == '@' {
        let stripped = s.subrange(1, s.len() as int);
        let slash = index_of(stripped, '/');
        if slash >= stripped.len() {
            None
        } else {
            let after = (slash + 2) as int;
            let at = rfind_seq(s.subrange(after, s.len() as int), seq!['@']);
            if at < 0 {
                None
            } else {
                let split = after + at;
                Some((s.subrange(0, split), trim_start_char(s.subrange(split, s.len() as int), '@')))
            }
        }
    } else {
        let at = rfind_seq(s, seq!['@']);
        if at < 0 {
            None
        } else {
            Some((s.subrange(0, at), trim_start_char(s.subrange(at, s.len() as int), '@')))
        }
    }
}

pub open spec fn pair_view(r: Option<(String, String)>) -> Option<(Seq<char>, Seq<char>)> {
    match r {
        Some((a, b)) => Some((a@, b@)),
        None => None,
    }
}

/// Bounds of `trim_start_char(v[lo..hi], c)`.
fn skip_chars(v: &Vec<char>, lo: usize, hi: usize, c: char) -> (r: usize)
    requires
        lo <= hi <= v.len(),
    ensures
        lo <= r <= hi,
        v@.subrange(r as int, hi as int) == trim_start_char(v@.subrange(lo as int, hi as int), c),
{
    let ghost s = v@.subrange(lo as int, hi as int);
    let mut a = lo;
    while a < hi && v[a] == c
        invariant
            lo <= a <= hi <= v.len(),
            s == v@.subrange(lo as int, hi as int),
            forall|k: int| lo <= k < a ==> #[trigger] v@[k] == c,
        decreases hi - a,
    {
        a = a + 1;
    }
    proof {
        assert forall|k: int| 0 <= k < a - lo implies #[trigger] eq_pred(c)(s[k]) by {
            assert(s[k] == v@[lo + k]);
        }
        if a < hi {
            assert(s[a - lo] == v@[a as int]);
        }
        lemma_lead_count_exact(s, eq_pred(c), a - lo);
        assert(trim_start_char(s, c) == v@.subrange(a as int, hi as int));
    }
    a
}

/// `name_version_split` of `v[lo..hi]`: the end of the name and the start
/// of the version.
fn name_version_range(v: &Vec<char>, lo: usize, hi: usize) -> (r: Option<(usize, usize)>)
    requires
        lo <= hi <= v.len(),
    ensures
        match r {
            Some((split, start)) => lo <= split <= start <= hi && name_version_split(
                v@.subrange(lo as int, hi as int),
            ) == Some((v@.subrange(lo as int, split as int), v@.subrange(start as int, hi as int))),
            None => name_version_split(v@.subrange(lo as int, hi as int)) is None,
        },
{
    let ghost s = v@.subrange(lo as int, hi as int);
    let at = vec!['@'];
    assert(at@ == seq!['@']);
    if lo < hi && v[lo] == '@' {
        let slash = find_char(v, lo + 1, hi, '/');
        proof {
            assert(s.subrange(1, s.len() as int) == v@.subrange(lo + 1, hi as int));
        }
        if slash == hi {
            return None;
        }
        let after = slash + 1;
        proof {
            assert(s.subrange(slash + 1 - lo, s.len() as int) == v@.subrange(after as int, hi as int));
        }
        match rfind_pattern(v, after, hi, &at) {
            None => None,
            Some(k) => {
                let start = skip_chars(v, k, hi, '@');
                proof {
                    assert(s.subrange(0, k - lo) == v@.subrange(lo as int, k as int));
                    assert(s.subrange(k - lo, s.len() as int) == v@.subrange(k as int, hi as int));
                }
                Some((k, start))
            },
        }
    } else {
        match rfind_pattern(v, lo, hi, &at) {
            None => None,
            Some(k) => {
                let start = skip_chars(v, k, hi, '@');
                proof {
                    assert(s.subrange(0, k - lo) == v@.subrange(lo as int, k as int));
                    assert(s.subrange(k - lo, s.len() as int) == v@.subrange(k as int, hi as int));
                }
                Some((k, start))
            },
        }
    }
}

fn split_range(v: &Vec<char>, lo: usize, hi: usize) -> (r: Option<(String, String)>)
    requires
        lo <= hi <= v.len(),
    ensures
        pair_view(r) == name_version_split(v@.subrange(lo as int, hi as int)),
{
    match name_version_range(v, lo, hi) {
        Some((split, start)) => Some((string_of_range(v, lo, split), string_of_range(v, start, hi))),
        None => None,
    }
}

/// The package and version of an npm alias target `name@version`.
pub fn split_npm_package_and_spec(spec: &str) -> (r: Option<(String, String)>)
    ensures
        pair_view(r) == name_version_split(spec@),
{
    let v = chars_of(spec);
    assert(v@.subrange(0, v@.len() as int) == v@);
    split_range(&v, 0, v.len())
}

/// A pnpm package key (`name@version`, maybe followed by peer suffixes in
/// parentheses) without what precedes its first `(`, trimmed.
pub open spec fn pnpm_key_base(key: Seq<char>) -> Seq<char> {
    trim(key.subrange(0, index_of(key, '(') as int))
}

/// The package and version that a pnpm package key names; none for local
/// (`link:`, `file:`) and empty keys.
pub open spec fn spec_pnpm_key_parts(key: Seq<char>) -> Option<(Seq<char>, Seq<char>)> {
    let base = pnpm_key_base(key);
    if base.len() == 0 || starts_with(base, "link:"@) || starts_with(base, "file:"@) {
        None
    } else {
        name_version_split(base)
    }
}

/// Bounds of `pnpm_key_base(v[lo..hi])`.
pub fn pnpm_key_base_range(v: &Vec<char>, lo: usize, hi: usize) -> (r: (usize, usize))
    requires
        lo <= hi <= v.len(),
    ensures
        lo <= r.0 <= r.1 <= hi,
        v@.subrange(r.0 as int, r.1 as int) == pnpm_key_base(v@.subrange(lo as int, hi as int)),
{
    let p = find_char(v, lo, hi, '(');
    proof {
        assert(v@.subrange(lo as int, hi as int).subrange(0, p - lo) == v@.subrange(lo as int, p as int));
    }
    trim_range(v, lo, p)
}

/// The package and version that a pnpm package key names (see
/// `spec_pnpm_key_parts`).
pub fn pnpm_package_key_parts(key: &str) -> (r: Option<(String, String)>)
    ensures
        pair_view(r) == spec_pnpm_key_parts(key@),
{
    let v = chars_of(key);
    assert(v@.subrange(0, v@.len() as int) == v@);
    let (a, b) = pnpm_key_base_range(&v, 0, v.len());
    if a == b {
        return None;
    }
    let link = chars_of("link:");
    let file = chars_of("file:");
    if range_starts_with(&v, a, b, &link) || range_starts_with(&v, a, b, &file) {
        return None;
    }
    split_range(&v, a, b)
}

/// The package and version that a Bun package descriptor names; none for
/// empty descriptors and workspace, file and link packages.
pub open spec fn spec_bun_descriptor_parts(descriptor: Seq<char>) -> Option<(Seq<char>, Seq<char>)> {
    let d = trim(descriptor);
    if d.len() == 0 || contains_seq(d, "@workspace:"@) || contains_seq(d, "@file:"@) || contains_seq(
        d,
        "@link:"@,
    ) {
        None
    } else {
        name_version_split(d)
    }
}

/// The package and version that a Bun package descriptor names (see
/// `spec_bun_descriptor_parts`).
pub fn bun_descriptor_parts(descriptor: &str) -> (r: Option<(String, String)>)
    ensures
        pair_view(r) == spec_bun_descriptor_parts(descriptor@),
{
    let v = chars_of(descriptor);
    assert(v@.subrange(0, v@.len() as int) == v@);
    let (a, b) = trim_range(&v, 0, v.len());
    if a == b {
        return None;
    }
    let d = string_of_range(&v, a, b);
    if str_contains(d.as_str(), "@workspace:") || str_contains(d.as_str(), "@file:") || str_contains(
        d.as_str(),
        "@link:",
    ) {
        return None;
    }
    split_range(&v, a, b)
}

} // verus!
