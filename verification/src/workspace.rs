//! Workspace globs (`packages/*`, `apps/**`) matched against project paths.
use vstd::prelude::*;
use crate::text::{
    chars_of, ends_with, find_char, index_of, lemma_index_of_bound, range_ends_with, range_eq,
    range_starts_with, split_once, starts_with, str_eq, string_of_range, trim, trim_range,
};

verus! {

/// One path segment against one pattern segment: `*` matches anything; a
/// segment with a `*` matches values that start with what precedes the first
/// `*` and end with what follows it, without the two overlapping; any other
/// segment matches itself.
pub open spec fn spec_wildcard_segment(pattern: Seq<char>, value: Seq<char>) -> bool {
    if pattern == "*"@ {
        true
    } else {
        match split_once(pattern, '*') {
            None => pattern == value,
            Some((prefix, suffix)) => starts_with(value, prefix) && ends_with(value, suffix) && value.len()
                >= prefix.len() + suffix.len(),
        }
    }
}

/// Whether a path segment matches a pattern segment (see
/// `spec_wildcard_segment`).
pub fn wildcard_segment_matches(pattern: &str, value: &str) -> (b: bool)
    ensures
        b == spec_wildcard_segment(pattern@, value@),
{
    proof {
        reveal_strlit("*");
    }
    if str_eq(pattern, "*") {
        return true;
    }
    let p = chars_of(pattern);
    let n = p.len();
    let k = find_char(&p, 0, n, '*');
    proof {
        assert(p@.subrange(0, n as int) == p@);
        lemma_index_of_bound(p@, '*');
    }
    if k == n {
        return str_eq(pattern, value);
    }
    let v = chars_of(value);
    assert(v@.subrange(0, v@.len() as int) == v@);
    let prefix = {
        let mut x: Vec<char> = Vec::new();
        let mut i: usize = 0;
        while i < k
            invariant
                i <= k <= n,
                n == p@.len(),
                x@ == p@.subrange(0, i as int),
            decreases k - i,
        {
            x.push(p[i]);
            assert(p@.subrange(0, i + 1) == p@.subrange(0, i as int).push(p@[i as int]));
            i = i + 1;
        }
        x
    };
    let suffix = {
        let mut x: Vec<char> = Vec::new();
        let mut i: usize = k + 1;
        while i < n
            invariant
                k + 1 <= i <= n,
                n == p@.len(),
                x@ == p@.subrange(k + 1, i as int),
            decreases n - i,
        {
            x.push(p[i]);
            assert(p@.subrange(k + 1, i + 1) == p@.subrange(k + 1, i as int).push(p@[i as int]));
            i = i + 1;
        }
        x
    };
    range_starts_with(&v, 0, v.len(), &prefix) && range_ends_with(&v, 0, v.len(), &suffix) && v.len()
        >= prefix.len() + suffix.len()
}

/// Pattern segments against path segments: `**` matches any number of
/// segments (it is either dropped, or it takes one segment and stays);
/// every other pattern segment matches exactly one.
pub open spec fn spec_parts_match(pp: Seq<Seq<char>>, path: Seq<Seq<char>>) -> bool
    decreases pp.len(), path.len(),
{
    if pp.len() == 0 {
        path.len() == 0
    } else if pp[0] == "**"@ {
        spec_parts_match(pp.drop_first(), path) || (path.len() > 0 && spec_parts_match(
            pp,
            path.drop_first(),
        ))
    } else {
        path.len() > 0 && spec_wildcard_segment(pp[0], path[0]) && spec_parts_match(
            pp.drop_first(),
            path.drop_first(),
        )
    }
}

pub open spec fn strs(v: Seq<String>) -> Seq<Seq<char>> {
    v.map_values(|s: String| s@)
}

/// `spec_parts_match` of the pattern segments from `i` and the path
/// segments from `j`.
fn parts_match_from(pp: &Vec<String>, i: usize, path: &Vec<String>, j: usize) -> (b: bool)
    requires
        i <= pp@.len(),
        j <= path@.len(),
    ensures
        b == spec_parts_match(
            strs(pp@).subrange(i as int, pp@.len() as int),
            strs(path@).subrange(j as int, path@.len() as int),
        ),
    decreases pp@.len() - i,
{
    proof {
        reveal_strlit("**");
    }
    let ghost ps = strs(pp@).subrange(i as int, pp@.len() as int);
    let ghost xs = strs(path@).subrange(j as int, path@.len() as int);
    if i == pp.len() {
        return j == path.len();
    }
    assert(ps[0] == pp@[i as int]@);
    assert(ps.drop_first() == strs(pp@).subrange(i + 1, pp@.len() as int));
    if str_eq(pp[i].as_str(), "**") {
        let next = i + 1;
        let mut k: usize = j;
        loop
            invariant
                i < pp@.len(),
                next == i + 1,
                j <= k <= path@.len(),
                ps == strs(pp@).subrange(i as int, pp@.len() as int),
                ps.len() > 0,
                ps[0] == "**"@,
                ps.drop_first() == strs(pp@).subrange(next as int, pp@.len() as int),
                xs == strs(path@).subrange(j as int, path@.len() as int),
                spec_parts_match(ps, xs) == spec_parts_match(
                    ps,
                    strs(path@).subrange(k as int, path@.len() as int),
                ),
            decreases path@.len() - k,
        {
            let ghost xk = strs(path@).subrange(k as int, path@.len() as int);
            let r = parts_match_from(pp, next, path, k);
            if r {
                return true;
            }
            if k == path.len() {
                return false;
            }
            assert(xk.drop_first() == strs(path@).subrange(k + 1, path@.len() as int));
            k = k + 1;
        }
    }
    if j == path.len() {
        return false;
    }
    assert(xs[0] == path@[j as int]@);
    assert(xs.drop_first() == strs(path@).subrange(j + 1, path@.len() as int));
    wildcard_segment_matches(pp[i].as_str(), path[j].as_str()) && parts_match_from(pp, i + 1, path, j + 1)
}

/// Whether pattern segments match path segments (see `spec_parts_match`).
pub fn workspace_pattern_parts_match(pattern_parts: &Vec<String>, path_parts: &Vec<String>) -> (b: bool)
    ensures
        b == spec_parts_match(strs(pattern_parts@), strs(path_parts@)),
{
    assert(strs(pattern_parts@).subrange(0, pattern_parts@.len() as int) == strs(pattern_parts@));
    assert(strs(path_parts@).subrange(0, path_parts@.len() as int) == strs(path_parts@));
    parts_match_from(pattern_parts, 0, path_parts, 0)
}

/// `s` without its leading `./`s.
pub open spec fn strip_dot_slashes(s: Seq<char>) -> Seq<char>
    decreases s.len(),
{
    if s.len() >= 2 && s[0] == '.' && s[1] == '/' {
        strip_dot_slashes(s.subrange(2, s.len() as int))
    } else {
        s
    }
}

/// The non-empty `/`-separated segments of `s`.
pub open spec fn segments(s: Seq<char>) -> Seq<Seq<char>>
    decreases s.len(),
{
    if s.len() == 0 {
        Seq::empty()
    } else {
        let i = index_of(s, '/');
        if i >= s.len() {
            seq![s]
        } else {
            (if i > 0 {
                seq![s.subrange(0, i as int)]
            } else {
                Seq::empty()
            }) + segments(s.subrange(i as int + 1, s.len() as int))
        }
    }
}

/// The segments of a workspace pattern: trimmed, without leading `./`s.
pub open spec fn pattern_segments(pattern: Seq<char>) -> Seq<Seq<char>> {
    segments(strip_dot_slashes(trim(pattern)))
}

pub(crate) fn segments_of(v: &Vec<char>, lo: usize, hi: usize) -> (r: Vec<String>)
    requires
        lo <= hi <= v.len(),
    ensures
        strs(r@) == segments(v@.subrange(lo as int, hi as int)),
{
    let mut out: Vec<String> = Vec::new();
    let mut pos = lo;
    assert(strs(out@) + segments(v@.subrange(pos as int, hi as int)) == segments(v@.subrange(lo as int, hi as int)));
    while pos < hi
        invariant
            lo <= pos <= hi <= v.len(),
            strs(out@) + segments(v@.subrange(pos as int, hi as int)) == segments(v@.subrange(lo as int, hi as int)),
        decreases hi - pos,
    {
        let ghost s = v@.subrange(pos as int, hi as int);
        let k = find_char(v, pos, hi, '/');
        proof {
            lemma_index_of_bound(s, '/');
        }
        let ghost before = strs(out@);
        if k == hi {
            let piece = string_of_range(v, pos, hi);
            out.push(piece);
            assert(strs(out@) == before.push(s));
            assert(v@.subrange(hi as int, hi as int) == Seq::<char>::empty());
            assert(segments(s) == seq![s]);
            assert(before + seq![s] == strs(out@) + Seq::<Seq<char>>::empty());
            pos = hi;
        } else {
            proof {
                assert(s.subrange(0, k - pos) == v@.subrange(pos as int, k as int));
                assert(s.subrange(k - pos + 1, s.len() as int) == v@.subrange(k + 1, hi as int));
            }
            if k > pos {
                let piece = string_of_range(v, pos, k);
                out.push(piece);
                assert(strs(out@) == before + seq![v@.subrange(pos as int, k as int)]);
            } else {
                assert(strs(out@) == before + Seq::<Seq<char>>::empty());
            }
            pos = k + 1;
        }
    }
    assert(v@.subrange(hi as int, hi as int) == Seq::<char>::empty());
    assert(strs(out@) + Seq::<Seq<char>>::empty() == strs(out@));
    out
}

/// Whether a workspace pattern matches the segments of a project's path
/// below the workspace root.
pub fn workspace_pattern_matches_parts(pattern: &str, path_parts: &Vec<String>) -> (b: bool)
    ensures
        b == spec_parts_match(pattern_segments(pattern@), strs(path_parts@)),
{
    let v = chars_of(pattern);
    assert(v@.subrange(0, v@.len() as int) == v@);
    let (a, b) = trim_range(&v, 0, v.len());
    let mut c = a;
    while b - c >= 2 && v[c] == '.' && v[c + 1] == '/'
        invariant
            a <= c <= b <= v.len(),
            strip_dot_slashes(v@.subrange(c as int, b as int)) == strip_dot_slashes(v@.subrange(a as int, b as int)),
        decreases b - c,
    {
        let ghost s = v@.subrange(c as int, b as int);
        assert(s[0] == v@[c as int] && s[1] == v@[c + 1]);
        assert(s.subrange(2, s.len() as int) == v@.subrange(c + 2, b as int));
        c = c + 2;
    }
    proof {
        let s = v@.subrange(c as int, b as int);
        if s.len() >= 2 {
            assert(s[0] == v@[c as int] && s[1] == v@[c + 1]);
        }
    }
    let parts = segments_of(&v, c, b);
    workspace_pattern_parts_match(&parts, path_parts)
}

/// Whether one of `patterns` matches the segments `parts`.
pub open spec fn any_pattern_matches(patterns: Seq<String>, parts: Seq<String>) -> bool {
    exists|i: int|
        0 <= i < patterns.len() && spec_parts_match(pattern_segments(#[trigger] patterns[i]@), strs(parts))
}

/// Whether any pattern matches a project whose path below the workspace
/// root has the segments `relative_parts` (`None` when the project is not
/// below the root; the root itself matches no pattern).
pub fn workspace_patterns_match(relative_parts: Option<&Vec<String>>, patterns: &Vec<String>) -> (b: bool)
    ensures
        b == match relative_parts {
            Some(parts) => parts@.len() > 0 && any_pattern_matches(patterns@, parts@),
            None => false,
        },
{
    let Some(parts) = relative_parts else {
        return false;
    };
    if parts.len() == 0 {
        return false;
    }
    let mut i: usize = 0;
    while i < patterns.len()
        invariant
            i <= patterns@.len(),
            relative_parts == Some(parts),
            parts@.len() > 0,
            forall|k: int| 0 <= k < i ==> !spec_parts_match(pattern_segments(#[trigger] patterns@[k]@), strs(parts@)),
        decreases patterns.len() - i,
    {
        if workspace_pattern_matches_parts(patterns[i].as_str(), parts) {
            assert(spec_parts_match(pattern_segments(patterns@[i as int]@), strs(parts@)));
            return true;
        }
        i = i + 1;
    }
    false
}

} // verus!
