//! Poetry's `poetry.lock`, and PEP 503 package names.
use vstd::prelude::*;
use crate::{Dependency, DependencyView};
use crate::ecosystem::Ecosystem;
use crate::report::opt_view;
use crate::text::{
    chars_of, string_push, string_of_str, string_of_range, lines, line_at, trim_range, trim,
    is_ws, is_whitespace, ascii_lower, to_ascii_lowercase, starts_with, find_seq, find_pattern,
};
use crate::version::is_digit;
use super::{
    ResolutionMode, ResolutionResult, ResolutionView, ResolvedVersion, ResolutionKey,
    ResolutionSource, empty_resolution, dep_views, insert_v, push_issue_for_v, fallback_v,
    out_of_sync_spec, missing_entry_spec, no_sync_spec, out_of_sync_issue, missing_entry_issue,
    no_trusted_lockfile_sync_issue, add_manifest_exact_fallback,
};

verus! {

/// What `str::to_lowercase` returns for `s` (Unicode lowercase mapping).
pub uninterp spec fn str_lowercase(s: Seq<char>) -> Seq<char>;

/// `str::to_lowercase`.
#[verifier::external_body]
pub(crate) fn to_lowercase(s: &str) -> (r: String)
    ensures
        r@ == str_lowercase(s@),
{
    s.to_lowercase()
}

pub open spec fn is_sep(c: char) -> bool {
    c == '-' || c == '_' || c == '.'
}

/// `s` with each run of `-`, `_` and `.` replaced by a single `-`
/// (`after_sep`: the text before `s` ended in such a run).
pub open spec fn collapse_from(s: Seq<char>, after_sep: bool) -> Seq<char>
    decreases s.len(),
{
    if s.len() == 0 {
        seq![]
    } else if is_sep(s[0]) {
        (if after_sep {
            seq![]
        } else {
            seq!['-']
        }) + collapse_from(s.drop_first(), true)
    } else {
        seq![s[0]] + collapse_from(s.drop_first(), false)
    }
}

/// PEP 503 normalization: lowercase, then each run of `-`, `_`, `.`
/// becomes one `-`.
pub open spec fn spec_normalize(name: Seq<char>) -> Seq<char> {
    collapse_from(str_lowercase(name), false)
}

/// A collapsed name holds no `_` and no `.`, and no `-` right after
/// another `-` (nor first, when `after_sep`).
pub proof fn lemma_collapse_shape(s: Seq<char>, after_sep: bool)
    ensures
        forall|i: int|
            0 <= i < collapse_from(s, after_sep).len() ==> #[trigger] collapse_from(s, after_sep)[i] != '_'
                && collapse_from(s, after_sep)[i] != '.',
        forall|i: int|
            0 <= i < collapse_from(s, after_sep).len() - 1 ==> !(#[trigger] collapse_from(s, after_sep)[i] == '-'
                && collapse_from(s, after_sep)[i + 1] == '-'),
        after_sep && collapse_from(s, after_sep).len() > 0 ==> collapse_from(s, after_sep)[0] != '-',
    decreases s.len(),
{
    if s.len() > 0 {
        let r = collapse_from(s, after_sep);
        if is_sep(s[0]) {
            lemma_collapse_shape(s.drop_first(), true);
            let rest = collapse_from(s.drop_first(), true);
            if after_sep {
                assert(r == rest);
            } else {
                assert(r == seq!['-'] + rest);
                assert forall|i: int| 0 <= i < r.len() implies #[trigger] r[i] != '_' && r[i] != '.' by {
                    if i > 0 {
                        assert(r[i] == rest[i - 1]);
                    }
                }
                assert forall|i: int| 0 <= i < r.len() - 1 implies !(#[trigger] r[i] == '-' && r[i + 1] == '-') by {
                    assert(r[i + 1] == rest[i]);
                    if i > 0 {
                        assert(r[i] == rest[i - 1]);
                    }
                }
            }
        } else {
            lemma_collapse_shape(s.drop_first(), false);
            let rest = collapse_from(s.drop_first(), false);
            assert(r == seq![s[0]] + rest);
            assert forall|i: int| 0 <= i < r.len() implies #[trigger] r[i] != '_' && r[i] != '.' by {
                if i > 0 {
                    assert(r[i] == rest[i - 1]);
                }
            }
            assert forall|i: int| 0 <= i < r.len() - 1 implies !(#[trigger] r[i] == '-' && r[i + 1] == '-') by {
                assert(r[i + 1] == rest[i]);
                if i > 0 {
                    assert(r[i] == rest[i - 1]);
                }
            }
        }
    }
}

/// Collapsing separators twice gives what collapsing once gives.
pub proof fn lemma_collapse_idempotent(s: Seq<char>, after_sep: bool)
    ensures
        collapse_from(collapse_from(s, after_sep), after_sep) == collapse_from(s, after_sep),
    decreases s.len(),
{
    if s.len() > 0 {
        let t = collapse_from(s, after_sep);
        if is_sep(s[0]) {
            lemma_collapse_idempotent(s.drop_first(), true);
            let rest = collapse_from(s.drop_first(), true);
            if !after_sep {
                assert(t == seq!['-'] + rest);
                assert(t.drop_first() == rest);
            }
        } else {
            lemma_collapse_idempotent(s.drop_first(), false);
            let rest = collapse_from(s.drop_first(), false);
            assert(t == seq![s[0]] + rest);
            assert(t.drop_first() == rest);
        }
    }
}

/// A normalized name holds no `_` and no `.`, and no two `-` in a row; and
/// normalizing it again gives it back whenever lowercasing leaves it
/// unchanged (this library states nothing of `str::to_lowercase` on its
/// own results).
pub proof fn lemma_normalize_shape(name: Seq<char>)
    ensures
        forall|i: int|
            0 <= i < spec_normalize(name).len() ==> #[trigger] spec_normalize(name)[i] != '_'
                && spec_normalize(name)[i] != '.',
        forall|i: int|
            0 <= i < spec_normalize(name).len() - 1 ==> !(#[trigger] spec_normalize(name)[i] == '-'
                && spec_normalize(name)[i + 1] == '-'),
        str_lowercase(spec_normalize(name)) == spec_normalize(name) ==> spec_normalize(spec_normalize(name))
            == spec_normalize(name),
{
    lemma_collapse_shape(str_lowercase(name), false);
    lemma_collapse_idempotent(str_lowercase(name), false);
}

/// Replaces each run of `-`, `_` and `.` of an already lowercased name
/// with a single `-`.
pub fn collapse_separators(lower: &str) -> (r: String)
    ensures
        r@ == collapse_from(lower@, false),
{
    let v = chars_of(lower);
    let mut out = String::new();
    let mut last_was_sep = false;
    let mut i: usize = 0;
    assert(v@.subrange(0, v@.len() as int) == v@);
    while i < v.len()
        invariant
            i <= v@.len(),
            v@ == lower@,
            out@ + collapse_from(v@.subrange(i as int, v@.len() as int), last_was_sep)
                == collapse_from(lower@, false),
        decreases v.len() - i,
    {
        let ghost rest = v@.subrange(i as int, v@.len() as int);
        let ghost before = out@;
        assert(rest[0] == v@[i as int]);
        assert(rest.drop_first() == v@.subrange(i + 1, v@.len() as int));
        let ch = v[i];
        if ch == '-' || ch == '_' || ch == '.' {
            if !last_was_sep {
                string_push(&mut out, '-');
                assert(before + (seq!['-'] + collapse_from(rest.drop_first(), true)) == out@
                    + collapse_from(rest.drop_first(), true));
            } else {
                assert(seq![] + collapse_from(rest.drop_first(), true) == collapse_from(
                    rest.drop_first(),
                    true,
                ));
            }
            last_was_sep = true;
        } else {
            string_push(&mut out, ch);
            assert(before + (seq![ch] + collapse_from(rest.drop_first(), false)) == out@
                + collapse_from(rest.drop_first(), false));
            last_was_sep = false;
        }
        i = i + 1;
    }
    assert(v@.subrange(i as int, v@.len() as int) == Seq::<char>::empty());
    assert(out@ + Seq::<char>::empty() == out@);
    out
}

/// PEP 503 normalization: lowercase, replace runs of `[-_.]` with `-`.
pub fn normalize_name(name: &str) -> (r: String)
    ensures
        r@ == spec_normalize(name@),
{
    let lower = to_lowercase(name);
    collapse_separators(lower.as_str())
}

/// The `[package.source]` table of a package: its `type`, `url` and
/// `reference` strings.
#[derive(Debug)]
pub struct PoetrySource {
    pub source_type: Option<String>,
    pub url: Option<String>,
    pub reference: Option<String>,
}

/// One entry of a `files` array: its `file` and `hash` strings (`None`
/// where missing or not a string).
#[derive(Debug)]
pub struct PoetryFileEntry {
    pub file: Option<String>,
    pub hash: Option<String>,
}

/// One `[[package]]` table of `poetry.lock`: its `name` and `version`
/// strings (`None` where missing or not a string), its `source` key
/// (`None` where it is missing, `Some(None)` where it is not a table), and
/// its `files` array (`None` where there is none), with `None` for each
/// entry that is not a table.
#[derive(Debug)]
pub struct PoetryPackage {
    pub name: Option<String>,
    pub version: Option<String>,
    pub source: Option<Option<PoetrySource>>,
    pub files: Option<Vec<Option<PoetryFileEntry>>>,
}

/// The `[metadata]` table of `poetry.lock`: its `lock-version` and
/// `content-hash` strings, and its `files` table (`None` where missing or
/// not a table) with, for each package name, its array of file entries
/// (`None` where the value is not an array).
#[derive(Debug)]
pub struct PoetryMetadata {
    pub lock_version: Option<String>,
    pub content_hash: Option<String>,
    pub files: Option<Vec<(String, Option<Vec<Option<PoetryFileEntry>>>)>>,
}

/// A parsed `poetry.lock`: the `package` array, if there is one, with
/// `None` for each entry that is not a table; and the `[metadata]` table,
/// where it is one.
#[derive(Debug)]
pub struct PoetryLock {
    pub packages: Option<Vec<Option<PoetryPackage>>>,
    pub metadata: Option<PoetryMetadata>,
}

pub open spec fn package_views(lock: PoetryLock) -> Seq<Option<(Option<Seq<char>>, Option<Seq<char>>)>> {
    match lock.packages {
        Some(ps) => ps@.map_values(
            |p: Option<PoetryPackage>|
                match p {
                    Some(t) => Some((opt_view(t.name), opt_view(t.version))),
                    None => None,
                },
        ),
        None => Seq::empty(),
    }
}

pub open spec fn pairs_of(ps: Seq<Option<(Option<Seq<char>>, Option<Seq<char>>)>>) -> Seq<(Seq<char>, Seq<char>)>
    decreases ps.len(),
{
    if ps.len() == 0 {
        seq![]
    } else {
        (match ps[0] {
            Some((Some(n), Some(v))) => seq![(n, v)],
            _ => seq![],
        }) + pairs_of(ps.drop_first())
    }
}

/// The `(name, version)` of each package table that has both, in order.
pub open spec fn spec_packages(lock: PoetryLock) -> Seq<(Seq<char>, Seq<char>)> {
    pairs_of(package_views(lock))
}

pub open spec fn pairs_view(s: Seq<(String, String)>) -> Seq<(Seq<char>, Seq<char>)> {
    s.map_values(|p: (String, String)| (p.0@, p.1@))
}

/// `(name, version)` of each package of a parsed `poetry.lock`.
pub fn extract_packages(parsed: &PoetryLock) -> (r: Vec<(String, String)>)
    ensures
        pairs_view(r@) == spec_packages(*parsed),
{
    let mut out: Vec<(String, String)> = Vec::new();
    let Some(packages) = &parsed.packages else {
        assert(pairs_view(out@) =~= Seq::<(Seq<char>, Seq<char>)>::empty());
        return out;
    };
    let ghost ps = package_views(*parsed);
    let mut i: usize = 0;
    assert(ps.subrange(0, ps.len() as int) == ps);
    assert(pairs_view(out@) =~= Seq::<(Seq<char>, Seq<char>)>::empty());
    while i < packages.len()
        invariant
            i <= packages@.len(),
            parsed.packages == Some(*packages),
            ps == package_views(*parsed),
            pairs_view(out@) + pairs_of(ps.subrange(i as int, ps.len() as int)) == pairs_of(ps),
        decreases packages.len() - i,
    {
        let ghost before = pairs_view(out@);
        let ghost rest = ps.subrange(i as int, ps.len() as int);
        proof {
            assert(rest.drop_first() == ps.subrange(i + 1, ps.len() as int));
            assert(rest[0] == ps[i as int]);
        }
        let mut pushed = false;
        if let Some(pkg) = &packages[i] {
            if let (Some(name), Some(version)) = (&pkg.name, &pkg.version) {
                out.push((name.clone(), version.clone()));
                pushed = true;
                proof {
                    let e = (name@, version@);
                    assert(pairs_view(out@) =~= before.push(e));
                    assert(before + (seq![e] + pairs_of(rest.drop_first())) == before.push(e)
                        + pairs_of(rest.drop_first()));
                }
            }
        }
        if !pushed {
            assert(seq![] + pairs_of(rest.drop_first()) == pairs_of(rest.drop_first()));
        }
        i = i + 1;
    }
    assert(ps.subrange(i as int, ps.len() as int) == Seq::<Option<(Option<Seq<char>>, Option<Seq<char>>)>>::empty());
    assert(pairs_view(out@) + Seq::<(Seq<char>, Seq<char>)>::empty() == pairs_view(out@));
    out
}

/// The versions of the packages whose normalized name is `key`, in order.
pub open spec fn candidates(ps: Seq<(Seq<char>, Seq<char>)>, key: Seq<char>) -> Seq<Seq<char>>
    decreases ps.len(),
{
    if ps.len() == 0 {
        seq![]
    } else {
        (if spec_normalize(ps[0].0) == key {
            seq![ps[0].1]
        } else {
            seq![]
        }) + candidates(ps.drop_first(), key)
    }
}

/// One dependency against `poetry.lock`: a pinned dependency resolves to
/// the locked version equal to its pin, else it is out of sync with the
/// first candidate (or missing) and falls back to its pin; an unpinned one
/// takes the first candidate, except that in `Direct` mode a requirement
/// that pins nothing is not taken as proven; no candidate is missing.
pub open spec fn poetry_step(
    r: ResolutionView,
    d: DependencyView,
    cands: Seq<Seq<char>>,
    mode: ResolutionMode,
) -> ResolutionView {
    match d.exact() {
        Some(e) => {
            if cands.contains(e) {
                insert_v(r, d, e, ResolutionSource::Lockfile)
            } else if cands.len() > 0 {
                fallback_v(push_issue_for_v(r, d, out_of_sync_spec(d, cands[0])), d)
            } else {
                fallback_v(push_issue_for_v(r, d, missing_entry_spec(d, "poetry.lock"@)), d)
            }
        },
        None => {
            if cands.len() > 0 {
                if mode == ResolutionMode::Direct && d.version is Some {
                    push_issue_for_v(r, d, no_sync_spec(d, "poetry.lock"@))
                } else {
                    insert_v(r, d, cands[0], ResolutionSource::Lockfile)
                }
            } else {
                fallback_v(push_issue_for_v(r, d, missing_entry_spec(d, "poetry.lock"@)), d)
            }
        },
    }
}

pub open spec fn poetry_fold(
    r: ResolutionView,
    deps: Seq<DependencyView>,
    ps: Seq<(Seq<char>, Seq<char>)>,
    mode: ResolutionMode,
) -> ResolutionView
    decreases deps.len(),
{
    if deps.len() == 0 {
        r
    } else {
        poetry_fold(
            poetry_step(r, deps[0], candidates(ps, spec_normalize(deps[0].name)), mode),
            deps.drop_first(),
            ps,
            mode,
        )
    }
}

pub open spec fn spec_resolve(lock: PoetryLock, deps: Seq<DependencyView>, mode: ResolutionMode) -> ResolutionView {
    poetry_fold(empty_resolution(), deps, spec_packages(lock), mode)
}

/// The candidate versions for the normalized name `key`.
fn candidates_for(normalized: &Vec<(String, String)>, key: &str, ghost_ps: Ghost<Seq<(Seq<char>, Seq<char>)>>) -> (r: Vec<String>)
    requires
        normalized@.len() == ghost_ps@.len(),
        forall|j: int|
            0 <= j < normalized@.len() ==> (#[trigger] normalized@[j]).0@ == spec_normalize(ghost_ps@[j].0)
                && normalized@[j].1@ == ghost_ps@[j].1,
    ensures
        crate::order::svs(r@) == candidates(ghost_ps@, key@),
{
    let ghost ps = ghost_ps@;
    let mut out: Vec<String> = Vec::new();
    let mut i: usize = 0;
    assert(ps.subrange(0, ps.len() as int) == ps);
    assert(crate::order::svs(out@) =~= Seq::<Seq<char>>::empty());
    while i < normalized.len()
        invariant
            i <= normalized@.len(),
            ps == ghost_ps@,
            normalized@.len() == ps.len(),
            forall|j: int|
                0 <= j < normalized@.len() ==> (#[trigger] normalized@[j]).0@ == spec_normalize(ps[j].0)
                    && normalized@[j].1@ == ps[j].1,
            crate::order::svs(out@) + candidates(ps.subrange(i as int, ps.len() as int), key@)
                == candidates(ps, key@),
        decreases normalized.len() - i,
    {
        let ghost before = crate::order::svs(out@);
        let ghost rest = ps.subrange(i as int, ps.len() as int);
        proof {
            assert(rest.drop_first() == ps.subrange(i + 1, ps.len() as int));
            assert(rest[0] == ps[i as int]);
            assert(normalized@[i as int].0@ == spec_normalize(ps[i as int].0));
        }
        if crate::text::str_eq(normalized[i].0.as_str(), key) {
            out.push(normalized[i].1.clone());
            assert(crate::order::svs(out@) =~= before.push(ps[i as int].1));
            assert(before + (seq![ps[i as int].1] + candidates(rest.drop_first(), key@))
                == before.push(ps[i as int].1) + candidates(rest.drop_first(), key@));
        } else {
            assert(seq![] + candidates(rest.drop_first(), key@) == candidates(rest.drop_first(), key@));
        }
        i = i + 1;
    }
    assert(ps.subrange(i as int, ps.len() as int) == Seq::<(Seq<char>, Seq<char>)>::empty());
    assert(crate::order::svs(out@) + Seq::<Seq<char>>::empty() == crate::order::svs(out@));
    out
}

/// Resolves against a parsed `poetry.lock`; names match after PEP 503
/// normalization.
pub fn resolve_from_value_with_mode(parsed: &PoetryLock, deps: &[Dependency], mode: ResolutionMode) -> (r: ResolutionResult)
    ensures
        r.wf(),
        r@ == spec_resolve(*parsed, dep_views(deps@), mode),
{
    let packages = extract_packages(parsed);
    let ghost ps = pairs_view(packages@);
    let mut normalized: Vec<(String, String)> = Vec::new();
    let mut k: usize = 0;
    while k < packages.len()
        invariant
            k <= packages@.len(),
            ps == pairs_view(packages@),
            normalized@.len() == k,
            forall|j: int|
                0 <= j < k ==> (#[trigger] normalized@[j]).0@ == spec_normalize(ps[j].0)
                    && normalized@[j].1@ == ps[j].1,
        decreases packages.len() - k,
    {
        normalized.push((normalize_name(packages[k].0.as_str()), packages[k].1.clone()));
        k = k + 1;
    }
    let ghost all = dep_views(deps@);
    let mut result = ResolutionResult::new();
    let mut i: usize = 0;
    assert(all.subrange(0, all.len() as int) == all);
    while i < deps.len()
        invariant
            i <= deps@.len(),
            all == dep_views(deps@),
            ps == spec_packages(*parsed),
            normalized@.len() == ps.len(),
            forall|j: int|
                0 <= j < normalized@.len() ==> (#[trigger] normalized@[j]).0@ == spec_normalize(ps[j].0)
                    && normalized@[j].1@ == ps[j].1,
            result.wf(),
            poetry_fold(result@, all.subrange(i as int, all.len() as int), ps, mode) == poetry_fold(
                empty_resolution(),
                all,
                ps,
                mode,
            ),
        decreases deps.len() - i,
    {
        let dep = &deps[i];
        proof {
            let rest = all.subrange(i as int, all.len() as int);
            assert(rest[0] == dep@);
            assert(rest.drop_first() == all.subrange(i + 1, all.len() as int));
        }
        let key = normalize_name(dep.name.as_str());
        let cands = candidates_for(&normalized, key.as_str(), Ghost(ps));
        let ghost cs = crate::order::svs(cands@);
        match dep.exact_version() {
            Some(exact) => {
                if super::contains_string(&cands, exact.as_str()) {
                    result.insert_exact(
                        ResolutionKey::from(dep),
                        ResolvedVersion { version: exact, source: ResolutionSource::Lockfile },
                    );
                } else {
                    if cands.len() > 0 {
                        assert(cs[0] == cands@[0]@);
                        result.push_issue_for(dep, out_of_sync_issue(dep, cands[0].as_str()));
                    } else {
                        result.push_issue_for(dep, missing_entry_issue(dep, "poetry.lock"));
                    }
                    add_manifest_exact_fallback(&mut result, dep);
                }
            },
            None => {
                if cands.len() > 0 {
                    assert(cs[0] == cands@[0]@);
                    if mode == ResolutionMode::Direct && dep.version.is_some() {
                        result.push_issue_for(dep, no_trusted_lockfile_sync_issue(dep, "poetry.lock"));
                    } else {
                        result.insert_exact(
                            ResolutionKey::from(dep),
                            ResolvedVersion { version: cands[0].clone(), source: ResolutionSource::Lockfile },
                        );
                    }
                } else {
                    result.push_issue_for(dep, missing_entry_issue(dep, "poetry.lock"));
                    add_manifest_exact_fallback(&mut result, dep);
                }
            },
        }
        i = i + 1;
    }
    assert(all.subrange(i as int, all.len() as int) == Seq::<DependencyView>::empty());
    result
}

/// `resolve_from_value_with_mode` for direct dependencies.
pub fn resolve_from_value(parsed: &PoetryLock, deps: &[Dependency]) -> (r: ResolutionResult)
    ensures
        r.wf(),
        r@ == spec_resolve(*parsed, dep_views(deps@), ResolutionMode::Direct),
{
    resolve_from_value_with_mode(parsed, deps, ResolutionMode::Direct)
}

/// Every package of a parsed `poetry.lock`, as a PyPI dependency.
pub fn parse_all_from_value(parsed: &PoetryLock) -> (r: Vec<Dependency>)
    ensures
        r@.len() == spec_packages(*parsed).len(),
        forall|i: int|
            0 <= i < r@.len() ==> (#[trigger] r@[i])@ == (DependencyView {
                name: spec_packages(*parsed)[i].0,
                version: Some(spec_packages(*parsed)[i].1),
                ecosystem: Ecosystem::PyPI,
                actual_name: None,
            }),
{
    let entries = extract_packages(parsed);
    let mut r: Vec<Dependency> = Vec::new();
    let mut i: usize = 0;
    while i < entries.len()
        invariant
            i <= entries@.len(),
            pairs_view(entries@) == spec_packages(*parsed),
            r@.len() == i,
            forall|j: int|
                0 <= j < i ==> (#[trigger] r@[j])@ == (DependencyView {
                    name: spec_packages(*parsed)[j].0,
                    version: Some(spec_packages(*parsed)[j].1),
                    ecosystem: Ecosystem::PyPI,
                    actual_name: None,
                }),
        decreases entries.len() - i,
    {
        assert(pairs_view(entries@)[i as int] == (entries@[i as int].0@, entries@[i as int].1@));
        r.push(
            Dependency {
                name: entries[i].0.clone(),
                version: Some(entries[i].1.clone()),
                ecosystem: Ecosystem::PyPI,
                actual_name: None,
            },
        );
        i = i + 1;
    }
    r
}

} // verus!

verus! {

// ---- versions in poetry.lock metadata ----
pub open spec fn all_digits(s: Seq<char>) -> bool {
    forall|i: int| 0 <= i < s.len() ==> is_digit(#[trigger] s[i])
}

/// The number that the decimal digits `s` spell.
pub open spec fn digits_value(s: Seq<char>) -> int
    decreases s.len(),
{
    if s.len() == 0 {
        0
    } else {
        digits_value(s.drop_last()) * 10 + (s.last() as int - '0' as int)
    }
}

/// `str::parse::<u64>`: an optional `+`, then one or more decimal digits
/// whose value fits in a `u64`.
pub open spec fn spec_parse_u64(s: Seq<char>) -> Option<u64> {
    let d = if s.len() > 0 && s[0] == '+' {
        s.drop_first()
    } else {
        s
    };
    if d.len() > 0 && all_digits(d) && digits_value(d) <= u64::MAX {
        Some(digits_value(d) as u64)
    } else {
        None
    }
}

proof fn lemma_digits_value_grows(d: Seq<char>, k: int)
    requires
        0 <= k <= d.len(),
        all_digits(d),
    ensures
        digits_value(d) >= digits_value(d.subrange(0, k)),
        digits_value(d.subrange(0, k)) >= 0,
    decreases d.len() - k,
{
    if k < d.len() {
        let t = d.drop_last();
        assert(all_digits(t)) by {
            assert forall|i: int| 0 <= i < t.len() implies is_digit(#[trigger] t[i]) by {
                assert(t[i] == d[i]);
            }
        }
        lemma_digits_value_grows(t, k);
        assert(t.subrange(0, k) == d.subrange(0, k));
        assert(is_digit(d[d.len() - 1]));
        lemma_digits_value_grows(t, t.len() as int);
        assert(t.subrange(0, t.len() as int) == t);
    } else {
        assert(d.subrange(0, k) == d);
        lemma_digits_value_nonneg(d);
    }
}

proof fn lemma_digits_value_nonneg(d: Seq<char>)
    requires
        all_digits(d),
    ensures
        digits_value(d) >= 0,
    decreases d.len(),
{
    if d.len() > 0 {
        let t = d.drop_last();
        assert forall|i: int| 0 <= i < t.len() implies is_digit(#[trigger] t[i]) by {
            assert(t[i] == d[i]);
        }
        lemma_digits_value_nonneg(t);
        assert(is_digit(d[d.len() - 1]));
    }
}

/// `v[lo..hi].parse::<u64>()`.
pub fn parse_u64_range(v: &Vec<char>, lo: usize, hi: usize) -> (r: Option<u64>)
    requires
        lo <= hi <= v.len(),
    ensures
        r == spec_parse_u64(v@.subrange(lo as int, hi as int)),
{
    let ghost s = v@.subrange(lo as int, hi as int);
    let start = if lo < hi && v[lo] == '+' {
        lo + 1
    } else {
        lo
    };
    let ghost d = v@.subrange(start as int, hi as int);
    proof {
        if lo < hi && v@[lo as int] == '+' {
            assert(s[0] == v@[lo as int]);
            assert(s.drop_first() == d);
        } else {
            if lo < hi {
                assert(s[0] == v@[lo as int]);
            }
            assert(s == d);
        }
    }
    if start == hi {
        return None;
    }
    let mut acc: u64 = 0;
    let mut i = start;
    assert(d.subrange(0, 0) == Seq::<char>::empty());
    while i < hi
        invariant
            start <= i <= hi <= v.len(),
            start < hi,
            d == v@.subrange(start as int, hi as int),
            spec_parse_u64(v@.subrange(lo as int, hi as int)) == (if d.len() > 0 && all_digits(d)
                && digits_value(d) <= u64::MAX {
                Some(digits_value(d) as u64)
            } else {
                None
            }),
            all_digits(d.subrange(0, i - start)),
            acc as int == digits_value(d.subrange(0, i - start)),
        decreases hi - i,
    {
        let c = v[i];
        assert(d[i - start] == c);
        if !('0' <= c && c <= '9') {
            assert(!all_digits(d));
            return None;
        }
        let digit = (c as u32 - '0' as u32) as u64;
        let ghost p1 = d.subrange(0, i - start + 1);
        assert(p1.drop_last() == d.subrange(0, i - start));
        assert(p1.last() == c);
        assert(all_digits(p1)) by {
            assert forall|k: int| 0 <= k < p1.len() implies is_digit(#[trigger] p1[k]) by {
                if k < p1.len() - 1 {
                    assert(p1[k] == d.subrange(0, i - start)[k]);
                }
            }
        }
        if acc > (u64::MAX - digit) / 10 {
            proof {
                assert(digits_value(p1) == acc * 10 + digit);
                assert(acc * 10 + digit > u64::MAX) by (nonlinear_arith)
                    requires
                        acc > (u64::MAX - digit) / 10,
                        digit <= 9,
                ;
                if all_digits(d) {
                    lemma_digits_value_grows(d, i - start + 1);
                }
            }
            return None;
        }
        assert(acc * 10 + digit <= u64::MAX) by (nonlinear_arith)
            requires
                acc <= (u64::MAX - digit) / 10,
                digit <= 9,
        ;
        acc = acc * 10 + digit;
        i = i + 1;
    }
    assert(d.subrange(0, d.len() as int) == d);
    Some(acc)
}

/// The `n`-th `.`-separated field of `s`, if `s` has that many.
pub open spec fn field(s: Seq<char>, n: nat) -> Option<Seq<char>>
    decreases n,
{
    let i = crate::text::index_of(s, '.');
    if n == 0 {
        Some(s.subrange(0, i as int))
    } else if i < s.len() {
        field(s.subrange(i as int + 1, s.len() as int), (n - 1) as nat)
    } else {
        None
    }
}

/// A field as a number; a missing field counts as `0`.
pub open spec fn field_or_zero(s: Seq<char>, n: nat) -> Option<u64> {
    match field(s, n) {
        Some(f) => spec_parse_u64(f),
        None => Some(0),
    }
}

/// Bounds of field `n` of `v[lo..hi]`, if there is one.
fn field_range(v: &Vec<char>, lo: usize, hi: usize, n: usize) -> (r: Option<(usize, usize)>)
    requires
        lo <= hi <= v.len(),
    ensures
        match r {
            Some((a, b)) => lo <= a <= b <= hi && field(v@.subrange(lo as int, hi as int), n as nat)
                == Some(v@.subrange(a as int, b as int)),
            None => field(v@.subrange(lo as int, hi as int), n as nat) is None,
        },
    decreases n,
{
    let i = crate::text::find_char(v, lo, hi, '.');
    let ghost s = v@.subrange(lo as int, hi as int);
    proof {
        crate::text::lemma_index_of_bound(s, '.');
    }
    if n == 0 {
        assert(s.subrange(0, (i - lo) as int) == v@.subrange(lo as int, i as int));
        Some((lo, i))
    } else if i < hi {
        assert(s.subrange(i - lo + 1, s.len() as int) == v@.subrange(i + 1, hi as int));
        field_range(v, i + 1, hi, n - 1)
    } else {
        None
    }
}

fn field_or_zero_range(v: &Vec<char>, lo: usize, hi: usize, n: usize) -> (r: Option<u64>)
    requires
        lo <= hi <= v.len(),
    ensures
        r == field_or_zero(v@.subrange(lo as int, hi as int), n as nat),
{
    match field_range(v, lo, hi, n) {
        Some((a, b)) => parse_u64_range(v, a, b),
        None => Some(0),
    }
}

/// `major.minor` of a version string (trimmed); a missing minor is `0`.
pub open spec fn spec_simple_version(value: Seq<char>) -> Result<(u64, u64), Seq<char>> {
    let t = trim(value);
    match field_or_zero(t, 0) {
        None => Err("invalid major version"@),
        Some(major) => match field_or_zero(t, 1) {
            None => Err("invalid minor version"@),
            Some(minor) => Ok((major, minor)),
        },
    }
}

pub fn parse_simple_version(value: &str) -> (r: Result<(u64, u64), String>)
    ensures
        match (r, spec_simple_version(value@)) {
            (Ok(a), Ok(b)) => a == b,
            (Err(e), Err(m)) => e@ == m,
            _ => false,
        },
{
    let v = chars_of(value);
    let (lo, hi) = trim_range(&v, 0, v.len());
    assert(v@.subrange(0, v@.len() as int) == v@);
    let Some(major) = field_or_zero_range(&v, lo, hi, 0) else {
        return Err(string_of_str("invalid major version"));
    };
    let Some(minor) = field_or_zero_range(&v, lo, hi, 1) else {
        return Err(string_of_str("invalid minor version"));
    };
    Ok((major, minor))
}

/// `major.minor.patch` of the leading digits and dots of a version
/// string; a missing minor or patch is `0`.
pub open spec fn digit_or_dot() -> spec_fn(char) -> bool {
    |c: char| is_digit(c) || c == '.'
}

#[verifier::opaque]
pub open spec fn spec_semver_like(value: Seq<char>) -> Result<(u64, u64, u64), Seq<char>> {
    let p = digit_or_dot();
    let token = value.subrange(0, crate::text::lead_count(value, p) as int);
    match field_or_zero(token, 0) {
        None => Err("invalid major version"@),
        Some(major) => match field_or_zero(token, 1) {
            None => Err("invalid minor version"@),
            Some(minor) => match field_or_zero(token, 2) {
                None => Err("invalid patch version"@),
                Some(patch) => Ok((major, minor, patch)),
            },
        },
    }
}

fn semver_like_range(v: &Vec<char>, lo: usize, hi: usize) -> (r: Result<(u64, u64, u64), String>)
    requires
        lo <= hi <= v.len(),
    ensures
        match (r, spec_semver_like(v@.subrange(lo as int, hi as int))) {
            (Ok(a), Ok(b)) => a == b,
            (Err(e), Err(m)) => e@ == m,
            _ => false,
        },
{
    reveal(spec_semver_like);
    let ghost s = v@.subrange(lo as int, hi as int);
    let ghost p = digit_or_dot();
    let mut e = lo;
    while e < hi && (('0' <= v[e] && v[e] <= '9') || v[e] == '.')
        invariant
            lo <= e <= hi <= v.len(),
            p == digit_or_dot(),
            forall|k: int| lo <= k < e ==> #[trigger] p(v@[k]),
        decreases hi - e,
    {
        assert(p(v@[e as int]));
        e = e + 1;
    }
    proof {
        assert forall|k: int| 0 <= k < e - lo implies #[trigger] p(s[k]) by {
            assert(s[k] == v@[lo + k]);
        }
        if e < hi {
            assert(s[e - lo] == v@[e as int]);
        }
        crate::text::lemma_lead_count_exact(s, p, e - lo);
        assert(s.subrange(0, (e - lo) as int) == v@.subrange(lo as int, e as int));
    }
    let Some(major) = field_or_zero_range(v, lo, e, 0) else {
        return Err(string_of_str("invalid major version"));
    };
    let Some(minor) = field_or_zero_range(v, lo, e, 1) else {
        return Err(string_of_str("invalid minor version"));
    };
    let Some(patch) = field_or_zero_range(v, lo, e, 2) else {
        return Err(string_of_str("invalid patch version"));
    };
    Ok((major, minor, patch))
}

pub fn parse_semver_like(value: &str) -> (r: Result<(u64, u64, u64), String>)
    ensures
        match (r, spec_semver_like(value@)) {
            (Ok(a), Ok(b)) => a == b,
            (Err(e), Err(m)) => e@ == m,
            _ => false,
        },
{
    let v = chars_of(value);
    assert(v@.subrange(0, v@.len() as int) == v@);
    semver_like_range(&v, 0, v.len())
}

/// Poetry lock formats 1.x and 2.x are trusted.
pub open spec fn spec_lock_version_supported(lock_version: Seq<char>) -> bool {
    match spec_simple_version(lock_version) {
        Ok((major, _)) => 1 <= major < 3,
        Err(_) => false,
    }
}

pub fn poetry_lock_version_supported(lock_version: &str) -> (b: bool)
    ensures
        b == spec_lock_version_supported(lock_version@),
{
    match parse_simple_version(lock_version) {
        Ok((major, _minor)) => 1 <= major && major < 3,
        Err(_) => false,
    }
}

/// The first whitespace-separated token of `s`.
#[verifier::opaque]
pub open spec fn first_token(s: Seq<char>) -> Option<Seq<char>> {
    let t = crate::text::strip_lead(s, crate::text::ws_pred());
    if t.len() == 0 {
        None
    } else {
        Some(t.subrange(0, crate::text::lead_count(t, |c: char| !is_ws(c)) as int))
    }
}

/// The Poetry version that generated a `poetry.lock`, from its first line
/// (`# This file is automatically @generated by Poetry 2.1.2 ...`).
pub open spec fn spec_generated_version(content: Seq<char>) -> Option<(u64, u64, u64)> {
    let ls = lines(content);
    if ls.len() == 0 {
        None
    } else {
        generated_version_of_line(ls[0])
    }
}

/// The version named after the first `Poetry ` in line `l`.
pub open spec fn generated_version_of_line(l: Seq<char>) -> Option<(u64, u64, u64)> {
    let i = find_seq(l, "Poetry "@);
    if i >= l.len() || i + "Poetry "@.len() > l.len() {
        None
    } else {
        version_after(l, i)
    }
}

/// The version of the first token after `Poetry ` at `i` in line `l`.
pub open spec fn version_after(l: Seq<char>, i: int) -> Option<(u64, u64, u64)> {
    match first_token(l.subrange(i + "Poetry "@.len(), l.len() as int)) {
        None => None,
        Some(tok) => match spec_semver_like(tok) {
            Ok(v) => Some(v),
            Err(_) => None,
        },
    }
}

/// Bounds of the first whitespace-separated token of `v[lo..hi]`.
fn first_token_range(v: &Vec<char>, lo: usize, hi: usize) -> (r: Option<(usize, usize)>)
    requires
        lo <= hi <= v.len(),
    ensures
        match r {
            Some((a, b)) => a <= b <= v.len() && first_token(v@.subrange(lo as int, hi as int)) == Some(v@.subrange(a as int, b as int)),
            None => first_token(v@.subrange(lo as int, hi as int)) is None,
        },
{
    reveal(first_token);
    let ghost rest = v@.subrange(lo as int, hi as int);
    let mut a = lo;
    while a < hi && is_whitespace(v[a])
        invariant
            lo <= a <= hi <= v.len(),
            forall|j: int| lo <= j < a ==> is_ws(#[trigger] v@[j]),
        decreases hi - a,
    {
        a = a + 1;
    }
    proof {
        assert forall|j: int| 0 <= j < a - lo implies #[trigger] crate::text::ws_pred()(rest[j]) by {
            assert(rest[j] == v@[lo + j]);
        }
        if a < hi {
            assert(rest[a - lo] == v@[a as int]);
        }
        crate::text::lemma_lead_count_exact(rest, crate::text::ws_pred(), a - lo);
        assert(crate::text::strip_lead(rest, crate::text::ws_pred()) == v@.subrange(a as int, hi as int));
    }
    if a == hi {
        return None;
    }
    let mut b = a;
    while b < hi && !is_whitespace(v[b])
        invariant
            a <= b <= hi <= v.len(),
            forall|j: int| a <= j < b ==> !is_ws(#[trigger] v@[j]),
        decreases hi - b,
    {
        b = b + 1;
    }
    proof {
        let t = v@.subrange(a as int, hi as int);
        let np = |c: char| !is_ws(c);
        assert forall|j: int| 0 <= j < b - a implies #[trigger] np(t[j]) by {
            assert(t[j] == v@[a + j]);
        }
        if b < hi {
            assert(t[b - a] == v@[b as int]);
        }
        crate::text::lemma_lead_count_exact(t, np, b - a);
        assert(t.subrange(0, (b - a) as int) == v@.subrange(a as int, b as int));
    }
    Some((a, b))
}

fn generated_version_in_line(v: &Vec<char>, lo: usize, hi: usize) -> (r: Option<(u64, u64, u64)>)
    requires
        lo <= hi <= v.len(),
    ensures
        r == generated_version_of_line(v@.subrange(lo as int, hi as int)),
{
    let pat = chars_of("Poetry ");
    proof {
        reveal_strlit("Poetry ");
    }
    let ghost l = v@.subrange(lo as int, hi as int);
    let Some(k) = find_pattern(v, lo, hi, &pat) else {
        return None;
    };
    let start = k + pat.len();
    let ghost tail = v@.subrange(start as int, hi as int);
    assert(l.subrange(start - lo, l.len() as int) == tail);
    let tok = first_token_range(v, start, hi);
    proof {
        assert(pat@ == "Poetry "@);
        assert(version_after(l, k - lo) == match first_token(tail) {
            None => None,
            Some(t) => match spec_semver_like(t) {
                Ok(ver) => Some(ver),
                Err(_) => None,
            },
        });
    }
    match tok {
        None => None,
        Some((a, b)) => match semver_like_range(v, a, b) {
            Ok(ver) => Some(ver),
            Err(_) => None,
        },
    }
}

pub fn generated_poetry_version(lockfile_content: &str) -> (r: Option<(u64, u64, u64)>)
    ensures
        r == spec_generated_version(lockfile_content@),
{
    let v = chars_of(lockfile_content);
    if v.len() == 0 {
        assert(lines(lockfile_content@) == Seq::<Seq<char>>::empty());
        return None;
    }
    let (lo, hi, _next) = line_at(&v, 0);
    proof {
        assert(v@.subrange(0, v@.len() as int) == v@);
    }
    generated_version_in_line(&v, lo, hi)
}

/// `s` with every `a` replaced by `b`.
pub open spec fn replace_char(s: Seq<char>, a: char, b: char) -> Seq<char> {
    s.map_values(|c: char| if c == a { b } else { c })
}

fn replace_chars(s: &str, a: char, b: char) -> (r: String)
    ensures
        r@ == replace_char(s@, a, b),
{
    let v = chars_of(s);
    let mut r = String::new();
    let mut i: usize = 0;
    while i < v.len()
        invariant
            i <= v@.len(),
            v@ == s@,
            r@ == replace_char(v@.subrange(0, i as int), a, b),
        decreases v.len() - i,
    {
        let c = if v[i] == a { b } else { v[i] };
        string_push(&mut r, c);
        assert(replace_char(v@.subrange(0, i + 1), a, b) =~= replace_char(v@.subrange(0, i as int), a, b).push(c));
        i = i + 1;
    }
    assert(v@.subrange(0, v@.len() as int) == v@);
    r
}

/// The spellings of a distribution name that wheel and sdist file names
/// use.
pub open spec fn filename_stems(package: Seq<char>) -> Seq<Seq<char>> {
    let n = spec_normalize(package);
    let l = ascii_lower(package);
    seq![n, replace_char(n, '-', '_'), l, replace_char(l, '-', '_'), replace_char(l, '_', '-')]
}

/// The artifact file name starts (ignoring ASCII case) with one of the
/// package's spellings followed by `-version`.
pub open spec fn spec_filename_matches(package: Seq<char>, version: Seq<char>, file: Seq<char>) -> bool {
    exists|i: int| 0 <= i < 5 && starts_with(ascii_lower(file), #[trigger] filename_stems(package)[i] + seq!['-'] + version)
}

pub fn poetry_filename_matches_package_version(package_name: &str, version: &str, file_name: &str) -> (b: bool)
    ensures
        b == spec_filename_matches(package_name@, version@, file_name@),
{
    let normalized = normalize_name(package_name);
    let lower = to_ascii_lowercase(package_name);
    let mut stems: Vec<String> = Vec::new();
    stems.push(replace_chars(normalized.as_str(), '-', '-'));
    stems.push(replace_chars(normalized.as_str(), '-', '_'));
    stems.push(replace_chars(lower.as_str(), '-', '-'));
    stems.push(replace_chars(lower.as_str(), '-', '_'));
    stems.push(replace_chars(lower.as_str(), '_', '-'));
    let ghost fs = filename_stems(package_name@);
    assert(replace_char(normalized@, '-', '-') =~= normalized@);
    assert(replace_char(lower@, '-', '-') =~= lower@);
    let file_lower = to_ascii_lowercase(file_name);
    let fv = chars_of(file_lower.as_str());
    let mut i: usize = 0;
    while i < 5
        invariant
            i <= 5,
            stems@.len() == 5,
            fs == filename_stems(package_name@),
            forall|k: int| 0 <= k < 5 ==> (#[trigger] stems@[k])@ == fs[k],
            fv@ == ascii_lower(file_name@),
            forall|k: int| 0 <= k < i ==> !starts_with(fv@, #[trigger] fs[k] + seq!['-'] + version@),
        decreases 5 - i,
    {
        let mut cand = stems[i].clone();
        string_push(&mut cand, '-');
        crate::text::push_str(&mut cand, version);
        assert(cand@ =~= fs[i as int] + seq!['-'] + version@);
        let cv = chars_of(cand.as_str());
        assert(fv@.subrange(0, fv@.len() as int) == fv@);
        if crate::text::range_starts_with(&fv, 0, fv.len(), &cv) {
            assert(starts_with(ascii_lower(file_name@), fs[i as int] + seq!['-'] + version@));
            return true;
        }
        i = i + 1;
    }
    false
}

} // verus!
