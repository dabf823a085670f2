//! The parts of a scan's configuration that the policy decisions read.
use vstd::prelude::*;
use crate::text::{chars_of, range_starts_with, str_eq, starts_with};

verus! {

/// Scan configuration.
///
/// `internal` and `allowed` list, per ecosystem name (`"npm"`, `"cargo"`,
/// ...), package name patterns: a pattern is a name, or a prefix followed by
/// `*`. Internal packages get only the vulnerability check; allowed ones
/// skip the existence and similarity checks.
///
/// `trusted_indexes` lists, per ecosystem name, the package indexes (as
/// normalized URLs) that lockfiles may resolve packages from, besides the
/// ecosystem's default index.
///
/// `trusted_cargo_registries` names the Cargo registries (alias and source
/// id) that dependencies may come from besides crates.io;
/// `trusted_cargo_git_sources` lists the git repositories that may be used
/// at all, and `cargo_git_policy` whether git dependencies are allowed.
/// `python_enforcement` says which Python workflows a scan accepts.
/// `trusted_local_paths` lists, per ecosystem name, local directories
/// outside the scan root that local dependencies may point at.
#[derive(Debug)]
pub struct SloppyJoeConfig {
    pub internal: Vec<(String, Vec<String>)>,
    pub allowed: Vec<(String, Vec<String>)>,
    pub trusted_indexes: Vec<(String, Vec<String>)>,
    pub allow_unresolved_versions: bool,
    pub allow_legacy_npm_v1_lockfile: bool,
    pub active_local_overlay_relaxations: Vec<String>,
    pub trusted_cargo_registries: Vec<TrustedRegistry>,
    pub trusted_cargo_git_sources: Vec<String>,
    pub cargo_git_policy: CargoGitPolicy,
    pub python_enforcement: PythonEnforcement,
    pub trusted_local_paths: Vec<(String, Vec<String>)>,
}

/// Whether every Python workflow is accepted (Poetry preferred), or only
/// Poetry.
#[derive(Debug, Clone, Copy, PartialEq, Eq, Structural)]
pub enum PythonEnforcement {
    PreferPoetry,
    PoetryOnly,
}

/// A trusted registry: its alias and its source id (such as
/// `registry+https://...` or `sparse+https://...`).
#[derive(Debug)]
pub struct TrustedRegistry {
    pub name: String,
    pub source: String,
}

/// How a trusted `poetry.lock` that lacks a proof (metadata, content hash,
/// artifact hashes) is treated: refused, or used with a warning.
#[derive(Debug, Clone, Copy, PartialEq, Eq, Structural)]
pub enum PoetryLockPolicy {
    Strict,
    WarnMissingProofs,
}

/// Whether git dependencies are blocked, or allowed with a warning when they
/// are pinned to an exact commit of an allowlisted repository.
#[derive(Debug, Clone, Copy, PartialEq, Eq, Structural)]
pub enum CargoGitPolicy {
    Block,
    WarnPinned,
}

pub open spec fn patterns_view(t: Seq<(String, Vec<String>)>) -> Seq<(Seq<char>, Seq<Seq<char>>)> {
    t.map_values(|e: (String, Vec<String>)| (e.0@, e.1@.map_values(|p: String| p@)))
}

/// `name` matches `pattern`: they are equal, or the pattern ends in `*`
/// and the name starts with what comes before it.
pub open spec fn pattern_matches(pattern: Seq<char>, name: Seq<char>) -> bool {
    ||| pattern == name
    ||| (pattern.len() > 0 && pattern.last() == '*' && starts_with(name, pattern.drop_last()))
}

/// Some pattern listed for `eco` in `t` matches `name`.
pub open spec fn listed(t: Seq<(Seq<char>, Seq<Seq<char>>)>, eco: Seq<char>, name: Seq<char>) -> bool {
    exists|i: int, j: int|
        0 <= i < t.len() && #[trigger] t[i].0 == eco && 0 <= j < t[i].1.len() && pattern_matches(
            #[trigger] t[i].1[j],
            name,
        )
}

pub fn pattern_match(pattern: &str, name: &str) -> (b: bool)
    ensures
        b == pattern_matches(pattern@, name@),
{
    if str_eq(pattern, name) {
        return true;
    }
    let p = chars_of(pattern);
    if p.len() == 0 || p[p.len() - 1] != '*' {
        return false;
    }
    let mut prefix: Vec<char> = Vec::new();
    let mut i: usize = 0;
    while i + 1 < p.len()
        invariant
            i + 1 <= p.len(),
            prefix@ == p@.subrange(0, i as int),
        decreases p.len() - i,
    {
        prefix.push(p[i]);
        assert(p@.subrange(0, i + 1) == p@.subrange(0, i as int).push(p@[i as int]));
        i = i + 1;
    }
    assert(prefix@ == pattern@.drop_last());
    let n = chars_of(name);
    assert(n@.subrange(0, n@.len() as int) == n@);
    range_starts_with(&n, 0, n.len(), &prefix)
}

fn listed_in(t: &Vec<(String, Vec<String>)>, eco: &str, name: &str) -> (b: bool)
    ensures
        b == listed(patterns_view(t@), eco@, name@),
{
    let ghost tv = patterns_view(t@);
    let mut i: usize = 0;
    while i < t.len()
        invariant
            i <= t@.len(),
            tv == patterns_view(t@),
            forall|a: int, j: int|
                0 <= a < i && tv[a].0 == eco@ && 0 <= j < tv[a].1.len() ==> !pattern_matches(
                    #[trigger] tv[a].1[j],
                    name@,
                ),
        decreases t.len() - i,
    {
        if str_eq(t[i].0.as_str(), eco) {
            let ps = &t[i].1;
            let mut j: usize = 0;
            while j < ps.len()
                invariant
                    i < t@.len(),
                    ps@ == t@[i as int].1@,
                    tv == patterns_view(t@),
                    tv[i as int].0 == eco@,
                    j <= ps@.len(),
                    forall|k: int| 0 <= k < j ==> !pattern_matches(#[trigger] tv[i as int].1[k], name@),
                decreases ps.len() - j,
            {
                assert(tv[i as int].1[j as int] == ps@[j as int]@);
                if pattern_match(ps[j].as_str(), name) {
                    assert(listed(tv, eco@, name@));
                    return true;
                }
                j = j + 1;
            }
        }
        i = i + 1;
    }
    false
}

/// The URL of the default Python package index, normalized.
pub open spec fn default_pypi_index() -> Seq<char> {
    "https://pypi.org/simple/"@
}

/// The normalized URL of the default Python package index.
pub fn normalized_default_pypi_index() -> (r: &'static str)
    ensures
        r@ == default_pypi_index(),
{
    "https://pypi.org/simple/"
}

/// A Python index URL, normalized: trimmed, with exactly one trailing `/`.
pub open spec fn spec_normalize_index_url(url: Seq<char>) -> Seq<char> {
    crate::text::trim_end_char(crate::text::trim(url), '/').push('/')
}

/// Normalizes a Python index URL (see `spec_normalize_index_url`).
pub fn normalize_python_index_url(url: &str) -> (r: String)
    ensures
        r@ == spec_normalize_index_url(url@),
{
    let v = chars_of(url);
    assert(v@.subrange(0, v@.len() as int) == v@);
    let (a, b) = crate::text::trim_range(&v, 0, v.len());
    let ghost t = v@.subrange(a as int, b as int);
    let mut e = b;
    while e > a && v[e - 1] == '/'
        invariant
            a <= e <= b <= v.len(),
            t == v@.subrange(a as int, b as int),
            forall|k: int| e <= k < b ==> #[trigger] v@[k] == '/',
        decreases e - a,
    {
        e = e - 1;
    }
    proof {
        let p = crate::text::eq_pred('/');
        assert forall|k: int| t.len() - (b - e) <= k < t.len() implies #[trigger] p(t[k]) by {
            assert(t[k] == v@[a + k]);
        }
        if e > a {
            assert(t[t.len() - (b - e) - 1] == v@[e - 1]);
        }
        crate::text::lemma_trail_count_exact(t, p, b - e);
        assert(crate::text::trim_end_char(t, '/') == v@.subrange(a as int, e as int));
    }
    let mut r = crate::text::string_of_range(&v, a, e);
    crate::text::string_push(&mut r, '/');
    r
}

/// The list of the first entry named `eco` (empty where there is none).
pub open spec fn local_paths_for(t: Seq<(Seq<char>, Seq<Seq<char>>)>, eco: Seq<char>) -> Seq<Seq<char>>
    decreases t.len(),
{
    if t.len() == 0 {
        Seq::empty()
    } else if t[0].0 == eco {
        t[0].1
    } else {
        local_paths_for(t.drop_first(), eco)
    }
}

/// `url` is the default index of `eco` (for `pypi`), or one that the
/// configuration trusts for it.
pub open spec fn trusted_index(t: Seq<(Seq<char>, Seq<Seq<char>>)>, eco: Seq<char>, url: Seq<char>) -> bool {
    ||| (eco == "pypi"@ && url == default_pypi_index())
    ||| exists|i: int, j: int|
        0 <= i < t.len() && #[trigger] t[i].0 == eco && 0 <= j < t[i].1.len() && #[trigger] t[i].1[j]
            == url
}

impl SloppyJoeConfig {
    /// Whether packages of `eco` may resolve from the index at `url`.
    pub fn is_trusted_index(&self, eco: &str, url: &str) -> (b: bool)
        ensures
            b == trusted_index(patterns_view(self.trusted_indexes@), eco@, url@),
    {
        proof {
            reveal_strlit("pypi");
        }
        if str_eq(eco, "pypi") && str_eq(url, "https://pypi.org/simple/") {
            return true;
        }
        let t = &self.trusted_indexes;
        let ghost tv = patterns_view(t@);
        let mut i: usize = 0;
        while i < t.len()
            invariant
                i <= t@.len(),
                t@ == self.trusted_indexes@,
                tv == patterns_view(t@),
                forall|a: int, j: int|
                    0 <= a < i && tv[a].0 == eco@ && 0 <= j < tv[a].1.len() ==> #[trigger] tv[a].1[j] != url@,
            decreases t.len() - i,
        {
            if str_eq(t[i].0.as_str(), eco) {
                let us = &t[i].1;
                let mut j: usize = 0;
                while j < us.len()
                    invariant
                        i < t@.len(),
                        t@ == self.trusted_indexes@,
                        us@ == t@[i as int].1@,
                        tv == patterns_view(t@),
                        tv[i as int].0 == eco@,
                        j <= us@.len(),
                        forall|k: int| 0 <= k < j ==> #[trigger] tv[i as int].1[k] != url@,
                    decreases us.len() - j,
                {
                    assert(tv[i as int].1[j as int] == us@[j as int]@);
                    if str_eq(us[j].as_str(), url) {
                        assert(tv[i as int].1[j as int] == url@);
                        assert(trusted_index(tv, eco@, url@));
                        return true;
                    }
                    j = j + 1;
                }
            }
            i = i + 1;
        }
        false
    }

    /// The local directories trusted for `eco` (those of the first entry
    /// for it).
    pub fn trusted_local_paths_for(&self, eco: &str) -> (r: Vec<String>)
        ensures
            r@.map_values(|p: String| p@) == local_paths_for(patterns_view(self.trusted_local_paths@), eco@),
    {
        let t = &self.trusted_local_paths;
        let ghost tv = patterns_view(t@);
        let mut i: usize = 0;
        assert(tv.subrange(0, tv.len() as int) == tv);
        while i < t.len()
            invariant
                i <= t@.len(),
                t@ == self.trusted_local_paths@,
                tv == patterns_view(t@),
                local_paths_for(tv, eco@) == local_paths_for(tv.subrange(i as int, tv.len() as int), eco@),
            decreases t.len() - i,
        {
            let ghost rest = tv.subrange(i as int, tv.len() as int);
            assert(rest[0] == tv[i as int]);
            assert(rest.drop_first() == tv.subrange(i + 1, tv.len() as int));
            if str_eq(t[i].0.as_str(), eco) {
                let r = t[i].1.clone();
                assert(r@ == t@[i as int].1@);
                return r;
            }
            i = i + 1;
        }
        assert(tv.subrange(i as int, tv.len() as int) =~= Seq::<(Seq<char>, Seq<Seq<char>>)>::empty());
        Vec::new()
    }

    /// The package `name` of ecosystem `eco` is internal.
    pub fn is_internal(&self, eco: &str, name: &str) -> (b: bool)
        ensures
            b == listed(patterns_view(self.internal@), eco@, name@),
    {
        listed_in(&self.internal, eco, name)
    }

    /// The package `name` of ecosystem `eco` is allowed.
    pub fn is_allowed(&self, eco: &str, name: &str) -> (b: bool)
        ensures
            b == listed(patterns_view(self.allowed@), eco@, name@),
    {
        listed_in(&self.allowed, eco, name)
    }
}

impl Default for SloppyJoeConfig {
    fn default() -> (r: SloppyJoeConfig)
        ensures
            r.internal@.len() == 0,
            r.allowed@.len() == 0,
            r.trusted_indexes@.len() == 0,
            !r.allow_unresolved_versions,
            !r.allow_legacy_npm_v1_lockfile,
            r.active_local_overlay_relaxations@.len() == 0,
            r.trusted_cargo_registries@.len() == 0,
            r.trusted_cargo_git_sources@.len() == 0,
            r.cargo_git_policy == CargoGitPolicy::Block,
            r.python_enforcement == PythonEnforcement::PreferPoetry,
            r.trusted_local_paths@.len() == 0,
    {
        SloppyJoeConfig {
            internal: Vec::new(),
            allowed: Vec::new(),
            trusted_indexes: Vec::new(),
            allow_unresolved_versions: false,
            allow_legacy_npm_v1_lockfile: false,
            active_local_overlay_relaxations: Vec::new(),
            trusted_cargo_registries: Vec::new(),
            trusted_cargo_git_sources: Vec::new(),
            cargo_git_policy: CargoGitPolicy::Block,
            python_enforcement: PythonEnforcement::PreferPoetry,
            trusted_local_paths: Vec::new(),
        }
    }
}

} // verus!
