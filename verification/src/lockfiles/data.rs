//! A lockfile read once and used both to resolve the direct dependencies and
//! to list the transitive ones.
use vstd::prelude::*;
use crate::{Dependency, DependencyView};
use crate::assoc::amap;
use crate::ecosystem::Ecosystem;
use crate::report::opt_view;
use super::{
    ResolutionMode, ResolutionResult, ResolutionView, add_manifest_exact_fallbacks, dep_views,
    empty_resolution, fallback_all_v, lists_table, parse_failed_issue, parse_failed_spec, push_issue_v,
};
use super::{cargo, npm, python, ruby};

verus! {

/// A lockfile as it was read: which format, and its parsed content; or a
/// lockfile that did not parse, with its file name and the parser's
/// message.
#[derive(Debug)]
pub enum ParsedLockfile {
    Npm { value: npm::NpmLockfile, file_name: String },
    Cargo(cargo::CargoLockfile),
    Ruby(String),
    Python(python::PoetryLock),
    Unparsable { file_name: String, detail: String },
    NoLockfile,
}

/// The resolution of `deps` against a lockfile, by its format; with no
/// lockfile, the manifests' exact pins. `mode` tells the manifest's own
/// dependencies (`Direct`) from the packages found only in the lockfile.
pub open spec fn spec_resolve_parsed(p: ParsedLockfile, deps: Seq<DependencyView>, mode: ResolutionMode) -> ResolutionView {
    match p {
        ParsedLockfile::Npm { value, file_name } => npm::spec_resolve(value@, deps, file_name@),
        ParsedLockfile::Cargo(l) => cargo::spec_resolve(cargo::lockfile_view(l), deps, mode),
        ParsedLockfile::Ruby(content) => ruby::spec_resolve(content@, deps),
        ParsedLockfile::Python(l) => python::spec_resolve(l, deps, ResolutionMode::Direct),
        ParsedLockfile::Unparsable { file_name, detail } => fallback_all_v(
            push_issue_v(empty_resolution(), parse_failed_spec(file_name@, detail@)),
            deps,
        ),
        ParsedLockfile::NoLockfile => fallback_all_v(empty_resolution(), deps),
    }
}

/// Resolves `deps` against a parsed lockfile.
pub fn resolve_from_parsed(parsed: &ParsedLockfile, deps: &[Dependency], mode: ResolutionMode) -> (r: ResolutionResult)
    ensures
        r.wf(),
        r@ == spec_resolve_parsed(*parsed, dep_views(deps@), mode),
{
    match parsed {
        ParsedLockfile::Npm { value, file_name } => npm::resolve_from_value(value, deps, file_name.as_str()),
        ParsedLockfile::Cargo(l) => cargo::resolve_from_value(l, deps, mode),
        ParsedLockfile::Ruby(content) => ruby::resolve_from_content(content.as_str(), deps),
        ParsedLockfile::Python(l) => python::resolve_from_value(l, deps),
        ParsedLockfile::Unparsable { file_name, detail } => {
            let mut result = ResolutionResult::new();
            result.push_issue(parse_failed_issue(file_name.as_str(), detail.as_str()));
            add_manifest_exact_fallbacks(&mut result, deps);
            result
        },
        ParsedLockfile::NoLockfile => {
            let mut result = ResolutionResult::new();
            add_manifest_exact_fallbacks(&mut result, deps);
            result
        },
    }
}

/// What listing every locked package gives, by format: the exact list for
/// npm, Cargo and Poetry, one dependency per gem for Ruby, and nothing
/// without a lockfile.
pub open spec fn parse_all_matches(p: ParsedLockfile, r: Result<Seq<DependencyView>, Seq<char>>) -> bool {
    match p {
        ParsedLockfile::Npm { value, .. } => r == npm::spec_parse_dependencies(value@, None),
        ParsedLockfile::Cargo(l) => match cargo::lockfile_view(l) {
            None => r is Err,
            Some(ps) => r == Ok::<Seq<DependencyView>, Seq<char>>(cargo::deps_of(ps)),
        },
        ParsedLockfile::Ruby(content) => r matches Ok(ds) && lists_table(
            ds,
            ruby::spec_gem_versions(content@),
            Ecosystem::Ruby,
        ),
        ParsedLockfile::Python(l) => r matches Ok(ds) && ds.len() == python::spec_packages(l).len()
            && forall|i: int|
            0 <= i < ds.len() ==> #[trigger] ds[i] == (DependencyView {
                name: python::spec_packages(l)[i].0,
                version: Some(python::spec_packages(l)[i].1),
                ecosystem: Ecosystem::PyPI,
                actual_name: None,
            }),
        ParsedLockfile::Unparsable { .. } | ParsedLockfile::NoLockfile => r == Ok::<
            Seq<DependencyView>,
            Seq<char>,
        >(Seq::empty()),
    }
}

pub open spec fn deps_result_view(r: Result<Vec<Dependency>, String>) -> Result<Seq<DependencyView>, Seq<char>> {
    match r {
        Ok(v) => Ok(dep_views(v@)),
        Err(e) => Err(e@),
    }
}

/// Every package a parsed lockfile records (see `parse_all_matches`).
pub fn parse_all_from_parsed(parsed: &ParsedLockfile) -> (r: Result<Vec<Dependency>, String>)
    ensures
        parse_all_matches(*parsed, deps_result_view(r)),
{
    match parsed {
        ParsedLockfile::Npm { value, .. } => npm::parse_all_from_value(value),
        ParsedLockfile::Cargo(l) => cargo::parse_all_from_value(l),
        ParsedLockfile::Ruby(content) => Ok(ruby::parse_all_from_content(content.as_str())),
        ParsedLockfile::Python(l) => {
            let r = python::parse_all_from_value(l);
            assert(dep_views(r@).len() == r@.len());
            Ok(r)
        },
        ParsedLockfile::Unparsable { .. } | ParsedLockfile::NoLockfile => {
            let r: Vec<Dependency> = Vec::new();
            assert(dep_views(r@) =~= Seq::<DependencyView>::empty());
            Ok(r)
        },
    }
}

// ---- transitive dependencies ----
/// Some direct dependency has this manifest name.
pub open spec fn is_direct_name(direct: Seq<DependencyView>, name: Seq<char>) -> bool {
    exists|i: int| 0 <= i < direct.len() && #[trigger] direct[i].name == name
}

/// Some dependency of `s` has the name and version of `d`.
pub open spec fn has_same_identity(s: Seq<DependencyView>, d: DependencyView) -> bool {
    exists|i: int| 0 <= i < s.len() && #[trigger] s[i].name == d.name && s[i].version == d.version
}

/// The locked packages that are not direct dependencies (by name), each
/// name and version kept once, at its first occurrence.
pub open spec fn transitive_of(all: Seq<DependencyView>, direct: Seq<DependencyView>) -> Seq<DependencyView>
    decreases all.len(),
{
    if all.len() == 0 {
        Seq::empty()
    } else {
        let prev = transitive_of(all.drop_last(), direct);
        let d = all.last();
        if is_direct_name(direct, d.name) || has_same_identity(prev, d) {
            prev
        } else {
            prev.push(d)
        }
    }
}

fn is_direct(direct: &[Dependency], name: &str) -> (b: bool)
    ensures
        b == is_direct_name(dep_views(direct@), name@),
{
    let ghost dv = dep_views(direct@);
    let mut i: usize = 0;
    while i < direct.len()
        invariant
            i <= direct@.len(),
            dv == dep_views(direct@),
            forall|j: int| 0 <= j < i ==> #[trigger] dv[j].name != name@,
        decreases direct.len() - i,
    {
        if crate::text::str_eq(direct[i].name.as_str(), name) {
            assert(dv[i as int].name == name@);
            return true;
        }
        i = i + 1;
    }
    false
}

fn opt_str_eq(a: &Option<String>, b: &Option<String>) -> (r: bool)
    ensures
        r == (opt_view(*a) == opt_view(*b)),
{
    match (a, b) {
        (None, None) => true,
        (Some(x), Some(y)) => crate::text::str_eq(x.as_str(), y.as_str()),
        _ => false,
    }
}

fn already_kept(kept: &Vec<Dependency>, d: &Dependency) -> (b: bool)
    ensures
        b == has_same_identity(dep_views(kept@), d@),
{
    let ghost kv = dep_views(kept@);
    let mut i: usize = 0;
    while i < kept.len()
        invariant
            i <= kept@.len(),
            kv == dep_views(kept@),
            forall|j: int| 0 <= j < i ==> !(#[trigger] kv[j].name == d@.name && kv[j].version == d@.version),
        decreases kept.len() - i,
    {
        if crate::text::str_eq(kept[i].name.as_str(), d.name.as_str()) && opt_str_eq(
            &kept[i].version,
            &d.version,
        ) {
            assert(kv[i as int].name == d@.name && kv[i as int].version == d@.version);
            return true;
        }
        i = i + 1;
    }
    false
}

/// The locked packages of `all` that are not direct dependencies, without
/// repeats (see `transitive_of`).
pub fn transitive_deps_of(all: Vec<Dependency>, direct: &[Dependency]) -> (r: Vec<Dependency>)
    ensures
        dep_views(r@) == transitive_of(dep_views(all@), dep_views(direct@)),
{
    let ghost av = dep_views(all@);
    let ghost dv = dep_views(direct@);
    let mut kept: Vec<Dependency> = Vec::new();
    let ghost total = all@;
    let mut i: usize = 0;
    assert(av.take(0) == Seq::<DependencyView>::empty());
    assert(dep_views(kept@) == Seq::<DependencyView>::empty());
    while i < all.len()
        invariant
            i <= all@.len(),
            all@ == total,
            av == dep_views(total),
            dv == dep_views(direct@),
            dep_views(kept@) == transitive_of(av.take(i as int), dv),
        decreases all.len() - i,
    {
        proof {
            let t = av.take(i + 1);
            assert(t.drop_last() == av.take(i as int));
            assert(t.last() == all@[i as int]@);
        }
        let skip = is_direct(direct, all[i].name.as_str()) || already_kept(&kept, &all[i]);
        if !skip {
            let d = all[i].clone();
            let ghost before = kept@;
            kept.push(d);
            assert(dep_views(kept@) == dep_views(before).push(d@));
        }
        i = i + 1;
    }
    assert(av.take(i as int) == av);
    kept
}

/// No transitive dependency has the name of a direct one.
pub proof fn lemma_transitive_excludes_direct(all: Seq<DependencyView>, direct: Seq<DependencyView>)
    ensures
        forall|j: int|
            0 <= j < transitive_of(all, direct).len() ==> !is_direct_name(
                direct,
                #[trigger] transitive_of(all, direct)[j].name,
            ),
    decreases all.len(),
{
    if all.len() > 0 {
        lemma_transitive_excludes_direct(all.drop_last(), direct);
    }
}

/// No two transitive dependencies share a name and a version.
pub proof fn lemma_transitive_unique(all: Seq<DependencyView>, direct: Seq<DependencyView>)
    ensures
        forall|a: int, b: int|
            0 <= a < b < transitive_of(all, direct).len() ==> !(#[trigger] transitive_of(all, direct)[a].name
                == #[trigger] transitive_of(all, direct)[b].name && transitive_of(all, direct)[a].version
                == transitive_of(all, direct)[b].version),
    decreases all.len(),
{
    if all.len() > 0 {
        lemma_transitive_unique(all.drop_last(), direct);
        let prev = transitive_of(all.drop_last(), direct);
        let d = all.last();
        if !(is_direct_name(direct, d.name) || has_same_identity(prev, d)) {
            let t = prev.push(d);
            assert forall|a: int, b: int|
                0 <= a < b < t.len() implies !(#[trigger] t[a].name == #[trigger] t[b].name
                && t[a].version == t[b].version) by {
                if b == t.len() - 1 {
                    if t[a].name == t[b].name && t[a].version == t[b].version {
                        assert(prev[a].name == d.name && prev[a].version == d.version);
                        assert(has_same_identity(prev, d));
                    }
                } else {
                    assert(t[a] == prev[a] && t[b] == prev[b]);
                }
            }
        }
    }
}

/// Every locked package that is not a direct dependency is listed, under
/// its name and version.
pub proof fn lemma_transitive_covers(all: Seq<DependencyView>, direct: Seq<DependencyView>)
    ensures
        forall|i: int|
            0 <= i < all.len() && !is_direct_name(direct, #[trigger] all[i].name) ==> has_same_identity(
                transitive_of(all, direct),
                all[i],
            ),
    decreases all.len(),
{
    if all.len() > 0 {
        let init = all.drop_last();
        lemma_transitive_covers(init, direct);
        let prev = transitive_of(init, direct);
        let t = transitive_of(all, direct);
        assert forall|i: int|
            0 <= i < all.len() && !is_direct_name(direct, #[trigger] all[i].name) implies has_same_identity(
            t,
            all[i],
        ) by {
            if i < all.len() - 1 {
                assert(all[i] == init[i]);
                assert(has_same_identity(prev, init[i]));
                let j = choose|j: int|
                    0 <= j < prev.len() && #[trigger] prev[j].name == init[i].name && prev[j].version
                        == init[i].version;
                if t != prev {
                    assert(t == prev.push(all.last()));
                    assert(t[j] == prev[j]);
                }
                assert(t[j].name == all[i].name && t[j].version == all[i].version);
            } else {
                if has_same_identity(prev, all.last()) {
                    let j = choose|j: int|
                        0 <= j < prev.len() && #[trigger] prev[j].name == all.last().name
                            && prev[j].version == all.last().version;
                    assert(t[j].name == all[i].name);
                } else {
                    assert(t[prev.len() as int] == all[i]);
                }
            }
        }
    }
}

/// Every transitive dependency is one of the locked packages.
pub proof fn lemma_transitive_from_all(all: Seq<DependencyView>, direct: Seq<DependencyView>)
    ensures
        forall|j: int|
            0 <= j < transitive_of(all, direct).len() ==> all.contains(
                #[trigger] transitive_of(all, direct)[j],
            ),
    decreases all.len(),
{
    if all.len() > 0 {
        let init = all.drop_last();
        lemma_transitive_from_all(init, direct);
        let prev = transitive_of(init, direct);
        let t = transitive_of(all, direct);
        assert forall|j: int| 0 <= j < t.len() implies all.contains(#[trigger] t[j]) by {
            if j < prev.len() {
                assert(t[j] == prev[j]);
                assert(init.contains(prev[j]));
                let k = choose|k: int| 0 <= k < init.len() && init[k] == prev[j];
                assert(all[k] == init[k]);
            } else {
                assert(t[j] == all[all.len() - 1]);
            }
        }
    }
}

// ---- the lockfile, read once ----
/// The direct dependencies resolved against a lockfile, and the locked
/// packages that are not direct dependencies.
#[derive(Debug)]
pub struct LockfileData {
    /// Resolved versions for direct dependencies (from lockfile or manifest fallback).
    pub resolution: ResolutionResult,
    /// Dependencies found in the lockfile but not in the direct dependency list.
    pub transitive_deps: Vec<Dependency>,
    /// The lockfile, kept to resolve transitive dependencies later.
    pub parsed: ParsedLockfile,
}

impl LockfileData {
    /// Resolves the direct dependencies against `parsed` and lists the other
    /// packages it locks; fails when the lockfile cannot list its packages.
    pub fn from_parsed(parsed: ParsedLockfile, direct_deps: &[Dependency]) -> (r: Result<LockfileData, String>)
        ensures
            match r {
                Ok(data) => {
                    &&& data.resolution.wf()
                    &&& data.resolution@ == spec_resolve_parsed(parsed, dep_views(direct_deps@), ResolutionMode::Direct)
                    &&& data.parsed == parsed
                    &&& exists|all: Seq<DependencyView>|
                        parse_all_matches(parsed, Ok(all)) && dep_views(data.transitive_deps@)
                            == transitive_of(all, dep_views(direct_deps@))
                },
                Err(e) => parse_all_matches(parsed, Err(e@)),
            },
    {
        let resolution = resolve_from_parsed(&parsed, direct_deps, ResolutionMode::Direct);
        let all = match parse_all_from_parsed(&parsed) {
            Ok(all) => all,
            Err(e) => {
                return Err(e);
            },
        };
        let ghost av = dep_views(all@);
        let transitive = transitive_deps_of(all, direct_deps);
        let data = LockfileData { resolution, transitive_deps: transitive, parsed };
        assert(parse_all_matches(data.parsed, Ok(av)));
        Ok(data)
    }

    /// Resolves transitive dependencies against the same lockfile.
    pub fn resolve_transitive(&self, deps: &[Dependency]) -> (r: ResolutionResult)
        ensures
            r.wf(),
            r@ == spec_resolve_parsed(self.parsed, dep_views(deps@), ResolutionMode::Transitive),
    {
        resolve_from_parsed(&self.parsed, deps, ResolutionMode::Transitive)
    }
}

} // verus!
