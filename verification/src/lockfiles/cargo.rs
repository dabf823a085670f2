//! Cargo's `Cargo.lock`.
use vstd::prelude::*;
use crate::{Dependency, DependencyView};
use crate::ecosystem::Ecosystem;
use crate::assoc::{CandidateTable, list_or_empty};
use crate::report::{opt_view, clone_opt_string};
use crate::text::{chars_of, range_contains_char};
use super::{
    ResolutionResult, ResolutionView, empty_resolution, fold_multi, by_key, dep_views,
    resolve_all_multi, parse_failed_issue, parse_failed_spec, add_manifest_exact_fallbacks,
    fallback_all_v, push_issue_v, ResolutionMode,
};

verus! {

/// One `[[package]]` table of `Cargo.lock`: its `name`, `version` and
/// `source` strings (`None` where the key is missing or not a string).
#[derive(Debug)]
pub struct CargoLockPackage {
    pub name: Option<String>,
    pub version: Option<String>,
    pub source: Option<String>,
}

/// A parsed `Cargo.lock`: the `package` array, if there is one, with `None`
/// for each of its entries that is not a table.
#[derive(Debug)]
pub struct CargoLockfile {
    pub packages: Option<Vec<Option<CargoLockPackage>>>,
}

pub struct CargoPackageView {
    pub name: Option<Seq<char>>,
    pub version: Option<Seq<char>>,
    pub source: Option<Seq<char>>,
}

impl View for CargoLockPackage {
    type V = CargoPackageView;

    open spec fn view(&self) -> CargoPackageView {
        CargoPackageView {
            name: opt_view(self.name),
            version: opt_view(self.version),
            source: opt_view(self.source),
        }
    }
}

pub open spec fn package_views(s: Seq<Option<CargoLockPackage>>) -> Seq<Option<CargoPackageView>> {
    s.map_values(
        |p: Option<CargoLockPackage>|
            match p {
                Some(t) => Some(t@),
                None => None,
            },
    )
}

/// A name that could escape a directory: it holds `..` or a NUL.
pub open spec fn dotdot_at(s: Seq<char>, i: int) -> bool {
    s[i] == '.' && s[i + 1] == '.'
}

pub open spec fn unsafe_crate_name(s: Seq<char>) -> bool {
    (exists|i: int| 0 <= i < s.len() - 1 && #[trigger] dotdot_at(s, i)) || s.contains('\0')
}

fn is_unsafe_crate_name(name: &str) -> (b: bool)
    ensures
        b == unsafe_crate_name(name@),
{
    let v = chars_of(name);
    let mut i: usize = 0;
    while i < v.len() && i + 1 < v.len()
        invariant
            i <= v@.len(),
            v@ == name@,
            forall|k: int| 0 <= k < i && k < v@.len() - 1 ==> !#[trigger] dotdot_at(v@, k),
        decreases v.len() - i,
    {
        if v[i] == '.' && v[i + 1] == '.' {
            assert(dotdot_at(v@, i as int));
            return true;
        }
        i = i + 1;
    }
    assert(v@.subrange(0, v@.len() as int) == v@);
    range_contains_char(&v, 0, v.len(), '\0')
}

/// The locked versions of each safely named package, in file order
/// (repeats kept).
pub open spec fn versions_from(
    ps: Seq<Option<CargoPackageView>>,
    m: Map<Seq<char>, Seq<Seq<char>>>,
) -> Map<Seq<char>, Seq<Seq<char>>>
    decreases ps.len(),
{
    if ps.len() == 0 {
        m
    } else {
        let next = match ps[0] {
            Some(p) => match (p.name, p.version) {
                (Some(n), Some(v)) => if unsafe_crate_name(n) {
                    m
                } else {
                    m.insert(n, list_or_empty(m, n).push(v))
                },
                _ => m,
            },
            None => m,
        };
        versions_from(ps.drop_first(), next)
    }
}

/// Resolution of `deps` against a `Cargo.lock`: without a package array,
/// a parse failure and the manifest pins; else `multi_step` against the
/// versions of each name (in `Direct` mode for the manifest's own
/// dependencies, whose requirements are ranges unless written `=x`).
pub open spec fn spec_resolve(
    packages: Option<Seq<Option<CargoPackageView>>>,
    deps: Seq<DependencyView>,
    mode: ResolutionMode,
) -> ResolutionView {
    match packages {
        None => fallback_all_v(
            push_issue_v(
                empty_resolution(),
                parse_failed_spec("Cargo.lock"@, "lockfile did not contain a package array"@),
            ),
            deps,
        ),
        Some(ps) => fold_multi(
            empty_resolution(),
            deps,
            by_key(versions_from(ps, Map::empty()), false),
            "Cargo.lock"@,
            mode,
        ),
    }
}

pub open spec fn lockfile_view(parsed: CargoLockfile) -> Option<Seq<Option<CargoPackageView>>> {
    match parsed.packages {
        Some(ps) => Some(package_views(ps@)),
        None => None,
    }
}

fn versions_by_name(packages: &Vec<Option<CargoLockPackage>>) -> (t: CandidateTable)
    ensures
        t.wf(),
        t@ == versions_from(package_views(packages@), Map::empty()),
{
    let ghost ps = package_views(packages@);
    let mut table = CandidateTable::new();
    let mut i: usize = 0;
    assert(ps.subrange(0, ps.len() as int) == ps);
    while i < packages.len()
        invariant
            i <= packages@.len(),
            ps == package_views(packages@),
            table.wf(),
            versions_from(ps.subrange(i as int, ps.len() as int), table@) == versions_from(
                ps,
                Map::empty(),
            ),
        decreases packages.len() - i,
    {
        proof {
            let rest = ps.subrange(i as int, ps.len() as int);
            assert(rest.drop_first() == ps.subrange(i + 1, ps.len() as int));
            assert(rest[0] == ps[i as int]);
        }
        if let Some(table_entry) = &packages[i] {
            if let (Some(name), Some(version)) = (&table_entry.name, &table_entry.version) {
                if !is_unsafe_crate_name(name.as_str()) {
                    table.add_last(name.clone(), version.clone());
                }
            }
        }
        i = i + 1;
    }
    assert(ps.subrange(i as int, ps.len() as int) == Seq::<Option<CargoPackageView>>::empty());
    table
}

/// Resolves versions from a parsed `Cargo.lock`.
pub fn resolve_from_value(parsed: &CargoLockfile, deps: &[Dependency], mode: ResolutionMode) -> (r: ResolutionResult)
    ensures
        r.wf(),
        r@ == spec_resolve(lockfile_view(*parsed), dep_views(deps@), mode),
{
    match &parsed.packages {
        None => {
            let mut result = ResolutionResult::new();
            result.push_issue(
                parse_failed_issue("Cargo.lock", "lockfile did not contain a package array"),
            );
            add_manifest_exact_fallbacks(&mut result, deps);
            result
        },
        Some(packages) => {
            let table = versions_by_name(packages);
            resolve_all_multi(deps, &table, "Cargo.lock", false, mode)
        },
    }
}

/// The dependency that a package table of `Cargo.lock` contributes: only
/// packages with a `source` (so not the workspace's own crates) and a safe
/// name.
pub open spec fn package_dep(p: Option<CargoPackageView>) -> Option<DependencyView> {
    match p {
        Some(t) => match (t.source, t.name) {
            (Some(_), Some(n)) => if unsafe_crate_name(n) {
                None
            } else {
                Some(
                    DependencyView {
                        name: n,
                        version: t.version,
                        ecosystem: Ecosystem::Cargo,
                        actual_name: None,
                    },
                )
            },
            _ => None,
        },
        None => None,
    }
}

pub open spec fn deps_of(ps: Seq<Option<CargoPackageView>>) -> Seq<DependencyView>
    decreases ps.len(),
{
    if ps.len() == 0 {
        seq![]
    } else {
        (match package_dep(ps[0]) {
            Some(d) => seq![d],
            None => seq![],
        }) + deps_of(ps.drop_first())
    }
}

/// Every package of a parsed `Cargo.lock` that comes from a source; an
/// error when there is no package array.
pub fn parse_all_from_value(parsed: &CargoLockfile) -> (r: Result<Vec<Dependency>, String>)
    ensures
        match lockfile_view(*parsed) {
            None => r is Err,
            Some(ps) => r matches Ok(ds) && dep_views(ds@) == deps_of(ps),
        },
{
    let Some(packages) = &parsed.packages else {
        return Err(crate::text::string_of_str("Cargo.lock has no package array"));
    };
    let ghost ps = package_views(packages@);
    let mut deps: Vec<Dependency> = Vec::new();
    let mut i: usize = 0;
    assert(ps.subrange(0, ps.len() as int) == ps);
    assert(dep_views(deps@) =~= Seq::<DependencyView>::empty());
    while i < packages.len()
        invariant
            i <= packages@.len(),
            ps == package_views(packages@),
            dep_views(deps@) + deps_of(ps.subrange(i as int, ps.len() as int)) == deps_of(ps),
        decreases packages.len() - i,
    {
        let ghost before = dep_views(deps@);
        let ghost rest = ps.subrange(i as int, ps.len() as int);
        proof {
            assert(rest.drop_first() == ps.subrange(i + 1, ps.len() as int));
            assert(rest[0] == ps[i as int]);
        }
        let mut pushed = false;
        if let Some(table_entry) = &packages[i] {
            if table_entry.source.is_some() {
                if let Some(name) = &table_entry.name {
                    if !is_unsafe_crate_name(name.as_str()) {
                        let d = Dependency {
                            name: name.clone(),
                            version: clone_opt_string(&table_entry.version),
                            ecosystem: Ecosystem::Cargo,
                            actual_name: None,
                        };
                        deps.push(d);
                        pushed = true;
                        proof {
                            let dv = package_dep(ps[i as int])->0;
                            assert(dep_views(deps@) =~= before.push(dv));
                            assert(before + (seq![dv] + deps_of(rest.drop_first())) == before.push(dv)
                                + deps_of(rest.drop_first()));
                        }
                    }
                }
            }
        }
        if !pushed {
            assert(package_dep(ps[i as int]) is None);
            assert(seq![] + deps_of(rest.drop_first()) == deps_of(rest.drop_first()));
        }
        i = i + 1;
    }
    proof {
        assert(ps.subrange(i as int, ps.len() as int) == Seq::<Option<CargoPackageView>>::empty());
        assert(dep_views(deps@) + Seq::<DependencyView>::empty() == dep_views(deps@));
    }
    Ok(deps)
}

} // verus!
