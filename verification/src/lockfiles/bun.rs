//! Bun's text lockfile, `bun.lock`.
use vstd::prelude::*;
use crate::{Dependency, DependencyView};
use crate::ecosystem::Ecosystem;
use crate::lockfiles::npm::{NpmSections, first_match};
use crate::lockfiles::js_names::{bun_descriptor_parts, spec_bun_descriptor_parts};
use crate::registry::{valid_package_name, validate_package_name};
use crate::report::{Issue, IssueView};
use crate::text::{str_eq, string_of_str, push_str};
use super::{
    ResolutionResult, ResolutionView, ResolutionKey, ResolvedVersion, ResolutionSource,
    empty_resolution, dep_views, insert_v, push_issue_for_v, fallback_v, fallback_all_v,
    push_issue_v, out_of_sync_spec, missing_entry_spec, parse_failed_spec, out_of_sync_issue,
    missing_entry_issue, parse_failed_issue, add_manifest_exact_fallback,
    add_manifest_exact_fallbacks,
};

verus! {

/// The shape of one dependency section of a Bun workspace: an object whose
/// values are all strings (or no section at all), something other than an
/// object, or an object whose first non-string value is under the given
/// key.
#[derive(Debug)]
pub enum BunSectionShape {
    Object,
    NotObject,
    NonStringValue(String),
}

/// The shapes of a workspace's four dependency sections.
#[derive(Debug)]
pub struct BunSectionShapes {
    pub dependencies: BunSectionShape,
    pub dev_dependencies: BunSectionShape,
    pub optional_dependencies: BunSectionShape,
    pub peer_dependencies: BunSectionShape,
}

/// One workspace of `bun.lock`: its sections' string-valued declarations,
/// and the shape of each section.
#[derive(Debug)]
pub struct BunWorkspace {
    pub sections: NpmSections,
    pub shapes: BunSectionShapes,
}

/// A parsed `bun.lock`: the `workspaces` object (each workspace key with
/// its dependency sections), and the `packages` object, each key with the
/// first element of its array when that is a string (the package's
/// `name@version` descriptor).
#[derive(Debug)]
pub struct BunLockfile {
    pub workspaces: Option<Vec<(String, BunWorkspace)>>,
    pub packages: Option<Vec<(String, Option<String>)>>,
}

pub open spec fn str_pairs(s: Seq<(String, String)>) -> Seq<(Seq<char>, Seq<char>)> {
    s.map_values(|p: (String, String)| (p.0@, p.1@))
}

/// The requirement under which a workspace declares `name`, from the first
/// section that declares it.
pub open spec fn spec_specifier(w: NpmSections, name: Seq<char>) -> Option<Seq<char>> {
    match first_match(str_pairs(w.dependencies@), name) {
        Some(v) => Some(v),
        None => match first_match(str_pairs(w.dev_dependencies@), name) {
            Some(v) => Some(v),
            None => match first_match(str_pairs(w.optional_dependencies@), name) {
                Some(v) => Some(v),
                None => first_match(str_pairs(w.peer_dependencies@), name),
            },
        },
    }
}

pub open spec fn descriptors(s: Seq<(String, Option<String>)>) -> Seq<Option<Seq<char>>> {
    s.map_values(
        |p: (String, Option<String>)|
            match p.1 {
                Some(d) => Some(d@),
                None => None,
            },
    )
}

/// The versions of the packages named `name`, in order.
pub open spec fn versions_of(ds: Seq<Option<Seq<char>>>, name: Seq<char>) -> Seq<Seq<char>>
    decreases ds.len(),
{
    if ds.len() == 0 {
        Seq::empty()
    } else {
        versions_of(ds.drop_last(), name) + match ds.last() {
            Some(d) => match spec_bun_descriptor_parts(d) {
                Some((n, v)) => if n == name {
                    seq![v]
                } else {
                    Seq::empty()
                },
                None => Seq::empty(),
            },
            None => Seq::empty(),
        }
    }
}

pub open spec fn multiple_entries_detail(name: Seq<char>) -> Seq<char> {
    "lockfile contained multiple package entries for '"@ + name + "'"@
}

/// One dependency: it must be declared by the workspace and locked by
/// exactly one package entry; the locked version must agree with an exact
/// manifest pin, and the manifest requirement must be the one the workspace
/// records. Otherwise an issue is filed against it and its exact pin, if
/// any, is used.
pub open spec fn bun_step(
    r: ResolutionView,
    d: DependencyView,
    specifier: Option<Seq<char>>,
    versions: Seq<Seq<char>>,
) -> ResolutionView {
    if specifier is None || versions.len() == 0 {
        fallback_v(push_issue_for_v(r, d, missing_entry_spec(d, "bun.lock"@)), d)
    } else if versions.len() > 1 {
        fallback_v(
            push_issue_for_v(r, d, parse_failed_spec("bun.lock"@, multiple_entries_detail(d.package()))),
            d,
        )
    } else if (d.exact() is Some && d.exact() != Some(versions[0])) || (d.version is Some && d.version
        != specifier) {
        fallback_v(push_issue_for_v(r, d, out_of_sync_spec(d, versions[0])), d)
    } else {
        insert_v(r, d, versions[0], ResolutionSource::Lockfile)
    }
}

pub open spec fn bun_fold(
    r: ResolutionView,
    deps: Seq<DependencyView>,
    w: NpmSections,
    ds: Seq<Option<Seq<char>>>,
) -> ResolutionView
    decreases deps.len(),
{
    if deps.len() == 0 {
        r
    } else {
        bun_fold(
            bun_step(r, deps[0], spec_specifier(w, deps[0].package()), versions_of(ds, deps[0].package())),
            deps.drop_first(),
            w,
            ds,
        )
    }
}

pub open spec fn workspace_missing_detail(key: Seq<char>) -> Seq<char> {
    "lockfile did not contain workspace '"@ + key + "'"@
}

/// Direct dependencies of workspace `importer_key` resolved against a
/// `bun.lock`: without its `workspaces` section, that workspace, or the
/// `packages` section, a parse failure and the manifests' exact pins;
/// otherwise `bun_step` for each dependency.
pub open spec fn spec_resolve(lock: BunLockfile, deps: Seq<DependencyView>, importer_key: Seq<char>) -> ResolutionView {
    let fail = |detail: Seq<char>|
        fallback_all_v(push_issue_v(empty_resolution(), parse_failed_spec("bun.lock"@, detail)), deps);
    match lock.workspaces {
        None => fail("lockfile did not contain a workspaces section"@),
        Some(ws) => match first_match(workspaces_view(ws@), importer_key) {
            None => fail(workspace_missing_detail(importer_key)),
            Some(w) => match lock.packages {
                None => fail("lockfile did not contain a packages section"@),
                Some(ps) => bun_fold(empty_resolution(), deps, w.sections, descriptors(ps@)),
            },
        },
    }
}

fn section_value<'a>(section: &'a Vec<(String, String)>, name: &str) -> (r: Option<&'a String>)
    ensures
        match r {
            Some(v) => first_match(str_pairs(section@), name@) == Some(v@),
            None => first_match(str_pairs(section@), name@) is None,
        },
{
    let ghost ps = str_pairs(section@);
    let mut i: usize = 0;
    while i < section.len()
        invariant
            i <= section@.len(),
            ps == str_pairs(section@),
            forall|j: int| 0 <= j < i ==> #[trigger] ps[j].0 != name@,
        decreases section.len() - i,
    {
        if str_eq(section[i].0.as_str(), name) {
            proof {
                crate::lockfiles::npm::lemma_first_match(ps, name@, i as int);
            }
            return Some(&section[i].1);
        }
        i = i + 1;
    }
    proof {
        crate::lockfiles::npm::lemma_first_match(ps, name@, i as int);
    }
    None
}

/// The requirement under which the workspace declares `dep_name`.
pub fn importer_dependency_specifier<'a>(importer: &'a NpmSections, dep_name: &str) -> (r: Option<&'a String>)
    ensures
        match r {
            Some(v) => spec_specifier(*importer, dep_name@) == Some(v@),
            None => spec_specifier(*importer, dep_name@) is None,
        },
{
    if let Some(v) = section_value(&importer.dependencies, dep_name) {
        return Some(v);
    }
    if let Some(v) = section_value(&importer.dev_dependencies, dep_name) {
        return Some(v);
    }
    if let Some(v) = section_value(&importer.optional_dependencies, dep_name) {
        return Some(v);
    }
    section_value(&importer.peer_dependencies, dep_name)
}

fn matching_versions(packages: &Vec<(String, Option<String>)>, name: &str) -> (r: Vec<String>)
    ensures
        r@.map_values(|s: String| s@) == versions_of(descriptors(packages@), name@),
{
    let ghost ds = descriptors(packages@);
    let mut r: Vec<String> = Vec::new();
    let mut i: usize = 0;
    assert(ds.take(0) == Seq::<Option<Seq<char>>>::empty());
    assert(r@.map_values(|s: String| s@) == Seq::<Seq<char>>::empty());
    while i < packages.len()
        invariant
            i <= packages@.len(),
            ds == descriptors(packages@),
            r@.map_values(|s: String| s@) == versions_of(ds.take(i as int), name@),
        decreases packages.len() - i,
    {
        proof {
            let t = ds.take(i + 1);
            assert(t.drop_last() == ds.take(i as int));
            assert(t.last() == ds[i as int]);
        }
        let ghost before = r@;
        if let Some(d) = &packages[i].1 {
            if let Some((n, v)) = bun_descriptor_parts(d.as_str()) {
                if str_eq(n.as_str(), name) {
                    r.push(v);
                    assert(r@.map_values(|s: String| s@) == before.map_values(|s: String| s@).push(v@));
                } else {
                    assert(r@.map_values(|s: String| s@) == before.map_values(|s: String| s@) + Seq::<Seq<char>>::empty());
                }
            } else {
                assert(r@.map_values(|s: String| s@) == before.map_values(|s: String| s@) + Seq::<Seq<char>>::empty());
            }
        } else {
            assert(r@.map_values(|s: String| s@) == before.map_values(|s: String| s@) + Seq::<Seq<char>>::empty());
        }
        i = i + 1;
    }
    assert(ds.take(i as int) == ds);
    r
}

fn resolve_one(
    result: &mut ResolutionResult,
    dep: &Dependency,
    importer: &NpmSections,
    packages: &Vec<(String, Option<String>)>,
)
    requires
        old(result).wf(),
    ensures
        final(result).wf(),
        final(result)@ == bun_step(
            old(result)@,
            dep@,
            spec_specifier(*importer, dep@.package()),
            versions_of(descriptors(packages@), dep@.package()),
        ),
{
    proof {
        reveal_strlit("bun.lock");
    }
    let name = dep.package_name();
    let specifier = importer_dependency_specifier(importer, name);
    let versions = matching_versions(packages, name);
    let ghost vs = versions@.map_values(|s: String| s@);
    if specifier.is_none() || versions.len() == 0 {
        result.push_issue_for(dep, missing_entry_issue(dep, "bun.lock"));
        add_manifest_exact_fallback(result, dep);
        return;
    }
    if versions.len() > 1 {
        let mut detail = string_of_str("lockfile contained multiple package entries for '");
        push_str(&mut detail, name);
        push_str(&mut detail, "'");
        result.push_issue_for(dep, parse_failed_issue("bun.lock", detail.as_str()));
        add_manifest_exact_fallback(result, dep);
        return;
    }
    let resolved = &versions[0];
    assert(vs[0] == resolved@);
    let exact = dep.exact_version();
    let pin_differs = match &exact {
        Some(e) => !str_eq(e.as_str(), resolved.as_str()),
        None => false,
    };
    let requirement_differs = match (&dep.version, specifier) {
        (Some(req), Some(s)) => !str_eq(req.as_str(), s.as_str()),
        _ => false,
    };
    if pin_differs || requirement_differs {
        result.push_issue_for(dep, out_of_sync_issue(dep, resolved.as_str()));
        add_manifest_exact_fallback(result, dep);
        return;
    }
    result.insert_exact(
        ResolutionKey::from(dep),
        ResolvedVersion { version: resolved.clone(), source: ResolutionSource::Lockfile },
    );
}

pub open spec fn workspaces_view(ws: Seq<(String, BunWorkspace)>) -> Seq<(Seq<char>, BunWorkspace)> {
    ws.map_values(|p: (String, BunWorkspace)| (p.0@, p.1))
}

pub(crate) fn workspace_index(workspaces: &Vec<(String, BunWorkspace)>, key: &str) -> (r: Option<usize>)
    ensures
        match r {
            Some(i) => i < workspaces@.len() && first_match(workspaces_view(workspaces@), key@) == Some(
                workspaces@[i as int].1,
            ),
            None => first_match(workspaces_view(workspaces@), key@) is None,
        },
{
    let ghost ws = workspaces_view(workspaces@);
    let mut i: usize = 0;
    while i < workspaces.len()
        invariant
            i <= workspaces@.len(),
            ws == workspaces_view(workspaces@),
            forall|j: int| 0 <= j < i ==> #[trigger] ws[j].0 != key@,
        decreases workspaces.len() - i,
    {
        if str_eq(workspaces[i].0.as_str(), key) {
            proof {
                crate::lockfiles::npm::lemma_first_match(ws, key@, i as int);
            }
            return Some(i);
        }
        i = i + 1;
    }
    proof {
        crate::lockfiles::npm::lemma_first_match(ws, key@, i as int);
    }
    None
}

fn failed(deps: &[Dependency], detail: &str) -> (r: ResolutionResult)
    ensures
        r.wf(),
        r@ == fallback_all_v(push_issue_v(empty_resolution(), parse_failed_spec("bun.lock"@, detail@)), dep_views(deps@)),
{
    let mut result = ResolutionResult::new();
    result.push_issue(parse_failed_issue("bun.lock", detail));
    add_manifest_exact_fallbacks(&mut result, deps);
    result
}

/// Resolves the direct dependencies of workspace `importer_key` (see
/// `spec_resolve`).
pub fn resolve_from_value(parsed: &BunLockfile, deps: &[Dependency], importer_key: &str) -> (r: ResolutionResult)
    ensures
        r.wf(),
        r@ == spec_resolve(*parsed, dep_views(deps@), importer_key@),
{
    let Some(workspaces) = &parsed.workspaces else {
        return failed(deps, "lockfile did not contain a workspaces section");
    };
    let found = workspace_index(workspaces, importer_key);
    let Some(wi) = found else {
        let mut detail = string_of_str("lockfile did not contain workspace '");
        push_str(&mut detail, importer_key);
        push_str(&mut detail, "'");
        return failed(deps, detail.as_str());
    };
    let importer = &workspaces[wi].1.sections;
    let Some(packages) = &parsed.packages else {
        return failed(deps, "lockfile did not contain a packages section");
    };
    let ghost all = dep_views(deps@);
    let ghost ds = descriptors(packages@);
    let mut result = ResolutionResult::new();
    assert(all.subrange(0, all.len() as int) == all);
    let mut i: usize = 0;
    while i < deps.len()
        invariant
            i <= deps@.len(),
            all == dep_views(deps@),
            ds == descriptors(packages@),
            result.wf(),
            bun_fold(result@, all.subrange(i as int, all.len() as int), *importer, ds) == bun_fold(
                empty_resolution(),
                all,
                *importer,
                ds,
            ),
        decreases deps.len() - i,
    {
        let dep = &deps[i];
        proof {
            let rest = all.subrange(i as int, all.len() as int);
            assert(rest[0] == dep@);
            assert(rest.drop_first() == all.subrange(i + 1, all.len() as int));
        }
        resolve_one(&mut result, dep, importer, packages);
        i = i + 1;
    }
    assert(all.subrange(i as int, all.len() as int) == Seq::<DependencyView>::empty());
    result
}

/// The dependencies that the `packages` descriptors name, skipping
/// workspace, file and link packages and unsafe names.
pub open spec fn package_deps(ds: Seq<Option<Seq<char>>>) -> Seq<DependencyView>
    decreases ds.len(),
{
    if ds.len() == 0 {
        Seq::empty()
    } else {
        package_deps(ds.drop_last()) + match ds.last() {
            Some(d) => match spec_bun_descriptor_parts(d) {
                Some((n, v)) => if valid_package_name(n) {
                    seq![DependencyView { name: n, version: Some(v), ecosystem: Ecosystem::Npm, actual_name: None }]
                } else {
                    Seq::empty()
                },
                None => Seq::empty(),
            },
            None => Seq::empty(),
        }
    }
}

/// Every package a `bun.lock` records (none without a `packages` section).
pub fn parse_all_from_value(parsed: &BunLockfile) -> (r: Vec<Dependency>)
    ensures
        dep_views(r@) == match parsed.packages {
            Some(ps) => package_deps(descriptors(ps@)),
            None => Seq::empty(),
        },
{
    let Some(packages) = &parsed.packages else {
        let r: Vec<Dependency> = Vec::new();
        assert(dep_views(r@) == Seq::<DependencyView>::empty());
        return r;
    };
    let ghost ds = descriptors(packages@);
    let mut r: Vec<Dependency> = Vec::new();
    let mut i: usize = 0;
    assert(ds.take(0) == Seq::<Option<Seq<char>>>::empty());
    assert(dep_views(r@) == Seq::<DependencyView>::empty());
    while i < packages.len()
        invariant
            i <= packages@.len(),
            ds == descriptors(packages@),
            dep_views(r@) == package_deps(ds.take(i as int)),
        decreases packages.len() - i,
    {
        proof {
            let t = ds.take(i + 1);
            assert(t.drop_last() == ds.take(i as int));
            assert(t.last() == ds[i as int]);
        }
        let ghost before = r@;
        let mut pushed = false;
        if let Some(d) = &packages[i].1 {
            if let Some((n, v)) = bun_descriptor_parts(d.as_str()) {
                if validate_package_name(n.as_str()) {
                    let dep = Dependency { name: n, version: Some(v), ecosystem: Ecosystem::Npm, actual_name: None };
                    r.push(dep);
                    pushed = true;
                    assert(dep_views(r@) == dep_views(before) + seq![dep@]);
                }
            }
        }
        if !pushed {
            assert(dep_views(r@) == dep_views(before) + Seq::<DependencyView>::empty());
        }
        i = i + 1;
    }
    assert(ds.take(i as int) == ds);
    r
}

} // verus!
