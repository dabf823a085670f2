//! pnpm's `pnpm-lock.yaml`.
use vstd::prelude::*;
use crate::{Dependency, DependencyView};
use crate::ecosystem::Ecosystem;
use crate::lockfiles::npm::{first_match, lemma_first_match};
use crate::lockfiles::js_names::{
    name_version_split, pair_view, pnpm_key_base, pnpm_key_base_range, pnpm_package_key_parts,
    spec_pnpm_key_parts, split_npm_package_and_spec,
};
use crate::npm_provenance::{
    expected_npm_registry_tarball_paths, first_error, opt_str, spec_expected_paths, strs,
    unit_result_view,
};
use crate::registry::{valid_package_name, validate_package_name};
use crate::report::{sanitized, sanitize_for_terminal};
use crate::text::{
    chars_of, find_char, index_of, push_str, range_contains_char, range_starts_with, split_once,
    starts_with, str_eq, string_of_range, string_of_str, strip_prefix, trim, trim_range,
};
use super::{
    ResolutionMode, ResolutionResult, ResolutionView, dep_views, empty_resolution, fallback_all_v,
    fold_single, parse_failed_issue, parse_failed_spec, push_issue_v, resolve_single,
    add_manifest_exact_fallbacks,
};

verus! {

/// One dependency of an importer section: its key (`None` where it is not
/// a string), the `version` and `specifier` strings of its entry, and the
/// entry itself where it is a plain string (each `None` where missing or not
/// a string).
#[derive(Debug)]
pub struct PnpmImporterEntry {
    pub name: Option<String>,
    pub version: Option<String>,
    pub specifier: Option<String>,
    pub inline_reference: Option<String>,
}

/// A dependency section of an importer: its entries in document order
/// (none where the section is missing), or a value that is not a mapping.
#[derive(Debug)]
pub enum PnpmSection {
    Entries(Vec<PnpmImporterEntry>),
    NotMapping,
}

/// One importer of `pnpm-lock.yaml`: its four dependency sections.
#[derive(Debug)]
pub struct PnpmImporter {
    pub dependencies: PnpmSection,
    pub dev_dependencies: PnpmSection,
    pub optional_dependencies: PnpmSection,
    pub peer_dependencies: PnpmSection,
}

/// The `resolution` mapping of a package: its `integrity` and `tarball`
/// strings.
#[derive(Debug)]
pub struct PnpmResolution {
    pub integrity: Option<String>,
    pub tarball: Option<String>,
}

/// One entry of the `packages` or `snapshots` mapping: its key (`None`
/// where it is not a string), its `resolution` (`None` where it is missing
/// or not a mapping), and its `dependencies`, `optionalDependencies` and
/// `peerDependencies` sections.
#[derive(Debug)]
pub struct PnpmPackage {
    pub key: Option<String>,
    pub resolution: Option<PnpmResolution>,
    pub dependencies: PnpmSection,
    pub optional_dependencies: PnpmSection,
    pub peer_dependencies: PnpmSection,
}

/// A parsed `pnpm-lock.yaml`: the `importers` mapping, and the `packages`
/// and `snapshots` mappings, each in document order (`None` where it is
/// missing or not a mapping).
#[derive(Debug)]
pub struct PnpmLockfile {
    pub importers: Option<Vec<(String, PnpmImporter)>>,
    pub packages: Option<Vec<PnpmPackage>>,
    pub snapshots: Option<Vec<PnpmPackage>>,
}

/// The `version` of the first entry named `name`.
pub open spec fn entry_version(es: Seq<PnpmImporterEntry>, name: Seq<char>) -> Option<Seq<char>>
    decreases es.len(),
{
    if es.len() == 0 {
        None
    } else if opt_str(es[0].name) == Some(name) {
        opt_str(es[0].version)
    } else {
        entry_version(es.drop_first(), name)
    }
}

pub open spec fn ref_in(section: PnpmSection, name: Seq<char>) -> Option<Seq<char>> {
    match section {
        PnpmSection::Entries(es) => entry_version(es@, name),
        PnpmSection::NotMapping => None,
    }
}

/// The locked reference of `name` in an importer: the `version` of its
/// entry in the first section that gives one.
pub open spec fn spec_reference(imp: PnpmImporter, name: Seq<char>) -> Option<Seq<char>> {
    match ref_in(imp.dependencies, name) {
        Some(v) => Some(v),
        None => match ref_in(imp.dev_dependencies, name) {
            Some(v) => Some(v),
            None => match ref_in(imp.optional_dependencies, name) {
                Some(v) => Some(v),
                None => ref_in(imp.peer_dependencies, name),
            },
        },
    }
}

/// A reference to something other than a registry package: empty, or a
/// `link:`, `file:` or `workspace:` reference.
pub open spec fn is_local_reference(r: Seq<char>) -> bool {
    r.len() == 0 || starts_with(r, "link:"@) || starts_with(r, "file:"@) || starts_with(r, "workspace:"@)
}

/// The version that a locked reference gives the package `fallback_name`:
/// none for local references; for `npm:<name>@<version>`, the version when
/// the alias names that package; for `<name>@<version>` of that package,
/// the version; else the reference itself (without peer suffixes).
pub open spec fn spec_normalized_reference(reference: Seq<char>, fallback_name: Seq<char>) -> Option<Seq<char>> {
    let r = trim(reference);
    if is_local_reference(r) {
        None
    } else {
        let base = pnpm_key_base(r);
        match strip_prefix(base, "npm:"@) {
            Some(alias) => match name_version_split(alias) {
                None => None,
                Some((actual, version)) => if actual == fallback_name {
                    Some(version)
                } else {
                    None
                },
            },
            None => match spec_pnpm_key_parts(base) {
                Some((name, version)) => if name == fallback_name {
                    Some(version)
                } else {
                    Some(base)
                },
                None => Some(base),
            },
        }
    }
}

fn ref_value<'a>(section: &'a PnpmSection, name: &str) -> (r: Option<&'a String>)
    ensures
        match r {
            Some(v) => ref_in(*section, name@) == Some(v@),
            None => ref_in(*section, name@) is None,
        },
{
    let es = match section {
        PnpmSection::Entries(es) => es,
        PnpmSection::NotMapping => {
            return None;
        },
    };
    assert(es@.subrange(0, es@.len() as int) == es@);
    let mut i: usize = 0;
    while i < es.len()
        invariant
            i <= es@.len(),
            ref_in(*section, name@) == entry_version(es@, name@),
            entry_version(es@, name@) == entry_version(es@.subrange(i as int, es@.len() as int), name@),
        decreases es.len() - i,
    {
        let ghost rest = es@.subrange(i as int, es@.len() as int);
        assert(rest[0] == es@[i as int]);
        assert(rest.drop_first() == es@.subrange(i + 1, es@.len() as int));
        let hit = match &es[i].name {
            Some(n) => str_eq(n.as_str(), name),
            None => false,
        };
        if hit {
            return match &es[i].version {
                Some(v) => Some(v),
                None => None,
            };
        }
        i = i + 1;
    }
    None
}

/// The locked reference of `dep_name` in an importer (see `spec_reference`).
pub fn importer_dependency_reference<'a>(importer: &'a PnpmImporter, dep_name: &str) -> (r: Option<&'a String>)
    ensures
        match r {
            Some(v) => spec_reference(*importer, dep_name@) == Some(v@),
            None => spec_reference(*importer, dep_name@) is None,
        },
{
    if let Some(v) = ref_value(&importer.dependencies, dep_name) {
        return Some(v);
    }
    if let Some(v) = ref_value(&importer.dev_dependencies, dep_name) {
        return Some(v);
    }
    if let Some(v) = ref_value(&importer.optional_dependencies, dep_name) {
        return Some(v);
    }
    ref_value(&importer.peer_dependencies, dep_name)
}

/// The version that a locked reference gives `fallback_name` (see
/// `spec_normalized_reference`).
pub fn normalized_pnpm_reference(reference: &str, fallback_name: &str) -> (r: Option<String>)
    ensures
        opt_str(r) == spec_normalized_reference(reference@, fallback_name@),
{
    proof {
        reveal_strlit("link:");
        reveal_strlit("file:");
        reveal_strlit("workspace:");
        reveal_strlit("npm:");
    }
    let v = chars_of(reference);
    assert(v@.subrange(0, v@.len() as int) == v@);
    let (a, b) = trim_range(&v, 0, v.len());
    let link = chars_of("link:");
    let file = chars_of("file:");
    let workspace = chars_of("workspace:");
    if a == b || range_starts_with(&v, a, b, &link) || range_starts_with(&v, a, b, &file)
        || range_starts_with(&v, a, b, &workspace) {
        return None;
    }
    let (c, d) = pnpm_key_base_range(&v, a, b);
    let base = string_of_range(&v, c, d);
    let npm = chars_of("npm:");
    if range_starts_with(&v, c, d, &npm) {
        proof {
            assert(base@.subrange(4, base@.len() as int) == v@.subrange(c + 4, d as int));
        }
        let alias = string_of_range(&v, c + 4, d);
        return match split_npm_package_and_spec(alias.as_str()) {
            None => None,
            Some((actual, version)) => if str_eq(actual.as_str(), fallback_name) {
                Some(version)
            } else {
                None
            },
        };
    }
    match pnpm_package_key_parts(base.as_str()) {
        Some((name, version)) => if str_eq(name.as_str(), fallback_name) {
            Some(version)
        } else {
            Some(base)
        },
        None => Some(base),
    }
}

pub open spec fn pnpm_lookup(imp: PnpmImporter) -> spec_fn(DependencyView) -> Option<Seq<char>> {
    |d: DependencyView|
        match spec_reference(imp, d.name) {
            None => None,
            Some(r) => spec_normalized_reference(r, d.package()),
        }
}

pub open spec fn importers_view(s: Seq<(String, PnpmImporter)>) -> Seq<(Seq<char>, PnpmImporter)> {
    s.map_values(|p: (String, PnpmImporter)| (p.0@, p.1))
}

pub open spec fn importer_missing_detail(key: Seq<char>) -> Seq<char> {
    "lockfile did not contain importer '"@ + key + "'"@
}

/// Direct dependencies of importer `importer_key` resolved against a
/// `pnpm-lock.yaml`: without its `importers` section or that importer, a
/// parse failure and the manifests' exact pins; otherwise each dependency
/// takes the version its locked reference gives it, and a missing or
/// unusable reference, or a manifest pin that disagrees, is an issue filed
/// against the dependency.
pub open spec fn spec_resolve(lock: PnpmLockfile, deps: Seq<DependencyView>, importer_key: Seq<char>) -> ResolutionView {
    let fail = |detail: Seq<char>|
        fallback_all_v(push_issue_v(empty_resolution(), parse_failed_spec("pnpm-lock.yaml"@, detail)), deps);
    match lock.importers {
        None => fail("lockfile did not contain an importers section"@),
        Some(is) => match first_match(importers_view(is@), importer_key) {
            None => fail(importer_missing_detail(importer_key)),
            Some(imp) => fold_single(
                empty_resolution(),
                deps,
                pnpm_lookup(imp),
                "pnpm-lock.yaml"@,
                ResolutionMode::Direct,
                false,
                true,
            ),
        },
    }
}

pub(crate) fn importer_index(importers: &Vec<(String, PnpmImporter)>, key: &str) -> (r: Option<usize>)
    ensures
        match r {
            Some(i) => i < importers@.len() && first_match(importers_view(importers@), key@) == Some(
                importers@[i as int].1,
            ),
            None => first_match(importers_view(importers@), key@) is None,
        },
{
    let ghost is = importers_view(importers@);
    let mut i: usize = 0;
    while i < importers.len()
        invariant
            i <= importers@.len(),
            is == importers_view(importers@),
            forall|j: int| 0 <= j < i ==> #[trigger] is[j].0 != key@,
        decreases importers.len() - i,
    {
        if str_eq(importers[i].0.as_str(), key) {
            proof {
                lemma_first_match(is, key@, i as int);
            }
            return Some(i);
        }
        i = i + 1;
    }
    proof {
        lemma_first_match(is, key@, i as int);
    }
    None
}

fn failed(deps: &[Dependency], detail: &str) -> (r: ResolutionResult)
    ensures
        r.wf(),
        r@ == fallback_all_v(
            push_issue_v(empty_resolution(), parse_failed_spec("pnpm-lock.yaml"@, detail@)),
            dep_views(deps@),
        ),
{
    let mut result = ResolutionResult::new();
    result.push_issue(parse_failed_issue("pnpm-lock.yaml", detail));
    add_manifest_exact_fallbacks(&mut result, deps);
    result
}

/// Resolves the direct dependencies of importer `importer_key` (see
/// `spec_resolve`).
pub fn resolve_from_value(parsed: &PnpmLockfile, deps: &[Dependency], importer_key: &str) -> (r: ResolutionResult)
    ensures
        r.wf(),
        r@ == spec_resolve(*parsed, dep_views(deps@), importer_key@),
{
    let Some(importers) = &parsed.importers else {
        return failed(deps, "lockfile did not contain an importers section");
    };
    let Some(ii) = importer_index(importers, importer_key) else {
        let mut detail = string_of_str("lockfile did not contain importer '");
        push_str(&mut detail, importer_key);
        push_str(&mut detail, "'");
        return failed(deps, detail.as_str());
    };
    let importer = &importers[ii].1;
    let ghost all = dep_views(deps@);
    let ghost lk = pnpm_lookup(*importer);
    let mut result = ResolutionResult::new();
    assert(all.subrange(0, all.len() as int) == all);
    let mut i: usize = 0;
    while i < deps.len()
        invariant
            i <= deps@.len(),
            all == dep_views(deps@),
            lk == pnpm_lookup(*importer),
            result.wf(),
            fold_single(
                result@,
                all.subrange(i as int, all.len() as int),
                lk,
                "pnpm-lock.yaml"@,
                ResolutionMode::Direct,
                false,
                true,
            ) == fold_single(empty_resolution(), all, lk, "pnpm-lock.yaml"@, ResolutionMode::Direct, false, true),
        decreases deps.len() - i,
    {
        let dep = &deps[i];
        let found = match importer_dependency_reference(importer, dep.name.as_str()) {
            None => None,
            Some(reference) => normalized_pnpm_reference(reference.as_str(), dep.package_name()),
        };
        proof {
            let rest = all.subrange(i as int, all.len() as int);
            assert(rest[0] == dep@);
            assert(rest.drop_first() == all.subrange(i + 1, all.len() as int));
        }
        resolve_single(&mut result, dep, found.as_ref(), "pnpm-lock.yaml", ResolutionMode::Direct, false, true);
        i = i + 1;
    }
    assert(all.subrange(i as int, all.len() as int) == Seq::<DependencyView>::empty());
    result
}

// ---- every locked package ----
pub open spec fn keys_view(s: Seq<PnpmPackage>) -> Seq<Option<Seq<char>>> {
    s.map_values(|p: PnpmPackage| opt_str(p.key))
}

/// The packages that the `packages` keys name, skipping keys that are not
/// strings or not package keys, and unsafe names.
pub open spec fn package_deps(ks: Seq<Option<Seq<char>>>) -> Seq<DependencyView>
    decreases ks.len(),
{
    if ks.len() == 0 {
        Seq::empty()
    } else {
        package_deps(ks.drop_last()) + match ks.last() {
            Some(k) => match spec_pnpm_key_parts(k) {
                Some((n, v)) => if valid_package_name(n) {
                    seq![DependencyView { name: n, version: Some(v), ecosystem: Ecosystem::Npm, actual_name: None }]
                } else {
                    Seq::empty()
                },
                None => Seq::empty(),
            },
            None => Seq::empty(),
        }
    }
}

/// Every package a `pnpm-lock.yaml` records (none without a `packages`
/// section).
pub fn parse_all_from_value(parsed: &PnpmLockfile) -> (r: Vec<Dependency>)
    ensures
        dep_views(r@) == match parsed.packages {
            Some(ps) => package_deps(keys_view(ps@)),
            None => Seq::empty(),
        },
{
    let Some(packages) = &parsed.packages else {
        let r: Vec<Dependency> = Vec::new();
        assert(dep_views(r@) == Seq::<DependencyView>::empty());
        return r;
    };
    let ghost ks = keys_view(packages@);
    let mut r: Vec<Dependency> = Vec::new();
    let mut i: usize = 0;
    assert(ks.take(0) == Seq::<Option<Seq<char>>>::empty());
    assert(dep_views(r@) == Seq::<DependencyView>::empty());
    while i < packages.len()
        invariant
            i <= packages@.len(),
            ks == keys_view(packages@),
            dep_views(r@) == package_deps(ks.take(i as int)),
        decreases packages.len() - i,
    {
        proof {
            let t = ks.take(i + 1);
            assert(t.drop_last() == ks.take(i as int));
            assert(t.last() == ks[i as int]);
        }
        let ghost before = r@;
        let mut pushed = false;
        if let Some(k) = &packages[i].key {
            if let Some((n, v)) = pnpm_package_key_parts(k.as_str()) {
                if validate_package_name(n.as_str()) {
                    let dep = Dependency { name: n, version: Some(v), ecosystem: Ecosystem::Npm, actual_name: None };
                    r.push(dep);
                    pushed = true;
                    assert(dep_views(r@) == dep_views(before) + seq![dep@]);
                }
            }
        }
        if !pushed {
            assert(dep_views(r@) == dep_views(before) + Seq::<DependencyView>::empty());
        }
        i = i + 1;
    }
    assert(ks.take(i as int) == ks);
    r
}

// ---- provenance ----
/// The registry path of a tarball URL: before any `#`, what follows
/// `https://registry.npmjs.org/` or `https://registry.yarnpkg.com/`, or a
/// path that starts with `/`.
pub open spec fn spec_pnpm_tarball_path(tarball: Seq<char>) -> Option<Seq<char>> {
    let t = trim(tarball);
    let t = match split_once(t, '#') {
        Some((p, _)) => p,
        None => t,
    };
    match strip_prefix(t, "https://"@) {
        Some(w) => match strip_prefix(w, "registry.npmjs.org/"@) {
            Some(p) => Some(p),
            None => strip_prefix(w, "registry.yarnpkg.com/"@),
        },
        None => strip_prefix(t, "/"@),
    }
}

/// The registry path of a tarball URL (see `spec_pnpm_tarball_path`).
pub fn pnpm_tarball_path(tarball: &str) -> (r: Option<String>)
    ensures
        opt_str(r) == spec_pnpm_tarball_path(tarball@),
{
    proof {
        reveal_strlit("https://");
        reveal_strlit("registry.npmjs.org/");
        reveal_strlit("registry.yarnpkg.com/");
        reveal_strlit("/");
    }
    let v = chars_of(tarball);
    assert(v@.subrange(0, v@.len() as int) == v@);
    let (a, b0) = trim_range(&v, 0, v.len());
    let h = find_char(&v, a, b0, '#');
    let ghost t0 = v@.subrange(a as int, b0 as int);
    proof {
        crate::text::lemma_index_of_bound(t0, '#');
        if h < b0 {
            assert(t0.subrange(0, h - a) == v@.subrange(a as int, h as int));
        } else {
            assert(v@.subrange(a as int, h as int) == t0);
        }
    }
    let b = h;
    let https = chars_of("https://");
    if range_starts_with(&v, a, b, &https) {
        let w = a + 8;
        proof {
            assert(v@.subrange(a as int, b as int).subrange(8, b - a) == v@.subrange(w as int, b as int));
        }
        let npm = chars_of("registry.npmjs.org/");
        if range_starts_with(&v, w, b, &npm) {
            proof {
                assert(v@.subrange(w as int, b as int).subrange(19, b - w) == v@.subrange(w + 19, b as int));
            }
            return Some(string_of_range(&v, w + 19, b));
        }
        let yarn = chars_of("registry.yarnpkg.com/");
        if range_starts_with(&v, w, b, &yarn) {
            proof {
                assert(v@.subrange(w as int, b as int).subrange(21, b - w) == v@.subrange(w + 21, b as int));
            }
            return Some(string_of_range(&v, w + 21, b));
        }
        return None;
    }
    let slash = chars_of("/");
    if range_starts_with(&v, a, b, &slash) {
        proof {
            assert(v@.subrange(a as int, b as int).subrange(1, b - a) == v@.subrange(a + 1, b as int));
        }
        Some(string_of_range(&v, a + 1, b))
    } else {
        None
    }
}

pub open spec fn untrusted_tarball_msg(path: Seq<char>, name: Seq<char>, tarball: Seq<char>) -> Seq<char> {
    "Required lockfile '"@ + path + "' package '"@ + name + "' has untrusted tarball source '"@
        + sanitized(tarball)
        + "'. sloppy-joe only trusts npm registry tarball URLs in pnpm-lock.yaml."@
}

pub open spec fn tarball_mismatch_msg(
    path: Seq<char>,
    name: Seq<char>,
    version: Seq<char>,
    tarball: Seq<char>,
) -> Seq<char> {
    "Required lockfile '"@ + path + "' package '"@ + name + "' resolves to '"@ + sanitized(tarball)
        + "', which does not match the locked package identity '"@ + name + "' at version '"@
        + version + "'."@
}

/// The tarball must be the registry tarball of exactly this package version.
pub open spec fn spec_tarball_identity(
    name: Seq<char>,
    version: Seq<char>,
    tarball: Seq<char>,
    path: Seq<char>,
) -> Result<(), Seq<char>> {
    match spec_pnpm_tarball_path(tarball) {
        None => Err(untrusted_tarball_msg(path, name, tarball)),
        Some(p) => if spec_expected_paths(name, version).contains(p) {
            Ok(())
        } else {
            Err(tarball_mismatch_msg(path, name, version, tarball))
        },
    }
}

fn package_prefix(path: &str, name: &str) -> (r: String)
    ensures
        r@ == "Required lockfile '"@ + path@ + "' package '"@ + name@,
{
    let mut m = string_of_str("Required lockfile '");
    push_str(&mut m, path);
    push_str(&mut m, "' package '");
    push_str(&mut m, name);
    m
}

fn contains_path(v: &Vec<String>, w: &str) -> (b: bool)
    ensures
        b == strs(v@).contains(w@),
{
    let mut i: usize = 0;
    while i < v.len()
        invariant
            i <= v@.len(),
            forall|j: int| 0 <= j < i ==> v@[j]@ != w@,
        decreases v.len() - i,
    {
        if str_eq(v[i].as_str(), w) {
            assert(strs(v@)[i as int] == w@);
            return true;
        }
        i = i + 1;
    }
    proof {
        if strs(v@).contains(w@) {
            let j = choose|j: int| 0 <= j < strs(v@).len() && strs(v@)[j] == w@;
            assert(v@[j]@ == w@);
        }
    }
    false
}

/// Checks a package's tarball (see `spec_tarball_identity`).
pub fn validate_pnpm_tarball_identity(
    package_name: &str,
    version: &str,
    tarball: &str,
    lockfile_path: &str,
) -> (r: Result<(), String>)
    ensures
        unit_result_view(r) == spec_tarball_identity(package_name@, version@, tarball@, lockfile_path@),
{
    let Some(path) = pnpm_tarball_path(tarball) else {
        let mut m = package_prefix(lockfile_path, package_name);
        push_str(&mut m, "' has untrusted tarball source '");
        let s = sanitize_for_terminal(tarball);
        push_str(&mut m, s.as_str());
        push_str(&mut m, "'. sloppy-joe only trusts npm registry tarball URLs in pnpm-lock.yaml.");
        return Err(m);
    };
    let expected = expected_npm_registry_tarball_paths(package_name, version);
    if !contains_path(&expected, path.as_str()) {
        let mut m = package_prefix(lockfile_path, package_name);
        push_str(&mut m, "' resolves to '");
        let s = sanitize_for_terminal(tarball);
        push_str(&mut m, s.as_str());
        push_str(&mut m, "', which does not match the locked package identity '");
        push_str(&mut m, package_name);
        push_str(&mut m, "' at version '");
        push_str(&mut m, version);
        push_str(&mut m, "'.");
        return Err(m);
    }
    Ok(())
}

pub open spec fn resolution_view(r: Option<PnpmResolution>) -> Option<(Option<Seq<char>>, Option<Seq<char>>)> {
    match r {
        Some(x) => Some((opt_str(x.integrity), opt_str(x.tarball))),
        None => None,
    }
}

/// The checks on one `packages` entry: the key must be a string; local
/// keys are exempt; the key must name a package version; the entry must
/// have a resolution with integrity metadata holding a `-`; and a tarball,
/// when given, must be that version's registry tarball.
pub open spec fn spec_package_check(
    key: Option<Seq<char>>,
    res: Option<(Option<Seq<char>>, Option<Seq<char>>)>,
    path: Seq<char>,
) -> Result<(), Seq<char>> {
    match key {
        None => Err("Broken lockfile '"@ + path + "': pnpm package keys must be strings."@),
        Some(k) => if starts_with(k, "link:"@) || starts_with(k, "file:"@) {
            Ok(())
        } else {
            match spec_pnpm_key_parts(k) {
                None => Err(
                    "Required lockfile '"@ + path + "' contains unsupported pnpm package key '"@
                        + sanitized(k) + "'."@,
                ),
                Some((name, version)) => match res {
                    None => Err(
                        "Required lockfile '"@ + path + "' package '"@ + k
                            + "' is missing a resolution section."@,
                    ),
                    Some((integrity, tarball)) => {
                        let i = match integrity {
                            Some(x) => trim(x),
                            None => Seq::empty(),
                        };
                        if i.len() == 0 {
                            Err(
                                "Required lockfile '"@ + path + "' package '"@ + k
                                    + "' is missing integrity metadata. sloppy-joe only trusts pnpm registry entries with explicit integrity hashes."@,
                            )
                        } else if !i.contains('-') {
                            Err(
                                "Required lockfile '"@ + path + "' package '"@ + k
                                    + "' has malformed integrity metadata '"@ + sanitized(i) + "'."@,
                            )
                        } else {
                            let t = match tarball {
                                Some(x) => trim(x),
                                None => Seq::empty(),
                            };
                            if t.len() == 0 {
                                Ok(())
                            } else {
                                spec_tarball_identity(name, version, t, path)
                            }
                        }
                    },
                },
            }
        },
    }
}

fn validate_package(
    key: &Option<String>,
    resolution: &Option<PnpmResolution>,
    lockfile_path: &str,
) -> (r: Result<(), String>)
    ensures
        unit_result_view(r) == spec_package_check(opt_str(*key), resolution_view(*resolution), lockfile_path@),
{
    proof {
        reveal_strlit("link:");
        reveal_strlit("file:");
    }
    let Some(key) = key else {
        let mut m = string_of_str("Broken lockfile '");
        push_str(&mut m, lockfile_path);
        push_str(&mut m, "': pnpm package keys must be strings.");
        return Err(m);
    };
    let kv = chars_of(key.as_str());
    assert(kv@.subrange(0, kv@.len() as int) == kv@);
    let link = chars_of("link:");
    let file = chars_of("file:");
    if range_starts_with(&kv, 0, kv.len(), &link) || range_starts_with(&kv, 0, kv.len(), &file) {
        return Ok(());
    }
    let Some((name, version)) = pnpm_package_key_parts(key.as_str()) else {
        let mut m = string_of_str("Required lockfile '");
        push_str(&mut m, lockfile_path);
        push_str(&mut m, "' contains unsupported pnpm package key '");
        let s = sanitize_for_terminal(key.as_str());
        push_str(&mut m, s.as_str());
        push_str(&mut m, "'.");
        return Err(m);
    };
    let Some(res) = resolution else {
        let mut m = package_prefix(lockfile_path, key.as_str());
        push_str(&mut m, "' is missing a resolution section.");
        return Err(m);
    };
    let (iv, lo, hi) = match &res.integrity {
        Some(i) => {
            let v = chars_of(i.as_str());
            assert(v@.subrange(0, v@.len() as int) == v@);
            let (lo, hi) = trim_range(&v, 0, v.len());
            (v, lo, hi)
        },
        None => (Vec::new(), 0, 0),
    };
    if lo == hi {
        let mut m = package_prefix(lockfile_path, key.as_str());
        push_str(
            &mut m,
            "' is missing integrity metadata. sloppy-joe only trusts pnpm registry entries with explicit integrity hashes.",
        );
        return Err(m);
    }
    if !range_contains_char(&iv, lo, hi, '-') {
        let mut m = package_prefix(lockfile_path, key.as_str());
        push_str(&mut m, "' has malformed integrity metadata '");
        let t = string_of_range(&iv, lo, hi);
        let s = sanitize_for_terminal(t.as_str());
        push_str(&mut m, s.as_str());
        push_str(&mut m, "'.");
        return Err(m);
    }
    match &res.tarball {
        Some(t) => {
            let tv = chars_of(t.as_str());
            assert(tv@.subrange(0, tv@.len() as int) == tv@);
            let (ta, tb) = trim_range(&tv, 0, tv.len());
            if ta == tb {
                Ok(())
            } else {
                let trimmed = string_of_range(&tv, ta, tb);
                validate_pnpm_tarball_identity(name.as_str(), version.as_str(), trimmed.as_str(), lockfile_path)
            }
        },
        None => Ok(()),
    }
}

pub open spec fn package_checks(ps: Seq<PnpmPackage>, path: Seq<char>) -> Seq<Result<(), Seq<char>>> {
    ps.map_values(|p: PnpmPackage| spec_package_check(opt_str(p.key), resolution_view(p.resolution), path))
}

/// Checks every `packages` entry and reports the first failure (see
/// `spec_package_check`).
pub fn validate_provenance(parsed: &PnpmLockfile, lockfile_path: &str) -> (r: Result<(), String>)
    ensures
        unit_result_view(r) == match parsed.packages {
            Some(ps) => first_error(package_checks(ps@, lockfile_path@)),
            None => Ok(()),
        },
{
    let Some(packages) = &parsed.packages else {
        return Ok(());
    };
    let ghost cs = package_checks(packages@, lockfile_path@);
    assert(cs.subrange(0, cs.len() as int) == cs);
    let mut i: usize = 0;
    while i < packages.len()
        invariant
            i <= packages@.len(),
            parsed.packages == Some(*packages),
            cs == package_checks(packages@, lockfile_path@),
            first_error(cs.subrange(i as int, cs.len() as int)) == first_error(cs),
        decreases packages.len() - i,
    {
        let r = validate_package(&packages[i].key, &packages[i].resolution, lockfile_path);
        proof {
            let rest = cs.subrange(i as int, cs.len() as int);
            assert(rest[0] == cs[i as int]);
            assert(rest.drop_first() == cs.subrange(i + 1, cs.len() as int));
        }
        if r.is_err() {
            return r;
        }
        i = i + 1;
    }
    assert(cs.subrange(i as int, cs.len() as int) == Seq::<Result<(), Seq<char>>>::empty());
    Ok(())
}

} // verus!
