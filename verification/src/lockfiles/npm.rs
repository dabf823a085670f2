//! npm's `package-lock.json` and `npm-shrinkwrap.json`.
use vstd::prelude::*;
use crate::{Dependency, DependencyView};
use crate::ecosystem::Ecosystem;
use crate::report::{opt_view, clone_opt_string};
use crate::text::{
    chars_of, concat, contains_seq, rsplit_once_seq, rsplit_once_range, str_contains, str_eq,
    string_of_range,
};
use crate::registry::{valid_package_name, validate_package_name};
use crate::assoc::{amap, akeys_unique};
use super::{
    ResolutionMode, ResolutionResult, ResolutionView, empty_resolution, dep_views, fold_single,
    resolve_single, parse_failed_issue, parse_failed_spec, add_manifest_exact_fallbacks,
    fallback_all_v, push_issue_v, strings_view,
};

verus! {

/// The four dependency sections of a `package.json`, or of a lockfile
/// package entry: `dependencies`, `devDependencies`, `optionalDependencies`
/// and `peerDependencies`, each as the `(name, requirement)` pairs whose
/// requirement is a string, in the order the JSON object lists them (empty
/// where the section is missing or not an object).
#[derive(Debug)]
pub struct NpmSections {
    pub dependencies: Vec<(String, String)>,
    pub dev_dependencies: Vec<(String, String)>,
    pub optional_dependencies: Vec<(String, String)>,
    pub peer_dependencies: Vec<(String, String)>,
}

pub struct NpmSectionsView {
    pub dependencies: Map<Seq<char>, Seq<char>>,
    pub dev_dependencies: Map<Seq<char>, Seq<char>>,
    pub optional_dependencies: Map<Seq<char>, Seq<char>>,
    pub peer_dependencies: Map<Seq<char>, Seq<char>>,
}

impl View for NpmSections {
    type V = NpmSectionsView;

    open spec fn view(&self) -> NpmSectionsView {
        NpmSectionsView {
            dependencies: amap(self.dependencies@),
            dev_dependencies: amap(self.dev_dependencies@),
            optional_dependencies: amap(self.optional_dependencies@),
            peer_dependencies: amap(self.peer_dependencies@),
        }
    }
}

impl NpmSections {
    /// Each section names a package once, as a JSON object does.
    pub open spec fn wf(&self) -> bool {
        &&& akeys_unique(self.dependencies@)
        &&& akeys_unique(self.dev_dependencies@)
        &&& akeys_unique(self.optional_dependencies@)
        &&& akeys_unique(self.peer_dependencies@)
    }

    /// No sections at all.
    pub fn empty() -> (r: NpmSections)
        ensures
            r.wf(),
            r.dependencies@.len() == 0 && r.dev_dependencies@.len() == 0,
            r.optional_dependencies@.len() == 0 && r.peer_dependencies@.len() == 0,
    {
        NpmSections {
            dependencies: Vec::new(),
            dev_dependencies: Vec::new(),
            optional_dependencies: Vec::new(),
            peer_dependencies: Vec::new(),
        }
    }
}

/// What the checks read of one lockfile entry (a JSON object): its `name`,
/// `version`, `resolved` and `integrity` strings (`None` where the key is
/// missing or not a string), its `link`, `inBundle` and `bundled` flags
/// (`false` where the key is missing or not a boolean), and its dependency
/// sections.
#[derive(Debug)]
pub struct NpmEntry {
    pub name: Option<String>,
    pub version: Option<String>,
    pub resolved: Option<String>,
    pub integrity: Option<String>,
    pub link: bool,
    pub in_bundle: bool,
    pub bundled: bool,
    pub sections: NpmSections,
}

/// One entry of a lockfile v1 `dependencies` tree: how deeply it is nested
/// (`0` for the top level), its key, and the entry (`None` when it is not a
/// JSON object).
#[derive(Debug)]
pub struct NpmV1Entry {
    pub depth: usize,
    pub name: String,
    pub entry: Option<NpmEntry>,
}

/// A parsed npm lockfile: `lockfileVersion` (`0` where it is missing or not
/// an unsigned integer); the `packages` object keyed by install path, in
/// document order, with `None` for each value that is not an object; and
/// the v1 `dependencies` tree, flattened in document order with every entry
/// followed by the entries of its own `dependencies` object.
#[derive(Debug)]
pub struct NpmLockfile {
    pub lockfile_version: u64,
    pub packages: Option<Vec<(String, Option<NpmEntry>)>>,
    pub dependencies: Option<Vec<NpmV1Entry>>,
}

pub struct NpmEntryView {
    pub name: Option<Seq<char>>,
    pub version: Option<Seq<char>>,
    pub resolved: Option<Seq<char>>,
    pub integrity: Option<Seq<char>>,
    pub link: bool,
    pub in_bundle: bool,
    pub bundled: bool,
    pub sections: NpmSectionsView,
}

impl View for NpmEntry {
    type V = NpmEntryView;

    open spec fn view(&self) -> NpmEntryView {
        NpmEntryView {
            name: opt_view(self.name),
            version: opt_view(self.version),
            resolved: opt_view(self.resolved),
            integrity: opt_view(self.integrity),
            link: self.link,
            in_bundle: self.in_bundle,
            bundled: self.bundled,
            sections: self.sections@,
        }
    }
}

pub open spec fn entry_view(e: Option<NpmEntry>) -> Option<NpmEntryView> {
    match e {
        Some(x) => Some(x@),
        None => None,
    }
}

pub open spec fn packages_view(s: Seq<(String, Option<NpmEntry>)>) -> Seq<(Seq<char>, Option<NpmEntryView>)> {
    s.map_values(|p: (String, Option<NpmEntry>)| (p.0@, entry_view(p.1)))
}

pub open spec fn v1_view(s: Seq<NpmV1Entry>) -> Seq<(nat, Seq<char>, Option<NpmEntryView>)> {
    s.map_values(|p: NpmV1Entry| (p.depth as nat, p.name@, entry_view(p.entry)))
}

pub struct NpmLockView {
    pub lockfile_version: u64,
    pub packages: Option<Seq<(Seq<char>, Option<NpmEntryView>)>>,
    pub dependencies: Option<Seq<(nat, Seq<char>, Option<NpmEntryView>)>>,
}

impl View for NpmLockfile {
    type V = NpmLockView;

    open spec fn view(&self) -> NpmLockView {
        NpmLockView {
            lockfile_version: self.lockfile_version,
            packages: match self.packages {
                Some(p) => Some(packages_view(p@)),
                None => None,
            },
            dependencies: match self.dependencies {
                Some(d) => Some(v1_view(d@)),
                None => None,
            },
        }
    }
}

// ---- lookups ----
/// The value of the first entry of `s` whose key is `k`.
pub open spec fn first_match<T>(s: Seq<(Seq<char>, T)>, k: Seq<char>) -> Option<T>
    decreases s.len(),
{
    if s.len() == 0 {
        None
    } else if s[0].0 == k {
        Some(s[0].1)
    } else {
        first_match(s.drop_first(), k)
    }
}

/// The first top-level entry of a v1 tree whose key is `k`.
pub open spec fn first_top<T>(s: Seq<(nat, Seq<char>, T)>, k: Seq<char>) -> Option<T>
    decreases s.len(),
{
    if s.len() == 0 {
        None
    } else if s[0].0 == 0 && s[0].1 == k {
        Some(s[0].2)
    } else {
        first_top(s.drop_first(), k)
    }
}

pub proof fn lemma_first_match<T>(s: Seq<(Seq<char>, T)>, k: Seq<char>, i: int)
    requires
        0 <= i <= s.len(),
        forall|j: int| 0 <= j < i ==> #[trigger] s[j].0 != k,
        i == s.len() || s[i].0 == k,
    ensures
        first_match(s, k) == (if i < s.len() { Some(s[i].1) } else { None::<T> }),
    decreases i,
{
    if i > 0 {
        let t = s.drop_first();
        assert forall|j: int| 0 <= j < i - 1 implies #[trigger] t[j].0 != k by {
            assert(t[j] == s[j + 1]);
        }
        lemma_first_match(t, k, i - 1);
        if i < s.len() {
            assert(t[i - 1] == s[i]);
        }
    }
}

proof fn lemma_first_top<T>(s: Seq<(nat, Seq<char>, T)>, k: Seq<char>, i: int)
    requires
        0 <= i <= s.len(),
        forall|j: int| 0 <= j < i ==> !(#[trigger] s[j].0 == 0 && s[j].1 == k),
        i == s.len() || (s[i].0 == 0 && s[i].1 == k),
    ensures
        first_top(s, k) == (if i < s.len() { Some(s[i].2) } else { None::<T> }),
    decreases i,
{
    if i > 0 {
        let t = s.drop_first();
        assert forall|j: int| 0 <= j < i - 1 implies !(#[trigger] t[j].0 == 0 && t[j].1 == k) by {
            assert(t[j] == s[j + 1]);
        }
        lemma_first_top(t, k, i - 1);
        if i < s.len() {
            assert(t[i - 1] == s[i]);
        }
    }
}

pub fn find_package<'a>(packages: &'a Vec<(String, Option<NpmEntry>)>, key: &str) -> (r: Option<&'a Option<NpmEntry>>)
    ensures
        match r {
            Some(e) => first_match(packages_view(packages@), key@) == Some(entry_view(*e)),
            None => first_match(packages_view(packages@), key@) is None,
        },
{
    let ghost ps = packages_view(packages@);
    let mut i: usize = 0;
    while i < packages.len()
        invariant
            i <= packages@.len(),
            ps == packages_view(packages@),
            forall|j: int| 0 <= j < i ==> #[trigger] ps[j].0 != key@,
        decreases packages.len() - i,
    {
        if str_eq(packages[i].0.as_str(), key) {
            proof {
                lemma_first_match(ps, key@, i as int);
            }
            return Some(&packages[i].1);
        }
        i = i + 1;
    }
    proof {
        lemma_first_match(ps, key@, i as int);
    }
    None
}

/// Position of the first `packages` entry whose key is `key`.
pub fn package_index(packages: &Vec<(String, Option<NpmEntry>)>, key: &str) -> (r: Option<usize>)
    ensures
        match r {
            Some(i) => i < packages@.len() && first_match(packages_view(packages@), key@) == Some(
                entry_view(packages@[i as int].1),
            ),
            None => first_match(packages_view(packages@), key@) is None,
        },
{
    let ghost ps = packages_view(packages@);
    let mut i: usize = 0;
    while i < packages.len()
        invariant
            i <= packages@.len(),
            ps == packages_view(packages@),
            forall|j: int| 0 <= j < i ==> #[trigger] ps[j].0 != key@,
        decreases packages.len() - i,
    {
        if str_eq(packages[i].0.as_str(), key) {
            proof {
                lemma_first_match(ps, key@, i as int);
            }
            return Some(i);
        }
        i = i + 1;
    }
    proof {
        lemma_first_match(ps, key@, i as int);
    }
    None
}

fn find_top<'a>(entries: &'a Vec<NpmV1Entry>, name: &str) -> (r: Option<&'a Option<NpmEntry>>)
    ensures
        match r {
            Some(e) => first_top(v1_view(entries@), name@) == Some(entry_view(*e)),
            None => first_top(v1_view(entries@), name@) is None,
        },
{
    let ghost ds = v1_view(entries@);
    let mut i: usize = 0;
    while i < entries.len()
        invariant
            i <= entries@.len(),
            ds == v1_view(entries@),
            forall|j: int| 0 <= j < i ==> !(#[trigger] ds[j].0 == 0 && ds[j].1 == name@),
        decreases entries.len() - i,
    {
        if entries[i].depth == 0 && str_eq(entries[i].name.as_str(), name) {
            proof {
                lemma_first_top(ds, name@, i as int);
            }
            return Some(&entries[i].entry);
        }
        i = i + 1;
    }
    proof {
        lemma_first_top(ds, name@, i as int);
    }
    None
}

// ---- resolution ----
/// The entry that records a direct dependency: `packages["node_modules/<name>"]`
/// when there is a `packages` section, else the top-level v1 entry `<name>`.
pub open spec fn entry_for(lock: NpmLockView, d: DependencyView) -> Option<Option<NpmEntryView>> {
    match lock.packages {
        Some(ps) => first_match(ps, "node_modules/"@ + d.name),
        None => match lock.dependencies {
            Some(ds) => first_top(ds, d.name),
            None => None,
        },
    }
}

/// An entry (when there is one) may name the package it holds; it matches
/// the dependency unless that name differs from the published identity.
pub open spec fn spec_entry_matches(d: DependencyView, e: Option<NpmEntryView>) -> bool {
    match e {
        None => true,
        Some(x) => match x.name {
            None => true,
            Some(n) => n == d.package(),
        },
    }
}

/// The locked version of a direct dependency, or `None` when its entry is
/// missing, is not an object, claims another package, or has no version.
pub open spec fn npm_found(lock: NpmLockView, d: DependencyView) -> Option<Seq<char>> {
    match entry_for(lock, d) {
        Some(Some(e)) => if spec_entry_matches(d, Some(e)) {
            e.version
        } else {
            None
        },
        _ => None,
    }
}

pub open spec fn npm_lookup(lock: NpmLockView) -> spec_fn(DependencyView) -> Option<Seq<char>> {
    |d: DependencyView| npm_found(lock, d)
}

pub open spec fn no_section_detail() -> Seq<char> {
    "lockfile did not contain a supported packages or dependencies section"@
}

/// Direct dependencies resolved against a lockfile: without a `packages` or
/// `dependencies` section, a parse failure and the manifests' exact pins;
/// otherwise each dependency takes the version of its entry, and a missing
/// or mismatched entry, or a manifest pin that disagrees, is an issue filed
/// against the dependency.
pub open spec fn spec_resolve(lock: NpmLockView, deps: Seq<DependencyView>, file: Seq<char>) -> ResolutionView {
    if lock.packages is None && lock.dependencies is None {
        fallback_all_v(push_issue_v(empty_resolution(), parse_failed_spec(file, no_section_detail())), deps)
    } else {
        fold_single(empty_resolution(), deps, npm_lookup(lock), file, ResolutionMode::Direct, false, true)
    }
}

/// Whether `entry` may stand for `dep` (see `spec_entry_matches`).
pub fn entry_matches_dependency(dep: &Dependency, entry: Option<&NpmEntry>) -> (b: bool)
    ensures
        b == spec_entry_matches(
            dep@,
            match entry {
                Some(e) => Some(e@),
                None => None,
            },
        ),
{
    let expected = dep.package_name();
    let Some(entry) = entry else {
        return true;
    };
    match &entry.name {
        Some(actual) => str_eq(actual.as_str(), expected),
        None => true,
    }
}

fn entry_of<'a>(parsed: &'a NpmLockfile, dep: &Dependency) -> (r: Option<&'a Option<NpmEntry>>)
    ensures
        match r {
            Some(e) => entry_for(parsed@, dep@) == Some(entry_view(*e)),
            None => entry_for(parsed@, dep@) is None,
        },
{
    match &parsed.packages {
        Some(packages) => {
            let key = concat("node_modules/", dep.name.as_str());
            find_package(packages, key.as_str())
        },
        None => match &parsed.dependencies {
            Some(entries) => find_top(entries, dep.name.as_str()),
            None => None,
        },
    }
}

fn found_version<'a>(parsed: &'a NpmLockfile, dep: &Dependency) -> (r: Option<&'a String>)
    ensures
        match r {
            Some(v) => npm_found(parsed@, dep@) == Some(v@),
            None => npm_found(parsed@, dep@) is None,
        },
{
    match entry_of(parsed, dep) {
        Some(Some(e)) => {
            if entry_matches_dependency(dep, Some(e)) {
                match &e.version {
                    Some(v) => Some(v),
                    None => None,
                }
            } else {
                None
            }
        },
        _ => None,
    }
}

/// Resolves the direct dependencies `deps` against a parsed lockfile.
pub fn resolve_from_value(parsed: &NpmLockfile, deps: &[Dependency], file_name: &str) -> (r: ResolutionResult)
    ensures
        r.wf(),
        r@ == spec_resolve(parsed@, dep_views(deps@), file_name@),
{
    if parsed.packages.is_none() && parsed.dependencies.is_none() {
        let mut result = ResolutionResult::new();
        result.push_issue(
            parse_failed_issue(
                file_name,
                "lockfile did not contain a supported packages or dependencies section",
            ),
        );
        add_manifest_exact_fallbacks(&mut result, deps);
        return result;
    }
    let ghost all = dep_views(deps@);
    let ghost lk = npm_lookup(parsed@);
    let mut result = ResolutionResult::new();
    assert(all.subrange(0, all.len() as int) == all);
    let mut i: usize = 0;
    while i < deps.len()
        invariant
            i <= deps@.len(),
            all == dep_views(deps@),
            lk == npm_lookup(parsed@),
            result.wf(),
            fold_single(
                result@,
                all.subrange(i as int, all.len() as int),
                lk,
                file_name@,
                ResolutionMode::Direct,
                false,
                true,
            ) == fold_single(empty_resolution(), all, lk, file_name@, ResolutionMode::Direct, false, true),
        decreases deps.len() - i,
    {
        let dep = &deps[i];
        let found = found_version(parsed, dep);
        proof {
            let rest = all.subrange(i as int, all.len() as int);
            assert(rest[0] == dep@);
            assert(rest.drop_first() == all.subrange(i + 1, all.len() as int));
        }
        resolve_single(&mut result, dep, found, file_name, ResolutionMode::Direct, false, true);
        i = i + 1;
    }
    assert(all.subrange(i as int, all.len() as int) == Seq::<DependencyView>::empty());
    result
}

// ---- every locked package ----
/// Whether `key` is one of the install paths `node_modules/<name>` of `direct`.
pub open spec fn is_direct_path(direct: Option<Seq<DependencyView>>, key: Seq<char>) -> bool {
    match direct {
        Some(ds) => exists|i: int| 0 <= i < ds.len() && "node_modules/"@ + #[trigger] ds[i].name == key,
        None => false,
    }
}

/// The dependency that a `packages` entry contributes: none for the root
/// entry, for keys outside `node_modules/`, for the install paths of
/// `direct`, for links, and for names that are empty or unsafe; else the
/// entry's `name` (or the key after its last `node_modules/`) at its version.
pub open spec fn package_dep(
    key: Seq<char>,
    entry: Option<NpmEntryView>,
    direct: Option<Seq<DependencyView>>,
) -> Option<DependencyView> {
    let name_field = match entry {
        Some(e) => e.name,
        None => None,
    };
    let name = match name_field {
        Some(n) => n,
        None => match rsplit_once_seq(key, "node_modules/"@) {
            Some((_, n)) => n,
            None => key,
        },
    };
    if key.len() == 0 || !contains_seq(key, "node_modules/"@) || is_direct_path(direct, key) {
        None
    } else if entry matches Some(e) && e.link {
        None
    } else if name.len() == 0 || !valid_package_name(name) {
        None
    } else {
        Some(
            DependencyView {
                name,
                version: match entry {
                    Some(e) => e.version,
                    None => None,
                },
                ecosystem: Ecosystem::Npm,
                actual_name: None,
            },
        )
    }
}

pub open spec fn opt_seq<T>(o: Option<T>) -> Seq<T> {
    match o {
        Some(x) => seq![x],
        None => Seq::empty(),
    }
}

/// The dependencies that the `packages` entries contribute, in order.
pub open spec fn package_deps(
    ps: Seq<(Seq<char>, Option<NpmEntryView>)>,
    direct: Option<Seq<DependencyView>>,
) -> Seq<DependencyView>
    decreases ps.len(),
{
    if ps.len() == 0 {
        Seq::empty()
    } else {
        package_deps(ps.drop_last(), direct) + opt_seq(package_dep(ps.last().0, ps.last().1, direct))
    }
}

/// The dependency that a v1 entry contributes: none for a top-level entry
/// installed at a path of `direct`; else the entry's `name` (or its key) at
/// its version.
pub open spec fn v1_dep(
    depth: nat,
    key: Seq<char>,
    entry: Option<NpmEntryView>,
    direct: Option<Seq<DependencyView>>,
) -> Option<DependencyView> {
    if depth == 0 && is_direct_path(direct, "node_modules/"@ + key) {
        None
    } else {
        Some(
            DependencyView {
                name: match entry {
                    Some(e) => match e.name {
                        Some(n) => n,
                        None => key,
                    },
                    None => key,
                },
                version: match entry {
                    Some(e) => e.version,
                    None => None,
                },
                ecosystem: Ecosystem::Npm,
                actual_name: None,
            },
        )
    }
}

pub open spec fn v1_deps(
    ds: Seq<(nat, Seq<char>, Option<NpmEntryView>)>,
    direct: Option<Seq<DependencyView>>,
) -> Seq<DependencyView>
    decreases ds.len(),
{
    if ds.len() == 0 {
        Seq::empty()
    } else {
        v1_deps(ds.drop_last(), direct) + opt_seq(v1_dep(ds.last().0, ds.last().1, ds.last().2, direct))
    }
}

pub open spec fn no_section_error() -> Seq<char> {
    "npm lockfile has no packages or dependencies section"@
}

/// Every locked package but the root and those installed at the paths of
/// `direct`; an error when the lockfile has neither section.
pub open spec fn spec_parse_dependencies(
    lock: NpmLockView,
    direct: Option<Seq<DependencyView>>,
) -> Result<Seq<DependencyView>, Seq<char>> {
    match lock.packages {
        Some(ps) => Ok(package_deps(ps, direct)),
        None => match lock.dependencies {
            Some(ds) => Ok(v1_deps(ds, direct)),
            None => Err(no_section_error()),
        },
    }
}

fn is_direct_key(direct: Option<&[Dependency]>, key: &str) -> (b: bool)
    ensures
        b == is_direct_path(
            match direct {
                Some(d) => Some(dep_views(d@)),
                None => None,
            },
            key@,
        ),
{
    let ds = match direct {
        Some(ds) => ds,
        None => {
            return false;
        },
    };
    assert(direct == Some(ds));
    let ghost dv = dep_views(ds@);
    let mut i: usize = 0;
    while i < ds.len()
        invariant
            i <= ds@.len(),
            direct == Some(ds),
            dv == dep_views(ds@),
            forall|j: int| 0 <= j < i ==> "node_modules/"@ + #[trigger] dv[j].name != key@,
        decreases ds.len() - i,
    {
        let path = concat("node_modules/", ds[i].name.as_str());
        if str_eq(path.as_str(), key) {
            assert("node_modules/"@ + dv[i as int].name == key@);
            assert(is_direct_path(Some(dv), key@));
            return true;
        }
        i = i + 1;
    }
    false
}

fn package_dependency(
    key: &str,
    entry: &Option<NpmEntry>,
    direct: Option<&[Dependency]>,
) -> (r: Option<Dependency>)
    ensures
        match r {
            Some(d) => package_dep(
                key@,
                entry_view(*entry),
                match direct {
                    Some(x) => Some(dep_views(x@)),
                    None => None,
                },
            ) == Some(d@),
            None => package_dep(
                key@,
                entry_view(*entry),
                match direct {
                    Some(x) => Some(dep_views(x@)),
                    None => None,
                },
            ) is None,
        },
{
    proof {
        reveal_strlit("node_modules/");
    }
    if key.unicode_len() == 0 {
        return None;
    }
    if !str_contains(key, "node_modules/") {
        return None;
    }
    if is_direct_key(direct, key) {
        return None;
    }
    if let Some(e) = entry {
        if e.link {
            return None;
        }
    }
    let name_field = match entry {
        Some(e) => match &e.name {
            Some(n) => Some(n.clone()),
            None => None,
        },
        None => None,
    };
    let name = match name_field {
        Some(n) => n,
        None => {
            let v = chars_of(key);
            let pat = chars_of("node_modules/");
            assert(v@.subrange(0, v@.len() as int) == v@);
            match rsplit_once_range(&v, 0, v.len(), &pat) {
                Some((_, b)) => string_of_range(&v, b, v.len()),
                None => string_of_range(&v, 0, v.len()),
            }
        },
    };
    if name.unicode_len() == 0 || !validate_package_name(name.as_str()) {
        return None;
    }
    let version = match entry {
        Some(e) => clone_opt_string(&e.version),
        None => None,
    };
    Some(Dependency { name, version, ecosystem: Ecosystem::Npm, actual_name: None })
}

fn v1_dependency(item: &NpmV1Entry, direct: Option<&[Dependency]>) -> (r: Option<Dependency>)
    ensures
        match r {
            Some(d) => v1_dep(
                item.depth as nat,
                item.name@,
                entry_view(item.entry),
                match direct {
                    Some(x) => Some(dep_views(x@)),
                    None => None,
                },
            ) == Some(d@),
            None => v1_dep(
                item.depth as nat,
                item.name@,
                entry_view(item.entry),
                match direct {
                    Some(x) => Some(dep_views(x@)),
                    None => None,
                },
            ) is None,
        },
{
    if item.depth == 0 {
        let path = concat("node_modules/", item.name.as_str());
        if is_direct_key(direct, path.as_str()) {
            return None;
        }
    }
    let (name, version) = match &item.entry {
        Some(e) => (
            match &e.name {
                Some(n) => n.clone(),
                None => item.name.clone(),
            },
            clone_opt_string(&e.version),
        ),
        None => (item.name.clone(), None),
    };
    Some(Dependency { name, version, ecosystem: Ecosystem::Npm, actual_name: None })
}

/// The dependencies of the v1 `entries`, skipping the top-level ones
/// installed at the paths of `direct`.
pub fn collect_v1_dependencies(
    entries: &Vec<NpmV1Entry>,
    direct: Option<&[Dependency]>,
    deps: &mut Vec<Dependency>,
)
    ensures
        dep_views(final(deps)@) == dep_views(old(deps)@) + v1_deps(
            v1_view(entries@),
            match direct {
                Some(x) => Some(dep_views(x@)),
                None => None,
            },
        ),
{
    let ghost dv = match direct {
        Some(x) => Some(dep_views(x@)),
        None => None,
    };
    let ghost es = v1_view(entries@);
    let mut i: usize = 0;
    assert(es.take(0) == Seq::<(nat, Seq<char>, Option<NpmEntryView>)>::empty());
    assert(dep_views(deps@) == dep_views(old(deps)@) + Seq::<DependencyView>::empty());
    while i < entries.len()
        invariant
            i <= entries@.len(),
            es == v1_view(entries@),
            dv == (match direct {
                Some(x) => Some(dep_views(x@)),
                None => None,
            }),
            dep_views(deps@) == dep_views(old(deps)@) + v1_deps(es.take(i as int), dv),
        decreases entries.len() - i,
    {
        let r = v1_dependency(&entries[i], direct);
        proof {
            let t = es.take(i + 1);
            assert(t.drop_last() == es.take(i as int));
            assert(t.last() == es[i as int]);
        }
        let ghost before = deps@;
        match r {
            Some(d) => {
                deps.push(d);
                assert(dep_views(deps@) == dep_views(before) + seq![d@]);
            },
            None => {},
        }
        i = i + 1;
    }
    assert(es.take(i as int) == es);
}

fn collect_package_dependencies(
    packages: &Vec<(String, Option<NpmEntry>)>,
    direct: Option<&[Dependency]>,
) -> (r: Vec<Dependency>)
    ensures
        dep_views(r@) == package_deps(
            packages_view(packages@),
            match direct {
                Some(x) => Some(dep_views(x@)),
                None => None,
            },
        ),
{
    let ghost dv = match direct {
        Some(x) => Some(dep_views(x@)),
        None => None,
    };
    let ghost ps = packages_view(packages@);
    let mut deps: Vec<Dependency> = Vec::new();
    let mut i: usize = 0;
    assert(ps.take(0) == Seq::<(Seq<char>, Option<NpmEntryView>)>::empty());
    assert(dep_views(deps@) == Seq::<DependencyView>::empty());
    while i < packages.len()
        invariant
            i <= packages@.len(),
            ps == packages_view(packages@),
            dv == (match direct {
                Some(x) => Some(dep_views(x@)),
                None => None,
            }),
            dep_views(deps@) == package_deps(ps.take(i as int), dv),
        decreases packages.len() - i,
    {
        let r = package_dependency(packages[i].0.as_str(), &packages[i].1, direct);
        proof {
            let t = ps.take(i + 1);
            assert(t.drop_last() == ps.take(i as int));
            assert(t.last() == ps[i as int]);
        }
        let ghost before = deps@;
        match r {
            Some(d) => {
                deps.push(d);
                assert(dep_views(deps@) == dep_views(before) + seq![d@]);
            },
            None => {},
        }
        i = i + 1;
    }
    assert(ps.take(i as int) == ps);
    deps
}

/// Every locked package but the root and, when `direct` is given, those
/// installed at the paths of the direct dependencies.
pub fn parse_dependencies_from_value(
    parsed: &NpmLockfile,
    direct: Option<&[Dependency]>,
) -> (r: Result<Vec<Dependency>, String>)
    ensures
        match (r, spec_parse_dependencies(
            parsed@,
            match direct {
                Some(x) => Some(dep_views(x@)),
                None => None,
            },
        )) {
            (Ok(a), Ok(b)) => dep_views(a@) == b,
            (Err(e), Err(m)) => e@ == m,
            _ => false,
        },
{
    if let Some(packages) = &parsed.packages {
        Ok(collect_package_dependencies(packages, direct))
    } else if let Some(entries) = &parsed.dependencies {
        let mut deps: Vec<Dependency> = Vec::new();
        collect_v1_dependencies(entries, direct, &mut deps);
        assert(dep_views(deps@) == Seq::<DependencyView>::empty() + v1_deps(
            v1_view(entries@),
            match direct {
                Some(x) => Some(dep_views(x@)),
                None => None,
            },
        ));
        Ok(deps)
    } else {
        Err(crate::text::string_of_str("npm lockfile has no packages or dependencies section"))
    }
}

/// Every locked package but the root.
pub fn parse_all_from_value(parsed: &NpmLockfile) -> (r: Result<Vec<Dependency>, String>)
    ensures
        match (r, spec_parse_dependencies(parsed@, None)) {
            (Ok(a), Ok(b)) => dep_views(a@) == b,
            (Err(e), Err(m)) => e@ == m,
            _ => false,
        },
{
    parse_dependencies_from_value(parsed, None)
}

/// Every locked package but the root and the direct dependencies' own
/// top-level entries.
pub fn parse_transitive_from_value(parsed: &NpmLockfile, direct_deps: &[Dependency]) -> (r: Result<
    Vec<Dependency>,
    String,
>)
    ensures
        match (r, spec_parse_dependencies(parsed@, Some(dep_views(direct_deps@)))) {
            (Ok(a), Ok(b)) => dep_views(a@) == b,
            (Err(e), Err(m)) => e@ == m,
            _ => false,
        },
{
    parse_dependencies_from_value(parsed, Some(direct_deps))
}

} // verus!
