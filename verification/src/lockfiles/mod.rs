//! Exact-version resolution of dependencies against lockfiles.
pub mod bun;
pub mod cargo;
pub mod composer;
pub mod data;
pub mod dotnet;
pub mod gradle;
pub mod js_names;
pub mod json_docs;
pub mod laws;
pub mod npm;
pub mod pnpm;
pub mod pnpm_graph;
pub mod poetry_hash;
pub mod poetry_trust;
pub mod python;
pub mod python_sources;
pub mod reading;
pub mod ruby;
pub mod toml_docs;
pub mod yaml_docs;

use vstd::prelude::*;
pub use data::{LockfileData, ParsedLockfile, parse_all_from_parsed, resolve_from_parsed};
use crate::{Dependency, DependencyView};
use crate::assoc::{CandidateTable, StringTable, map_get, amap, lemma_amap_dom, akeys_unique, lemma_amap_update, lemma_amap_push_new, lemma_amap_index, lemma_amap_absent};
use crate::checks::names;
use crate::report::{Issue, IssueView, Severity, issue_spec, opt_view, clone_opt_string};
use crate::text::{string_of_str, push_str};

verus! {

#[derive(Debug, Clone, Copy, PartialEq, Eq, Structural)]
pub enum ResolutionSource {
    Lockfile,
    ManifestExact,
}

/// Whether the dependencies being resolved are the project's direct ones
/// (whose manifest requirement the lockfile must be shown to satisfy) or
/// transitive ones taken from the lockfile itself.
#[derive(Debug, Clone, Copy, PartialEq, Eq, Structural)]
pub enum ResolutionMode {
    Direct,
    Transitive,
}

#[derive(Debug)]
pub struct ResolvedVersion {
    pub version: String,
    pub source: ResolutionSource,
}

pub struct ResolvedView {
    pub version: Seq<char>,
    pub source: ResolutionSource,
}

impl View for ResolvedVersion {
    type V = ResolvedView;

    open spec fn view(&self) -> ResolvedView {
        ResolvedView { version: self.version@, source: self.source }
    }
}

impl DeepView for ResolvedVersion {
    type V = ResolvedView;

    open spec fn deep_view(&self) -> ResolvedView {
        self@
    }
}

impl Clone for ResolvedVersion {
    fn clone(&self) -> (r: ResolvedVersion)
        ensures
            r@ == self@,
    {
        ResolvedVersion { version: self.version.clone(), source: self.source }
    }
}

/// Resolutions are keyed by the dependency's manifest name and requirement.
#[derive(Debug)]
pub struct ResolutionKey {
    package: String,
    requested_version: Option<String>,
}

pub struct KeyView {
    pub package: Seq<char>,
    pub requested: Option<Seq<char>>,
}

impl View for ResolutionKey {
    type V = KeyView;

    closed spec fn view(&self) -> KeyView {
        KeyView { package: self.package@, requested: opt_view(self.requested_version) }
    }
}

impl DeepView for ResolutionKey {
    type V = KeyView;

    open spec fn deep_view(&self) -> KeyView {
        self@
    }
}

/// The key under which a dependency's resolution is recorded.
pub open spec fn key_of(d: DependencyView) -> KeyView {
    KeyView { package: d.name, requested: d.version }
}

impl ResolutionKey {
    pub fn from(dep: &Dependency) -> (k: ResolutionKey)
        ensures
            k@ == key_of(dep@),
    {
        ResolutionKey {
            package: dep.name.clone(),
            requested_version: clone_opt_string(&dep.version),
        }
    }

    pub fn same(&self, other: &ResolutionKey) -> (b: bool)
        ensures
            b == (self@ == other@),
    {
        if !crate::text::str_eq(self.package.as_str(), other.package.as_str()) {
            return false;
        }
        match (&self.requested_version, &other.requested_version) {
            (None, None) => true,
            (Some(a), Some(b)) => crate::text::str_eq(a.as_str(), b.as_str()),
            _ => false,
        }
    }
}

impl Clone for ResolutionKey {
    fn clone(&self) -> (r: ResolutionKey)
        ensures
            r@ == self@,
    {
        ResolutionKey {
            package: self.package.clone(),
            requested_version: clone_opt_string(&self.requested_version),
        }
    }
}

/// Resolved exact versions, and the issues raised while resolving.
///
/// `issue_keys` records, for the issues filed against a particular
/// dependency, that dependency's key and the check of the issue.
#[derive(Debug)]
pub struct ResolutionResult {
    pub exact_versions: Vec<(ResolutionKey, ResolvedVersion)>,
    pub issues: Vec<Issue>,
    pub issue_keys: Vec<(ResolutionKey, String)>,
}

pub struct ResolutionView {
    pub exact: Map<KeyView, ResolvedView>,
    pub issues: Seq<IssueView>,
    pub keyed: Seq<(KeyView, Seq<char>)>,
}

pub open spec fn issue_views(s: Seq<Issue>) -> Seq<IssueView> {
    s.map_values(|i: Issue| i@)
}

pub open spec fn keyed_views(s: Seq<(ResolutionKey, String)>) -> Seq<(KeyView, Seq<char>)> {
    s.map_values(|p: (ResolutionKey, String)| (p.0@, p.1@))
}

impl View for ResolutionResult {
    type V = ResolutionView;

    open spec fn view(&self) -> ResolutionView {
        ResolutionView {
            exact: amap(self.exact_versions@),
            issues: issue_views(self.issues@),
            keyed: keyed_views(self.issue_keys@),
        }
    }
}

impl ResolutionResult {
    /// The resolved versions have distinct keys.
    pub open spec fn wf(&self) -> bool {
        akeys_unique(self.exact_versions@)
    }
}

pub open spec fn empty_resolution() -> ResolutionView {
    ResolutionView { exact: Map::empty(), issues: Seq::empty(), keyed: Seq::empty() }
}

/// The resolution recorded for `d`, if any.
pub open spec fn lookup(r: ResolutionView, d: DependencyView) -> Option<ResolvedView> {
    if r.exact.dom().contains(key_of(d)) {
        Some(r.exact[key_of(d)])
    } else {
        None
    }
}

pub open spec fn insert_v(
    r: ResolutionView,
    d: DependencyView,
    version: Seq<char>,
    source: ResolutionSource,
) -> ResolutionView {
    ResolutionView { exact: r.exact.insert(key_of(d), ResolvedView { version, source }), ..r }
}

pub open spec fn push_issue_v(r: ResolutionView, i: IssueView) -> ResolutionView {
    ResolutionView { issues: r.issues.push(i), ..r }
}

pub open spec fn push_issue_for_v(r: ResolutionView, d: DependencyView, i: IssueView) -> ResolutionView {
    ResolutionView { issues: r.issues.push(i), keyed: r.keyed.push((key_of(d), i.check)), ..r }
}

/// Records the manifest's own exact pin of `d`, when it has one.
pub open spec fn fallback_v(r: ResolutionView, d: DependencyView) -> ResolutionView {
    match d.exact() {
        Some(v) => insert_v(r, d, v, ResolutionSource::ManifestExact),
        None => r,
    }
}

pub open spec fn fallback_all_v(r: ResolutionView, deps: Seq<DependencyView>) -> ResolutionView
    decreases deps.len(),
{
    if deps.len() == 0 {
        r
    } else {
        fallback_all_v(fallback_v(r, deps[0]), deps.drop_first())
    }
}

pub open spec fn dep_views(s: Seq<Dependency>) -> Seq<DependencyView> {
    s.map_values(|d: Dependency| d@)
}

impl Default for ResolutionResult {
    fn default() -> (r: ResolutionResult)
        ensures
            r@ == empty_resolution(),
            r.wf(),
    {
        ResolutionResult::new()
    }
}

impl ResolutionResult {
    pub fn new() -> (r: ResolutionResult)
        ensures
            r@ == empty_resolution(),
            r.wf(),
    {
        let r = ResolutionResult {
            exact_versions: Vec::new(),
            issues: Vec::new(),
            issue_keys: Vec::new(),
        };
        assert(r@.issues =~= Seq::<IssueView>::empty());
        assert(r@.keyed =~= Seq::<(KeyView, Seq<char>)>::empty());
        r
    }

    fn position(&self, key: &ResolutionKey) -> (r: Option<usize>)
        ensures
            r matches Some(i) ==> i < self.exact_versions@.len() && self.exact_versions@[i as int].0@
                == key@,
            r is None ==> forall|i: int|
                0 <= i < self.exact_versions@.len() ==> self.exact_versions@[i].0@ != key@,
    {
        let mut i: usize = 0;
        while i < self.exact_versions.len()
            invariant
                i <= self.exact_versions@.len(),
                forall|j: int| 0 <= j < i ==> self.exact_versions@[j].0@ != key@,
            decreases self.exact_versions.len() - i,
        {
            if self.exact_versions[i].0.same(key) {
                return Some(i);
            }
            i = i + 1;
        }
        None
    }

    /// Records `resolved` for `key`, replacing an earlier record.
    pub fn insert_exact(&mut self, key: ResolutionKey, resolved: ResolvedVersion)
        requires
            old(self).wf(),
        ensures
            final(self).wf(),
            final(self)@ == (ResolutionView {
                exact: old(self)@.exact.insert(key@, resolved@),
                ..old(self)@
            }),
    {
        match self.position(&key) {
            Some(i) => {
                proof {
                    lemma_amap_update(self.exact_versions@, i as int, (key, resolved));
                }
                self.exact_versions.set(i, (key, resolved));
            },
            None => {
                proof {
                    lemma_amap_push_new(self.exact_versions@, (key, resolved));
                }
                self.exact_versions.push((key, resolved));
            },
        }
    }

    pub fn push_issue(&mut self, issue: Issue)
        ensures
            final(self).wf() == old(self).wf(),
            final(self)@ == push_issue_v(old(self)@, issue@),
    {
        self.issues.push(issue);
        assert(issue_views(self.issues@) =~= issue_views(old(self).issues@).push(issue@));
    }

    /// Files `issue` against `dep`, so that `has_issue_for` finds it.
    pub fn push_issue_for(&mut self, dep: &Dependency, issue: Issue)
        ensures
            final(self).wf() == old(self).wf(),
            final(self)@ == push_issue_for_v(old(self)@, dep@, issue@),
    {
        let key = ResolutionKey::from(dep);
        let check = issue.check.clone();
        self.issue_keys.push((key, check));
        self.issues.push(issue);
        assert(issue_views(self.issues@) =~= issue_views(old(self).issues@).push(issue@));
        assert(keyed_views(self.issue_keys@) =~= keyed_views(old(self).issue_keys@).push(
            (key_of(dep@), issue@.check),
        ));
    }

    /// Whether an issue of `check` was filed against `dep`.
    pub fn has_issue_for(&self, dep: &Dependency, check: &str) -> (b: bool)
        ensures
            b == self@.keyed.contains((key_of(dep@), check@)),
    {
        let key = ResolutionKey::from(dep);
        let mut i: usize = 0;
        while i < self.issue_keys.len()
            invariant
                i <= self.issue_keys@.len(),
                key@ == key_of(dep@),
                forall|j: int| 0 <= j < i ==> self@.keyed[j] != (key_of(dep@), check@),
            decreases self.issue_keys.len() - i,
        {
            if self.issue_keys[i].0.same(&key) && crate::text::str_eq(
                self.issue_keys[i].1.as_str(),
                check,
            ) {
                assert(self@.keyed[i as int] == (key_of(dep@), check@));
                return true;
            }
            i = i + 1;
        }
        proof {
            if self@.keyed.contains((key_of(dep@), check@)) {
                let j = choose|j: int|
                    0 <= j < self@.keyed.len() && self@.keyed[j] == (key_of(dep@), check@);
            }
        }
        false
    }

    pub fn resolved_version(&self, dep: &Dependency) -> (r: Option<&ResolvedVersion>)
        requires
            self.wf(),
        ensures
            match r {
                Some(rv) => lookup(self@, dep@) == Some(rv@),
                None => lookup(self@, dep@) is None,
            },
    {
        let key = ResolutionKey::from(dep);
        match self.position(&key) {
            Some(i) => {
                proof {
                    lemma_amap_index(self.exact_versions@, i as int);
                }
                Some(&self.exact_versions[i].1)
            },
            None => {
                proof {
                    lemma_amap_absent(self.exact_versions@, key@);
                }
                None
            },
        }
    }

    pub fn exact_version(&self, dep: &Dependency) -> (r: Option<&str>)
        requires
            self.wf(),
        ensures
            match r {
                Some(v) => lookup(self@, dep@) matches Some(rv) && rv.version == v@,
                None => lookup(self@, dep@) is None,
            },
    {
        match self.resolved_version(dep) {
            Some(rv) => Some(rv.version.as_str()),
            None => None,
        }
    }

    /// The manifest does not pin `dep` exactly and nothing resolved it.
    pub fn is_unresolved(&self, dep: &Dependency) -> (b: bool)
        requires
            self.wf(),
        ensures
            b == (dep@.exact() is None && lookup(self@, dep@) is None),
    {
        dep.has_unresolved_version() && self.exact_version(dep).is_none()
    }
}

// ---- issues ----
pub open spec fn parse_failed_spec(lockfile: Seq<char>, detail: Seq<char>) -> IssueView {
    IssueView {
        message: "Could not parse '"@ + lockfile
            + "'. Exact lockfile resolution is unavailable, so version-sensitive checks cannot trust this project state. "@
            + detail,
        fix: "Repair or regenerate '"@ + lockfile + "', then rerun sloppy-joe."@,
        ..issue_spec("<lockfile>"@, names::RESOLUTION_PARSE_FAILED@, Severity::Error)
    }
}

pub fn parse_failed_issue(lockfile: &str, detail: &str) -> (i: Issue)
    ensures
        i@ == parse_failed_spec(lockfile@, detail@),
{
    let mut m = string_of_str("Could not parse '");
    push_str(&mut m, lockfile);
    push_str(
        &mut m,
        "'. Exact lockfile resolution is unavailable, so version-sensitive checks cannot trust this project state. ",
    );
    push_str(&mut m, detail);
    let mut f = string_of_str("Repair or regenerate '");
    push_str(&mut f, lockfile);
    push_str(&mut f, "', then rerun sloppy-joe.");
    Issue::new("<lockfile>", names::RESOLUTION_PARSE_FAILED, Severity::Error).message(
        m.as_str(),
    ).fix(f.as_str())
}

pub open spec fn missing_entry_spec(d: DependencyView, lockfile: Seq<char>) -> IssueView {
    IssueView {
        message: "'"@ + d.name + "' is declared in the manifest but was not found in '"@ + lockfile
            + "'. Exact version-sensitive checks cannot trust this lockfile state."@,
        fix: "Regenerate '"@ + lockfile + "' so it contains the direct dependency '"@ + d.name
            + "', then rerun sloppy-joe."@,
        ..issue_spec(d.name, names::RESOLUTION_MISSING_LOCKFILE_ENTRY@, Severity::Error)
    }
}

pub fn missing_entry_issue(dep: &Dependency, lockfile: &str) -> (i: Issue)
    ensures
        i@ == missing_entry_spec(dep@, lockfile@),
{
    let mut m = string_of_str("'");
    push_str(&mut m, dep.name.as_str());
    push_str(&mut m, "' is declared in the manifest but was not found in '");
    push_str(&mut m, lockfile);
    push_str(&mut m, "'. Exact version-sensitive checks cannot trust this lockfile state.");
    let mut f = string_of_str("Regenerate '");
    push_str(&mut f, lockfile);
    push_str(&mut f, "' so it contains the direct dependency '");
    push_str(&mut f, dep.name.as_str());
    push_str(&mut f, "', then rerun sloppy-joe.");
    Issue::new(dep.name.as_str(), names::RESOLUTION_MISSING_LOCKFILE_ENTRY, Severity::Error).message(
        m.as_str(),
    ).fix(f.as_str())
}

pub open spec fn opt_or_empty(o: Option<Seq<char>>) -> Seq<char> {
    match o {
        Some(s) => s,
        None => Seq::empty(),
    }
}

pub open spec fn out_of_sync_spec(d: DependencyView, resolved: Seq<char>) -> IssueView {
    IssueView {
        message: "'"@ + d.name + "' is pinned to '"@ + opt_or_empty(d.version)
            + "' in the manifest but resolves to '"@ + resolved
            + "' in the lockfile. Exact version-sensitive checks cannot trust this project state."@,
        fix: "Update the manifest or regenerate the lockfile so both describe the same direct dependency version."@,
        ..issue_spec(d.name, names::RESOLUTION_LOCKFILE_OUT_OF_SYNC@, Severity::Error)
    }
}

pub fn out_of_sync_issue(dep: &Dependency, resolved_version: &str) -> (i: Issue)
    ensures
        i@ == out_of_sync_spec(dep@, resolved_version@),
{
    let mut m = string_of_str("'");
    push_str(&mut m, dep.name.as_str());
    push_str(&mut m, "' is pinned to '");
    match &dep.version {
        Some(v) => push_str(&mut m, v.as_str()),
        None => {
            assert(opt_or_empty(dep@.version) == Seq::<char>::empty());
            assert(m@ + Seq::<char>::empty() == m@);
        },
    }
    push_str(&mut m, "' in the manifest but resolves to '");
    push_str(&mut m, resolved_version);
    push_str(
        &mut m,
        "' in the lockfile. Exact version-sensitive checks cannot trust this project state.",
    );
    Issue::new(dep.name.as_str(), names::RESOLUTION_LOCKFILE_OUT_OF_SYNC, Severity::Error).message(
        m.as_str(),
    ).fix(
        "Update the manifest or regenerate the lockfile so both describe the same direct dependency version.",
    )
}

pub open spec fn ambiguous_spec(d: DependencyView) -> IssueView {
    IssueView {
        message: "'"@ + d.name
            + "' resolves to multiple locked versions and the direct dependency version cannot be proven exactly from the manifest."@,
        fix: "Pin an exact manifest version or regenerate the lockfile so the direct dependency version is unambiguous."@,
        ..issue_spec(d.name, names::RESOLUTION_AMBIGUOUS@, Severity::Error)
    }
}

pub fn ambiguous_issue(dep: &Dependency) -> (i: Issue)
    ensures
        i@ == ambiguous_spec(dep@),
{
    let mut m = string_of_str("'");
    push_str(&mut m, dep.name.as_str());
    push_str(
        &mut m,
        "' resolves to multiple locked versions and the direct dependency version cannot be proven exactly from the manifest.",
    );
    Issue::new(dep.name.as_str(), names::RESOLUTION_AMBIGUOUS, Severity::Error).message(
        m.as_str(),
    ).fix(
        "Pin an exact manifest version or regenerate the lockfile so the direct dependency version is unambiguous.",
    )
}

pub open spec fn no_sync_spec(d: DependencyView, lockfile: Seq<char>) -> IssueView {
    IssueView {
        message: "'"@ + d.name + "' uses the version requirement '"@ + opt_or_empty(d.version)
            + "', and '"@ + lockfile
            + "' does not prove which locked version satisfies it. Exact version-sensitive checks cannot trust this project state."@,
        fix: "Pin an exact manifest version, or regenerate '"@ + lockfile
            + "' so it records the resolved version of this direct dependency."@,
        ..issue_spec(d.name, names::RESOLUTION_NO_TRUSTED_LOCKFILE_SYNC@, Severity::Error)
    }
}

pub fn no_trusted_lockfile_sync_issue(dep: &Dependency, lockfile: &str) -> (i: Issue)
    ensures
        i@ == no_sync_spec(dep@, lockfile@),
{
    let mut m = string_of_str("'");
    push_str(&mut m, dep.name.as_str());
    push_str(&mut m, "' uses the version requirement '");
    match &dep.version {
        Some(v) => push_str(&mut m, v.as_str()),
        None => {
            assert(m@ + Seq::<char>::empty() == m@);
        },
    }
    push_str(&mut m, "', and '");
    push_str(&mut m, lockfile);
    push_str(
        &mut m,
        "' does not prove which locked version satisfies it. Exact version-sensitive checks cannot trust this project state.",
    );
    let mut f = string_of_str("Pin an exact manifest version, or regenerate '");
    push_str(&mut f, lockfile);
    push_str(&mut f, "' so it records the resolved version of this direct dependency.");
    Issue::new(dep.name.as_str(), names::RESOLUTION_NO_TRUSTED_LOCKFILE_SYNC, Severity::Error).message(
        m.as_str(),
    ).fix(f.as_str())
}

// ---- shared resolution steps ----
/// Records the manifest's own exact pin of `dep`, when it has one.
pub fn add_manifest_exact_fallback(result: &mut ResolutionResult, dep: &Dependency)
    requires
        old(result).wf(),
    ensures
        final(result).wf(),
        final(result)@ == fallback_v(old(result)@, dep@),
{
    if let Some(exact_version) = dep.exact_version() {
        result.insert_exact(
            ResolutionKey::from(dep),
            ResolvedVersion { version: exact_version, source: ResolutionSource::ManifestExact },
        );
    }
}

pub fn add_manifest_exact_fallbacks(result: &mut ResolutionResult, deps: &[Dependency])
    requires
        old(result).wf(),
    ensures
        final(result).wf(),
        final(result)@ == fallback_all_v(old(result)@, dep_views(deps@)),
{
    let ghost all = dep_views(deps@);
    assert(all.subrange(0, all.len() as int) == all);
    let mut i: usize = 0;
    while i < deps.len()
        invariant
            i <= deps@.len(),
            all == dep_views(deps@),
            result.wf(),
            fallback_all_v(result@, all.subrange(i as int, all.len() as int)) == fallback_all_v(
                old(result)@,
                all,
            ),
        decreases deps.len() - i,
    {
        proof {
            let rest = all.subrange(i as int, all.len() as int);
            assert(rest[0] == deps@[i as int]@);
            assert(rest.drop_first() == all.subrange(i + 1, all.len() as int));
        }
        add_manifest_exact_fallback(result, &deps[i]);
        i = i + 1;
    }
    proof {
        assert(all.subrange(0, all.len() as int) == all);
        assert(all.subrange(i as int, all.len() as int) == Seq::<DependencyView>::empty());
    }
}

/// One dependency against the single locked version `found` (or none):
/// a manifest pin that disagrees with the lockfile is out of sync; in
/// `Direct` mode with `check_sync`, a requirement that pins nothing cannot be
/// tied to the locked version; otherwise the locked version resolves it.
/// Issues go through `push_issue_for` when `keyed`, else `push_issue`.
pub open spec fn single_step(
    r: ResolutionView,
    d: DependencyView,
    found: Option<Seq<char>>,
    lockfile: Seq<char>,
    mode: ResolutionMode,
    check_sync: bool,
    keyed: bool,
) -> ResolutionView {
    let file = |r: ResolutionView, i: IssueView|
        if keyed {
            push_issue_for_v(r, d, i)
        } else {
            push_issue_v(r, i)
        };
    match found {
        Some(version) => {
            if d.exact() is Some && d.exact() != Some(version) {
                fallback_v(file(r, out_of_sync_spec(d, version)), d)
            } else if check_sync && mode == ResolutionMode::Direct && d.version is Some
                && d.exact() is None {
                file(r, no_sync_spec(d, lockfile))
            } else {
                insert_v(r, d, version, ResolutionSource::Lockfile)
            }
        },
        None => fallback_v(file(r, missing_entry_spec(d, lockfile)), d),
    }
}

fn file_issue(result: &mut ResolutionResult, dep: &Dependency, issue: Issue, keyed: bool)
    ensures
        final(result).wf() == old(result).wf(),
        final(result)@ == (if keyed {
            push_issue_for_v(old(result)@, dep@, issue@)
        } else {
            push_issue_v(old(result)@, issue@)
        }),
{
    if keyed {
        result.push_issue_for(dep, issue);
    } else {
        result.push_issue(issue);
    }
}

pub fn resolve_single(
    result: &mut ResolutionResult,
    dep: &Dependency,
    found: Option<&String>,
    lockfile: &str,
    mode: ResolutionMode,
    check_sync: bool,
    keyed: bool,
)
    requires
        old(result).wf(),
    ensures
        final(result).wf(),
        final(result)@ == single_step(
            old(result)@,
            dep@,
            match found {
                Some(v) => Some(v@),
                None => None,
            },
            lockfile@,
            mode,
            check_sync,
            keyed,
        ),
{
    match found {
        Some(version) => {
            let exact = dep.exact_version();
            if let Some(exact_manifest) = &exact {
                if !crate::text::str_eq(exact_manifest.as_str(), version.as_str()) {
                    file_issue(result, dep, out_of_sync_issue(dep, version.as_str()), keyed);
                    add_manifest_exact_fallback(result, dep);
                    return ;
                }
            }
            if check_sync && mode == ResolutionMode::Direct && dep.version.is_some()
                && exact.is_none() {
                file_issue(result, dep, no_trusted_lockfile_sync_issue(dep, lockfile), keyed);
                return ;
            }
            result.insert_exact(
                ResolutionKey::from(dep),
                ResolvedVersion { version: version.clone(), source: ResolutionSource::Lockfile },
            );
        },
        None => {
            file_issue(result, dep, missing_entry_issue(dep, lockfile), keyed);
            add_manifest_exact_fallback(result, dep);
        },
    }
}

/// `parts` joined with `sep`.
pub open spec fn join(parts: Seq<Seq<char>>, sep: Seq<char>) -> Seq<char>
    decreases parts.len(),
{
    if parts.len() == 0 {
        Seq::empty()
    } else if parts.len() == 1 {
        parts[0]
    } else {
        join(parts.drop_last(), sep) + sep + parts.last()
    }
}

pub open spec fn strings_view(s: Seq<String>) -> Seq<Seq<char>> {
    s.map_values(|x: String| x@)
}

pub fn join_strings(parts: &Vec<String>, sep: &str) -> (r: String)
    ensures
        r@ == join(strings_view(parts@), sep@),
{
    let mut r = String::new();
    let mut i: usize = 0;
    while i < parts.len()
        invariant
            i <= parts@.len(),
            r@ == join(strings_view(parts@).subrange(0, i as int), sep@),
        decreases parts.len() - i,
    {
        let ghost before = strings_view(parts@).subrange(0, i as int);
        let ghost after = strings_view(parts@).subrange(0, i + 1);
        assert(after.drop_last() == before);
        if i > 0 {
            push_str(&mut r, sep);
        } else {
            assert(r@ == Seq::<char>::empty());
        }
        push_str(&mut r, parts[i].as_str());
        i = i + 1;
    }
    assert(strings_view(parts@).subrange(0, parts@.len() as int) == strings_view(parts@));
    r
}

/// One dependency against the locked versions `cands` of its name (or
/// none): one version behaves as `single_step` (so, resolving direct
/// dependencies, a requirement that pins no exact version is not trusted
/// to the locked one); with several, the manifest
/// pin or else the raw requirement must name one of them; a pin that names
/// none is out of sync, and anything else is ambiguous.
pub open spec fn multi_step(
    r: ResolutionView,
    d: DependencyView,
    cands: Option<Seq<Seq<char>>>,
    lockfile: Seq<char>,
    mode: ResolutionMode,
) -> ResolutionView {
    match cands {
        None => fallback_v(push_issue_v(r, missing_entry_spec(d, lockfile)), d),
        Some(vs) => {
            if vs.len() == 1 {
                single_step(r, d, Some(vs[0]), lockfile, mode, true, false)
            } else {
                let wanted = if d.exact() is Some {
                    d.exact()
                } else {
                    d.version
                };
                if wanted is Some && vs.contains(wanted->0) {
                    insert_v(r, d, wanted->0, ResolutionSource::Lockfile)
                } else if d.exact() is Some {
                    fallback_v(push_issue_v(r, out_of_sync_spec(d, join(vs, ", "@))), d)
                } else {
                    push_issue_v(r, ambiguous_spec(d))
                }
            }
        },
    }
}

/// Whether `vs` holds a string equal to `w`.
pub fn contains_string(vs: &Vec<String>, w: &str) -> (b: bool)
    ensures
        b == strings_view(vs@).contains(w@),
{
    let mut i: usize = 0;
    while i < vs.len()
        invariant
            i <= vs@.len(),
            forall|j: int| 0 <= j < i ==> vs@[j]@ != w@,
        decreases vs.len() - i,
    {
        if crate::text::str_eq(vs[i].as_str(), w) {
            assert(strings_view(vs@)[i as int] == w@);
            return true;
        }
        i = i + 1;
    }
    proof {
        if strings_view(vs@).contains(w@) {
            let j = choose|j: int| 0 <= j < strings_view(vs@).len() && strings_view(vs@)[j] == w@;
            assert(vs@[j]@ == w@);
        }
    }
    false
}

pub fn resolve_multi(
    result: &mut ResolutionResult,
    dep: &Dependency,
    cands: Option<&Vec<String>>,
    lockfile: &str,
    mode: ResolutionMode,
)
    requires
        old(result).wf(),
    ensures
        final(result).wf(),
        final(result)@ == multi_step(
            old(result)@,
            dep@,
            match cands {
                Some(vs) => Some(strings_view(vs@)),
                None => None,
            },
            lockfile@,
            mode,
        ),
{
    let Some(versions) = cands else {
        result.push_issue(missing_entry_issue(dep, lockfile));
        add_manifest_exact_fallback(result, dep);
        return ;
    };
    if versions.len() == 1 {
        resolve_single(result, dep, Some(&versions[0]), lockfile, mode, true, false);
        return ;
    }
    let exact = dep.exact_version();
    let wanted = match &exact {
        Some(e) => Some(e.clone()),
        None => clone_opt_string(&dep.version),
    };
    let matched = match &wanted {
        Some(w) => contains_string(versions, w.as_str()),
        None => false,
    };
    if matched {
        let w = wanted.unwrap();
        result.insert_exact(
            ResolutionKey::from(dep),
            ResolvedVersion { version: w, source: ResolutionSource::Lockfile },
        );
    } else if exact.is_some() {
        let joined = join_strings(versions, ", ");
        result.push_issue(out_of_sync_issue(dep, joined.as_str()));
        add_manifest_exact_fallback(result, dep);
    } else {
        result.push_issue(ambiguous_issue(dep));
    }
}

/// `single_step` for each dependency in order.
pub open spec fn fold_single(
    r: ResolutionView,
    deps: Seq<DependencyView>,
    lookup: spec_fn(DependencyView) -> Option<Seq<char>>,
    lockfile: Seq<char>,
    mode: ResolutionMode,
    check_sync: bool,
    keyed: bool,
) -> ResolutionView
    decreases deps.len(),
{
    if deps.len() == 0 {
        r
    } else {
        fold_single(
            single_step(r, deps[0], lookup(deps[0]), lockfile, mode, check_sync, keyed),
            deps.drop_first(),
            lookup,
            lockfile,
            mode,
            check_sync,
            keyed,
        )
    }
}

/// Looks a dependency up by its manifest name.
pub open spec fn by_name(m: Map<Seq<char>, Seq<char>>) -> spec_fn(DependencyView) -> Option<Seq<char>> {
    |d: DependencyView| map_get(m, d.name)
}

/// Resolves each of `deps` against the single locked version that `table`
/// records under its name.
pub fn resolve_all_single(
    deps: &[Dependency],
    table: &StringTable,
    lockfile: &str,
    mode: ResolutionMode,
    check_sync: bool,
    keyed: bool,
) -> (r: ResolutionResult)
    requires
        table.wf(),
    ensures
        r.wf(),
        r@ == fold_single(
            empty_resolution(),
            dep_views(deps@),
            by_name(table@),
            lockfile@,
            mode,
            check_sync,
            keyed,
        ),
{
    let ghost all = dep_views(deps@);
    let ghost lk = by_name(table@);
    let mut result = ResolutionResult::new();
    assert(all.subrange(0, all.len() as int) == all);
    let mut i: usize = 0;
    while i < deps.len()
        invariant
            i <= deps@.len(),
            all == dep_views(deps@),
            lk == by_name(table@),
            table.wf(),
            result.wf(),
            fold_single(
                result@,
                all.subrange(i as int, all.len() as int),
                lk,
                lockfile@,
                mode,
                check_sync,
                keyed,
            ) == fold_single(empty_resolution(), all, lk, lockfile@, mode, check_sync, keyed),
        decreases deps.len() - i,
    {
        let dep = &deps[i];
        let found = table.get(dep.name.as_str());
        proof {
            let rest = all.subrange(i as int, all.len() as int);
            assert(rest[0] == dep@);
            assert(rest.drop_first() == all.subrange(i + 1, all.len() as int));
        }
        resolve_single(&mut result, dep, found, lockfile, mode, check_sync, keyed);
        i = i + 1;
    }
    assert(all.subrange(i as int, all.len() as int) == Seq::<DependencyView>::empty());
    result
}

/// `ds` lists each entry of `m` once, as a dependency of `eco` pinned to
/// the entry's text.
pub open spec fn lists_table(
    ds: Seq<DependencyView>,
    m: Map<Seq<char>, Seq<char>>,
    eco: crate::ecosystem::Ecosystem,
) -> bool {
    &&& forall|i: int|
        0 <= i < ds.len() ==> {
            &&& m.dom().contains(#[trigger] ds[i].name)
            &&& ds[i].version == Some(m[ds[i].name])
            &&& ds[i].ecosystem == eco
            &&& ds[i].actual_name is None
        }
    &&& forall|i: int, j: int|
        0 <= i < ds.len() && 0 <= j < ds.len() && i != j ==> #[trigger] ds[i].name
            != #[trigger] ds[j].name
    &&& forall|k: Seq<char>| #[trigger] m.dom().contains(k) ==> exists|i: int| 0 <= i < ds.len() && ds[i].name == k
}

/// One dependency of `eco` per entry of `table`.
pub fn deps_from_table(table: &StringTable, eco: crate::ecosystem::Ecosystem) -> (r: Vec<Dependency>)
    requires
        table.wf(),
    ensures
        lists_table(dep_views(r@), table@, eco),
{
    let mut r: Vec<Dependency> = Vec::new();
    let mut i: usize = 0;
    while i < table.entries.len()
        invariant
            i <= table.entries@.len(),
            table.wf(),
            r@.len() == i,
            forall|j: int|
                0 <= j < i ==> {
                    &&& (#[trigger] r@[j])@.name == table.entries@[j].0@
                    &&& r@[j]@.version == Some(table.entries@[j].1@)
                    &&& r@[j]@.ecosystem == eco
                    &&& r@[j]@.actual_name is None
                },
        decreases table.entries.len() - i,
    {
        let d = Dependency {
            name: table.entries[i].0.clone(),
            version: Some(table.entries[i].1.clone()),
            ecosystem: eco,
            actual_name: None,
        };
        r.push(d);
        i = i + 1;
    }
    proof {
        let ds = dep_views(r@);
        let es = table.entries@;
        assert forall|j: int| 0 <= j < ds.len() implies {
            &&& table@.dom().contains(#[trigger] ds[j].name)
            &&& ds[j].version == Some(table@[ds[j].name])
            &&& ds[j].ecosystem == eco
            &&& ds[j].actual_name is None
        } by {
            assert(ds[j] == r@[j]@);
            lemma_amap_index(es, j);
        }
        assert forall|a: int, b: int| 0 <= a < ds.len() && 0 <= b < ds.len() && a != b implies #[trigger] ds[a].name
            != #[trigger] ds[b].name by {
            assert(ds[a] == r@[a]@ && ds[b] == r@[b]@);
            assert(es[a].0.deep_view() != es[b].0.deep_view());
        }
        assert forall|k: Seq<char>| #[trigger] table@.dom().contains(k) implies exists|j: int| 0 <= j < ds.len() && ds[j].name == k by {
            lemma_amap_dom(es, k);
            let j = choose|j: int| 0 <= j < es.len() && es[j].0.deep_view() == k;
            assert(ds[j] == r@[j]@);
        }
    }
    r
}

/// `multi_step` for each dependency in order.
pub open spec fn fold_multi(
    r: ResolutionView,
    deps: Seq<DependencyView>,
    lookup: spec_fn(DependencyView) -> Option<Seq<Seq<char>>>,
    lockfile: Seq<char>,
    mode: ResolutionMode,
) -> ResolutionView
    decreases deps.len(),
{
    if deps.len() == 0 {
        r
    } else {
        fold_multi(
            multi_step(r, deps[0], lookup(deps[0]), lockfile, mode),
            deps.drop_first(),
            lookup,
            lockfile,
            mode,
        )
    }
}

/// Looks a dependency up by its name, ASCII-lowercased when `lower`.
pub open spec fn by_key(m: Map<Seq<char>, Seq<Seq<char>>>, lower: bool) -> spec_fn(DependencyView) -> Option<Seq<Seq<char>>> {
    |d: DependencyView| map_get(m, if lower { crate::text::ascii_lower(d.name) } else { d.name })
}

/// Resolves each of `deps` against the locked versions that `table`
/// records under its name (ASCII-lowercased when `lower`).
pub fn resolve_all_multi(
    deps: &[Dependency],
    table: &CandidateTable,
    lockfile: &str,
    lower: bool,
    mode: ResolutionMode,
) -> (r: ResolutionResult)
    requires
        table.wf(),
    ensures
        r.wf(),
        r@ == fold_multi(empty_resolution(), dep_views(deps@), by_key(table@, lower), lockfile@, mode),
{
    let ghost all = dep_views(deps@);
    let ghost lk = by_key(table@, lower);
    let mut result = ResolutionResult::new();
    assert(all.subrange(0, all.len() as int) == all);
    let mut i: usize = 0;
    while i < deps.len()
        invariant
            i <= deps@.len(),
            all == dep_views(deps@),
            lk == by_key(table@, lower),
            table.wf(),
            result.wf(),
            fold_multi(result@, all.subrange(i as int, all.len() as int), lk, lockfile@, mode)
                == fold_multi(empty_resolution(), all, lk, lockfile@, mode),
        decreases deps.len() - i,
    {
        let dep = &deps[i];
        let found = if lower {
            let key = crate::text::to_ascii_lowercase(dep.name.as_str());
            table.get(key.as_str())
        } else {
            table.get(dep.name.as_str())
        };
        proof {
            let rest = all.subrange(i as int, all.len() as int);
            assert(rest[0] == dep@);
            assert(rest.drop_first() == all.subrange(i + 1, all.len() as int));
        }
        resolve_multi(&mut result, dep, found, lockfile, mode);
        i = i + 1;
    }
    assert(all.subrange(i as int, all.len() as int) == Seq::<DependencyView>::empty());
    result
}

} // verus!
