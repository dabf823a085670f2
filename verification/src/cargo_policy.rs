//! Where a Cargo dependency may come from: crates.io, a trusted registry,
//! an allowlisted git repository pinned to an exact commit, or a local
//! path; and how `[patch]`, `[replace]` and `.cargo/config.toml` rewrites
//! redirect dependencies.
use vstd::prelude::*;
use crate::checks::names::{
    RESOLUTION_BLOCKED_PROVENANCE_REWRITE, RESOLUTION_LOCAL_DEPENDENCY_SOURCE,
    RESOLUTION_MISSING_LOCKFILE_ENTRY, RESOLUTION_PARSE_FAILED, RESOLUTION_REDUCED_CONFIDENCE_GIT,
    RESOLUTION_UNTRUSTED_GIT_SOURCE, RESOLUTION_UNTRUSTED_REGISTRY_SOURCE,
};
use crate::assoc::{StringTable, amap, lemma_amap_dom};
use crate::config::{CargoGitPolicy, SloppyJoeConfig, TrustedRegistry};
use crate::ecosystem::Ecosystem;
use crate::lockfiles::cargo::{CargoLockPackage, CargoLockfile, CargoPackageView, package_views};
use crate::report::{Issue, IssueView, Severity, clone_opt_string, issue_spec, opt_view, with_text};
use crate::lockfiles::join;
use crate::npm_provenance::unit_result_view;
use crate::text::{
    chars_of, concat_all, find_char, lemma_index_of_bound, push_str, split_once, range_starts_with, starts_with, str_eq, string_of_range, string_of_str, trim,
    trim_range,
};
use crate::version::{exact_version, spec_exact_version};

verus! {

/// Where a dependency of a `Cargo.toml` comes from.
#[derive(Debug)]
pub enum CargoSourceSpec {
    CratesIo,
    RegistryAlias(String),
    RegistryIndex(String),
    Git { url: String, rev: Option<String>, branch: Option<String>, tag: Option<String> },
    Path(String),
    Workspace,
}

/// The sources that a `[patch]` table applies to: crates.io, a named
/// registry, or a source URL.
#[derive(Debug)]
pub enum CargoPatchScope {
    CratesIo,
    RegistryName(String),
    SourceUrl(String),
}

/// One dependency of a `Cargo.toml`: the package it names, its version
/// requirement, its source, and the keys that a `workspace = true`
/// dependency sets but may not.
#[derive(Debug)]
pub struct CargoDependencySpec {
    pub package_name: String,
    pub version: Option<String>,
    pub source: CargoSourceSpec,
    pub workspace_member_invalid_keys: Vec<String>,
}

pub enum SourceView {
    CratesIo,
    RegistryAlias(Seq<char>),
    RegistryIndex(Seq<char>),
    Git {
        url: Seq<char>,
        rev: Option<Seq<char>>,
        branch: Option<Seq<char>>,
        tag: Option<Seq<char>>,
    },
    Path(Seq<char>),
    Workspace,
}

impl View for CargoSourceSpec {
    type V = SourceView;

    open spec fn view(&self) -> SourceView {
        match self {
            CargoSourceSpec::CratesIo => SourceView::CratesIo,
            CargoSourceSpec::RegistryAlias(a) => SourceView::RegistryAlias(a@),
            CargoSourceSpec::RegistryIndex(s) => SourceView::RegistryIndex(s@),
            CargoSourceSpec::Git { url, rev, branch, tag } => SourceView::Git {
                url: url@,
                rev: opt_view(*rev),
                branch: opt_view(*branch),
                tag: opt_view(*tag),
            },
            CargoSourceSpec::Path(p) => SourceView::Path(p@),
            CargoSourceSpec::Workspace => SourceView::Workspace,
        }
    }
}

pub enum ScopeView {
    CratesIo,
    RegistryName(Seq<char>),
    SourceUrl(Seq<char>),
}

impl View for CargoPatchScope {
    type V = ScopeView;

    open spec fn view(&self) -> ScopeView {
        match self {
            CargoPatchScope::CratesIo => ScopeView::CratesIo,
            CargoPatchScope::RegistryName(n) => ScopeView::RegistryName(n@),
            CargoPatchScope::SourceUrl(u) => ScopeView::SourceUrl(u@),
        }
    }
}

pub struct DepSpecView {
    pub package_name: Seq<char>,
    pub version: Option<Seq<char>>,
    pub source: SourceView,
    pub workspace_member_invalid_keys: Seq<Seq<char>>,
}

impl View for CargoDependencySpec {
    type V = DepSpecView;

    open spec fn view(&self) -> DepSpecView {
        DepSpecView {
            package_name: self.package_name@,
            version: opt_view(self.version),
            source: self.source@,
            workspace_member_invalid_keys: self.workspace_member_invalid_keys@.map_values(|s: String| s@),
        }
    }
}

pub open spec fn opt_scope_view(o: Option<CargoPatchScope>) -> Option<ScopeView> {
    match o {
        Some(s) => Some(s@),
        None => None,
    }
}

// ---- error messages ----
/// The words that open a Cargo source error for a check.
pub open spec fn spec_issue_prefix(check: Seq<char>) -> Seq<char> {
    if check == RESOLUTION_LOCAL_DEPENDENCY_SOURCE@ {
        "Cargo local dependency source"@
    } else if check == RESOLUTION_UNTRUSTED_REGISTRY_SOURCE@ {
        "Cargo registry source"@
    } else if check == RESOLUTION_UNTRUSTED_GIT_SOURCE@ {
        "Cargo git source"@
    } else if check == RESOLUTION_BLOCKED_PROVENANCE_REWRITE@ {
        "Cargo provenance rewrite"@
    } else {
        "Cargo dependency source"@
    }
}

/// The words that open a Cargo source error for `check`.
pub fn cargo_issue_message_prefix(check: &str) -> (r: &'static str)
    ensures
        r@ == spec_issue_prefix(check@),
{
    if str_eq(check, RESOLUTION_LOCAL_DEPENDENCY_SOURCE) {
        "Cargo local dependency source"
    } else if str_eq(check, RESOLUTION_UNTRUSTED_REGISTRY_SOURCE) {
        "Cargo registry source"
    } else if str_eq(check, RESOLUTION_UNTRUSTED_GIT_SOURCE) {
        "Cargo git source"
    } else if str_eq(check, RESOLUTION_BLOCKED_PROVENANCE_REWRITE) {
        "Cargo provenance rewrite"
    } else {
        "Cargo dependency source"
    }
}

/// A Cargo source error: the check's prefix, `: `, then the message.
pub open spec fn spec_cargo_fail(check: Seq<char>, message: Seq<char>) -> Seq<char> {
    spec_issue_prefix(check) + ": "@ + message
}

/// The error that `check` raises with `message`.
pub fn cargo_fail(check: &str, message: &str) -> (r: String)
    ensures
        r@ == spec_cargo_fail(check@, message@),
{
    let mut r = string_of_str(cargo_issue_message_prefix(check));
    push_str(&mut r, ": ");
    push_str(&mut r, message);
    r
}

// ---- source ids ----
/// The source id of crates.io in `Cargo.lock`.
pub open spec fn crates_io_source() -> Seq<char> {
    "registry+https://github.com/rust-lang/crates.io-index"@
}

pub fn crates_io_source_id() -> (r: &'static str)
    ensures
        r@ == crates_io_source(),
{
    "registry+https://github.com/rust-lang/crates.io-index"
}

/// The source of the first trusted registry named `alias`.
pub open spec fn registry_source_for(regs: Seq<TrustedRegistry>, alias: Seq<char>) -> Option<Seq<char>>
    decreases regs.len(),
{
    if regs.len() == 0 {
        None
    } else if regs[0].name@ == alias {
        Some(regs[0].source@)
    } else {
        registry_source_for(regs.drop_first(), alias)
    }
}

/// The source of the trusted Cargo registry named `alias`.
pub fn cargo_registry_source_for_alias<'a>(alias: &str, config: &'a SloppyJoeConfig) -> (r: Option<&'a String>)
    ensures
        match r {
            Some(s) => registry_source_for(config.trusted_cargo_registries@, alias@) == Some(s@),
            None => registry_source_for(config.trusted_cargo_registries@, alias@) is None,
        },
{
    let regs = &config.trusted_cargo_registries;
    let mut i: usize = 0;
    assert(regs@.subrange(0, regs@.len() as int) == regs@);
    while i < regs.len()
        invariant
            i <= regs@.len(),
            regs@ == config.trusted_cargo_registries@,
            registry_source_for(regs@, alias@) == registry_source_for(
                regs@.subrange(i as int, regs@.len() as int),
                alias@,
            ),
        decreases regs.len() - i,
    {
        let ghost rest = regs@.subrange(i as int, regs@.len() as int);
        assert(rest[0] == regs@[i as int]);
        assert(rest.drop_first() == regs@.subrange(i + 1, regs@.len() as int));
        if str_eq(regs[i].name.as_str(), alias) {
            assert(registry_source_for(rest, alias@) == Some(rest[0].source@));
            return Some(&regs[i].source);
        }
        i = i + 1;
    }
    None
}

/// A registry source id: trimmed, with `registry+` in front unless it
/// already starts with `registry+` or `sparse+`.
pub open spec fn spec_normalize_registry_source(source: Seq<char>) -> Seq<char> {
    let t = trim(source);
    if starts_with(t, "registry+"@) || starts_with(t, "sparse+"@) {
        t
    } else {
        "registry+"@ + t
    }
}

/// Normalizes a registry source id (see `spec_normalize_registry_source`).
pub fn cargo_normalize_registry_source(source: &str) -> (r: String)
    ensures
        r@ == spec_normalize_registry_source(source@),
{
    proof {
        reveal_strlit("registry+");
        reveal_strlit("sparse+");
    }
    let v = chars_of(source);
    assert(v@.subrange(0, v@.len() as int) == v@);
    let (a, b) = trim_range(&v, 0, v.len());
    let registry = chars_of("registry+");
    let sparse = chars_of("sparse+");
    let t = string_of_range(&v, a, b);
    if range_starts_with(&v, a, b, &registry) || range_starts_with(&v, a, b, &sparse) {
        t
    } else {
        let mut r = string_of_str("registry+");
        push_str(&mut r, t.as_str());
        r
    }
}

/// The `Cargo.lock` source id of a git dependency.
pub open spec fn spec_git_source_id(
    url: Seq<char>,
    rev: Option<Seq<char>>,
    branch: Option<Seq<char>>,
    tag: Option<Seq<char>>,
) -> Seq<char> {
    match (rev, branch, tag) {
        (Some(r), _, _) => "git+"@ + url + "?rev="@ + r + "#"@ + r,
        (None, Some(b), _) => "git+"@ + url + "?branch="@ + b,
        (None, None, Some(t)) => "git+"@ + url + "?tag="@ + t,
        (None, None, None) => "git+"@ + url,
    }
}

/// The `Cargo.lock` source id of a git dependency (see
/// `spec_git_source_id`).
pub fn cargo_git_source_id(url: &str, rev: Option<&str>, branch: Option<&str>, tag: Option<&str>) -> (r: String)
    ensures
        r@ == spec_git_source_id(
            url@,
            match rev {
                Some(x) => Some(x@),
                None => None,
            },
            match branch {
                Some(x) => Some(x@),
                None => None,
            },
            match tag {
                Some(x) => Some(x@),
                None => None,
            },
        ),
{
    let mut r = string_of_str("git+");
    push_str(&mut r, url);
    if let Some(rev) = rev {
        push_str(&mut r, "?rev=");
        push_str(&mut r, rev);
        push_str(&mut r, "#");
        push_str(&mut r, rev);
        return r;
    }
    if let Some(branch) = branch {
        push_str(&mut r, "?branch=");
        push_str(&mut r, branch);
        return r;
    }
    if let Some(tag) = tag {
        push_str(&mut r, "?tag=");
        push_str(&mut r, tag);
    }
    r
}

fn opt_ref(o: &Option<String>) -> (r: Option<&str>)
    ensures
        match r {
            Some(x) => opt_view(*o) == Some(x@),
            None => o is None,
        },
{
    match o {
        Some(s) => Some(s.as_str()),
        None => None,
    }
}

/// The `Cargo.lock` source id that a dependency's source gives it (none for
/// path and workspace dependencies, or an alias of no trusted registry).
pub open spec fn spec_dependency_source_id(source: SourceView, regs: Seq<TrustedRegistry>) -> Option<Seq<char>> {
    match source {
        SourceView::CratesIo => Some(crates_io_source()),
        SourceView::RegistryAlias(alias) => registry_source_for(regs, alias),
        SourceView::RegistryIndex(s) => Some(s),
        SourceView::Git { url, rev, branch, tag } => Some(spec_git_source_id(url, rev, branch, tag)),
        SourceView::Path(_) => None,
        SourceView::Workspace => None,
    }
}

/// The `Cargo.lock` source id of a dependency (see
/// `spec_dependency_source_id`).
pub fn cargo_dependency_source_id(dep: &CargoDependencySpec, config: &SloppyJoeConfig) -> (r: Option<String>)
    ensures
        opt_view(r) == spec_dependency_source_id(dep.source@, config.trusted_cargo_registries@),
{
    match &dep.source {
        CargoSourceSpec::CratesIo => Some(string_of_str(crates_io_source_id())),
        CargoSourceSpec::RegistryAlias(alias) => match cargo_registry_source_for_alias(alias.as_str(), config) {
            Some(s) => Some(s.clone()),
            None => None,
        },
        CargoSourceSpec::RegistryIndex(source) => Some(source.clone()),
        CargoSourceSpec::Git { url, rev, branch, tag } => Some(
            cargo_git_source_id(url.as_str(), opt_ref(rev), opt_ref(branch), opt_ref(tag)),
        ),
        CargoSourceSpec::Path(_) => None,
        CargoSourceSpec::Workspace => None,
    }
}

/// The name under which `.cargo/config.toml` may replace a dependency's
/// source: `crates-io`, or the registry alias.
pub open spec fn spec_config_source_name(source: SourceView) -> Option<Seq<char>> {
    match source {
        SourceView::CratesIo => Some("crates-io"@),
        SourceView::RegistryAlias(alias) => Some(alias),
        _ => None,
    }
}

/// The name under which `.cargo/config.toml` may replace a source.
pub fn cargo_config_source_name(source: &CargoSourceSpec) -> (r: Option<&str>)
    ensures
        match r {
            Some(x) => spec_config_source_name(source@) == Some(x@),
            None => spec_config_source_name(source@) is None,
        },
{
    match source {
        CargoSourceSpec::CratesIo => Some("crates-io"),
        CargoSourceSpec::RegistryAlias(alias) => Some(alias.as_str()),
        _ => None,
    }
}

/// The exact version that a dependency's requirement pins.
pub open spec fn spec_dep_exact(dep: DepSpecView) -> Option<Seq<char>> {
    match dep.version {
        Some(v) => spec_exact_version(v, Ecosystem::Cargo),
        None => None,
    }
}

/// The exact version that a dependency's requirement pins, if any.
pub fn cargo_dependency_exact_version(spec: &CargoDependencySpec) -> (r: Option<String>)
    ensures
        opt_view(r) == spec_dep_exact(spec@),
{
    match &spec.version {
        Some(v) => exact_version(v.as_str(), Ecosystem::Cargo),
        None => None,
    }
}

// ---- rewrites ----
/// A rewrite of a dependency that `[patch]`, `[replace]` or
/// `.cargo/config.toml` declares: the package it applies to, the patch's
/// scope, the `[replace]` source and version it applies to, the dependency
/// that takes its place, and the directory its paths are relative to.
#[derive(Debug)]
pub struct EffectiveCargoRewrite {
    pub package_name: String,
    pub patch_scope: Option<CargoPatchScope>,
    pub replace_source: Option<String>,
    pub replace_version: Option<String>,
    pub spec: CargoDependencySpec,
    pub base_dir: String,
}

pub struct RewriteView {
    pub package_name: Seq<char>,
    pub patch_scope: Option<ScopeView>,
    pub replace_source: Option<Seq<char>>,
    pub replace_version: Option<Seq<char>>,
    pub spec: DepSpecView,
    pub base_dir: Seq<char>,
}

impl View for EffectiveCargoRewrite {
    type V = RewriteView;

    open spec fn view(&self) -> RewriteView {
        RewriteView {
            package_name: self.package_name@,
            patch_scope: opt_scope_view(self.patch_scope),
            replace_source: opt_view(self.replace_source),
            replace_version: opt_view(self.replace_version),
            spec: self.spec@,
            base_dir: self.base_dir@,
        }
    }
}

/// A patch scope applies to a dependency source: crates.io to crates.io, a
/// registry name to that alias, a source URL to the registry index it
/// names once normalized, to an alias whose trusted source it is, or to a
/// git repository at that URL.
pub open spec fn spec_patch_scope_matches(scope: ScopeView, source: SourceView, regs: Seq<TrustedRegistry>) -> bool {
    match (scope, source) {
        (ScopeView::CratesIo, SourceView::CratesIo) => true,
        (ScopeView::RegistryName(expected), SourceView::RegistryAlias(actual)) => expected == actual,
        (ScopeView::SourceUrl(expected), SourceView::RegistryIndex(actual)) => spec_normalize_registry_source(
            expected,
        ) == actual,
        (ScopeView::SourceUrl(expected), SourceView::RegistryAlias(alias)) => registry_source_for(regs, alias)
            == Some(expected),
        (ScopeView::SourceUrl(expected), SourceView::Git { url, .. }) => expected == url,
        _ => false,
    }
}

/// Whether a patch scope applies to a dependency source (see
/// `spec_patch_scope_matches`).
pub fn cargo_patch_scope_matches(scope: &CargoPatchScope, source: &CargoSourceSpec, config: &SloppyJoeConfig) -> (b: bool)
    ensures
        b == spec_patch_scope_matches(scope@, source@, config.trusted_cargo_registries@),
{
    match (scope, source) {
        (CargoPatchScope::CratesIo, CargoSourceSpec::CratesIo) => true,
        (CargoPatchScope::RegistryName(expected), CargoSourceSpec::RegistryAlias(actual)) => str_eq(
            expected.as_str(),
            actual.as_str(),
        ),
        (CargoPatchScope::SourceUrl(expected), CargoSourceSpec::RegistryIndex(actual)) => {
            let normalized = cargo_normalize_registry_source(expected.as_str());
            str_eq(normalized.as_str(), actual.as_str())
        },
        (CargoPatchScope::SourceUrl(expected), CargoSourceSpec::RegistryAlias(alias)) => {
            match cargo_registry_source_for_alias(alias.as_str(), config) {
                Some(s) => str_eq(s.as_str(), expected.as_str()),
                None => false,
            }
        },
        (CargoPatchScope::SourceUrl(expected), CargoSourceSpec::Git { url, .. }) => str_eq(
            expected.as_str(),
            url.as_str(),
        ),
        _ => false,
    }
}

/// A patch scope applies to a `Cargo.lock` source id: crates.io's, the
/// trusted source of the named registry, or a registry or git source at
/// the URL.
pub open spec fn spec_scope_matches_lock_source(scope: ScopeView, lock_source: Seq<char>, regs: Seq<TrustedRegistry>) -> bool {
    match scope {
        ScopeView::CratesIo => lock_source == crates_io_source(),
        ScopeView::RegistryName(alias) => registry_source_for(regs, alias) == Some(lock_source),
        ScopeView::SourceUrl(url) => lock_source == "registry+"@ + url || starts_with(lock_source, "git+"@ + url),
    }
}

/// Whether a patch scope applies to a `Cargo.lock` source id (see
/// `spec_scope_matches_lock_source`).
pub fn cargo_patch_scope_matches_lockfile_source(
    scope: &CargoPatchScope,
    lockfile_source: &str,
    config: &SloppyJoeConfig,
) -> (b: bool)
    ensures
        b == spec_scope_matches_lock_source(scope@, lockfile_source@, config.trusted_cargo_registries@),
{
    match scope {
        CargoPatchScope::CratesIo => str_eq(lockfile_source, crates_io_source_id()),
        CargoPatchScope::RegistryName(alias) => match cargo_registry_source_for_alias(alias.as_str(), config) {
            Some(s) => str_eq(lockfile_source, s.as_str()),
            None => false,
        },
        CargoPatchScope::SourceUrl(url) => {
            let mut registry = string_of_str("registry+");
            push_str(&mut registry, url.as_str());
            if str_eq(lockfile_source, registry.as_str()) {
                return true;
            }
            let mut git = string_of_str("git+");
            push_str(&mut git, url.as_str());
            let v = chars_of(lockfile_source);
            let p = chars_of(git.as_str());
            assert(v@.subrange(0, v@.len() as int) == v@);
            range_starts_with(&v, 0, v.len(), &p)
        },
    }
}

/// A rewrite applies to a dependency: same package, and where the rewrite
/// names a source, version or scope, the dependency's source id, exact
/// version or source matches it.
pub open spec fn spec_rewrite_matches(rw: RewriteView, dep: DepSpecView, regs: Seq<TrustedRegistry>) -> bool {
    &&& rw.package_name == dep.package_name
    &&& (rw.replace_source matches Some(s) ==> spec_dependency_source_id(dep.source, regs) == Some(s))
    &&& (rw.replace_version matches Some(v) ==> spec_dep_exact(dep) == Some(v))
    &&& (rw.patch_scope matches Some(scope) ==> spec_patch_scope_matches(scope, dep.source, regs))
}

/// Whether a rewrite applies to a dependency (see `spec_rewrite_matches`).
pub fn cargo_rewrite_matches(rewrite: &EffectiveCargoRewrite, dep: &CargoDependencySpec, config: &SloppyJoeConfig) -> (b: bool)
    ensures
        b == spec_rewrite_matches(rewrite@, dep@, config.trusted_cargo_registries@),
{
    if !str_eq(rewrite.package_name.as_str(), dep.package_name.as_str()) {
        return false;
    }
    if let Some(source) = &rewrite.replace_source {
        match cargo_dependency_source_id(dep, config) {
            Some(id) => {
                if !str_eq(id.as_str(), source.as_str()) {
                    return false;
                }
            },
            None => {
                return false;
            },
        }
    }
    if let Some(version) = &rewrite.replace_version {
        match cargo_dependency_exact_version(dep) {
            Some(v) => {
                if !str_eq(v.as_str(), version.as_str()) {
                    return false;
                }
            },
            None => {
                return false;
            },
        }
    }
    match &rewrite.patch_scope {
        Some(scope) => cargo_patch_scope_matches(scope, &dep.source, config),
        None => true,
    }
}

/// The tables of a `Cargo.lock`'s `package` array.
pub open spec fn lock_entries(lock: CargoLockfile) -> Seq<Option<CargoPackageView>> {
    match lock.packages {
        Some(ps) => package_views(ps@),
        None => Seq::empty(),
    }
}

/// A locked package has the rewrite's name and, where the rewrite names a
/// version, that version.
pub open spec fn same_name_version(rw: RewriteView, p: CargoPackageView) -> bool {
    &&& p.name == Some(rw.package_name)
    &&& (rw.replace_version matches Some(v) ==> p.version == Some(v))
}

/// A locked package is the one a rewrite applies to: same name and
/// version, the rewrite's source, and a source in the patch's scope.
pub open spec fn direct_match(rw: RewriteView, p: CargoPackageView, regs: Seq<TrustedRegistry>) -> bool {
    &&& same_name_version(rw, p)
    &&& (rw.replace_source matches Some(s) ==> p.source == Some(s))
    &&& (rw.patch_scope matches Some(scope) ==> match p.source {
        Some(src) => spec_scope_matches_lock_source(scope, src, regs),
        None => true,
    })
}

pub open spec fn direct_at(rw: RewriteView, es: Seq<Option<CargoPackageView>>, regs: Seq<TrustedRegistry>, i: int) -> bool {
    es[i] matches Some(p) && direct_match(rw, p, regs)
}

/// Entry `i` has the rewrite's name and version, and a source (`sourced`)
/// or none.
pub open spec fn located_at(rw: RewriteView, es: Seq<Option<CargoPackageView>>, i: int, sourced: bool) -> bool {
    es[i] matches Some(p) && same_name_version(rw, p) && (p.source is Some) == sourced
}

/// A rewrite is in the lockfile's scope when some locked package is the one
/// it applies to; or, for a path rewrite that names a source or scope, when
/// the package is locked only as a local (source-less) package.
pub open spec fn spec_rewrite_in_lock_scope(rw: RewriteView, es: Seq<Option<CargoPackageView>>, regs: Seq<TrustedRegistry>) -> bool {
    if exists|i: int| 0 <= i < es.len() && #[trigger] direct_at(rw, es, regs, i) {
        true
    } else if !(rw.spec.source is Path) || (rw.replace_source is None && rw.patch_scope is None) {
        false
    } else {
        &&& exists|i: int| 0 <= i < es.len() && #[trigger] located_at(rw, es, i, false)
        &&& !exists|i: int| 0 <= i < es.len() && #[trigger] located_at(rw, es, i, true)
    }
}

fn opt_eq(a: &Option<String>, b: &str) -> (r: bool)
    ensures
        r == (opt_view(*a) == Some(b@)),
{
    match a {
        Some(x) => str_eq(x.as_str(), b),
        None => false,
    }
}

fn same_name_version_exec(rw: &EffectiveCargoRewrite, p: &CargoLockPackage) -> (b: bool)
    ensures
        b == same_name_version(rw@, p@),
{
    if !opt_eq(&p.name, rw.package_name.as_str()) {
        return false;
    }
    match &rw.replace_version {
        Some(v) => opt_eq(&p.version, v.as_str()),
        None => true,
    }
}

fn direct_match_exec(rw: &EffectiveCargoRewrite, p: &CargoLockPackage, config: &SloppyJoeConfig) -> (b: bool)
    ensures
        b == direct_match(rw@, p@, config.trusted_cargo_registries@),
{
    if !same_name_version_exec(rw, p) {
        return false;
    }
    if let Some(s) = &rw.replace_source {
        if !opt_eq(&p.source, s.as_str()) {
            return false;
        }
    }
    match (&rw.patch_scope, &p.source) {
        (Some(scope), Some(src)) => cargo_patch_scope_matches_lockfile_source(scope, src.as_str(), config),
        _ => true,
    }
}

fn any_located(rw: &EffectiveCargoRewrite, ps: &Vec<Option<CargoLockPackage>>, sourced: bool) -> (b: bool)
    ensures
        b == exists|i: int| 0 <= i < ps@.len() && #[trigger] located_at(rw@, package_views(ps@), i, sourced),
{
    let ghost es = package_views(ps@);
    let mut i: usize = 0;
    while i < ps.len()
        invariant
            i <= ps@.len(),
            es == package_views(ps@),
            forall|j: int| 0 <= j < i ==> !#[trigger] located_at(rw@, es, j, sourced),
        decreases ps.len() - i,
    {
        if let Some(p) = &ps[i] {
            if same_name_version_exec(rw, p) && p.source.is_some() == sourced {
                assert(located_at(rw@, es, i as int, sourced));
                return true;
            }
        }
        i = i + 1;
    }
    false
}

/// Whether a rewrite is in the lockfile's scope (see
/// `spec_rewrite_in_lock_scope`).
pub fn cargo_rewrite_matches_lockfile_scope(
    rewrite: &EffectiveCargoRewrite,
    lockfile: &CargoLockfile,
    config: &SloppyJoeConfig,
) -> (b: bool)
    ensures
        b == spec_rewrite_in_lock_scope(rewrite@, lock_entries(*lockfile), config.trusted_cargo_registries@),
{
    let empty: Vec<Option<CargoLockPackage>> = Vec::new();
    let ps = match &lockfile.packages {
        Some(ps) => ps,
        None => &empty,
    };
    let ghost es = package_views(ps@);
    assert(es == lock_entries(*lockfile));
    let mut i: usize = 0;
    while i < ps.len()
        invariant
            i <= ps@.len(),
            es == package_views(ps@),
            es == lock_entries(*lockfile),
            forall|j: int| 0 <= j < i ==> !#[trigger] direct_at(rewrite@, es, config.trusted_cargo_registries@, j),
        decreases ps.len() - i,
    {
        if let Some(p) = &ps[i] {
            if direct_match_exec(rewrite, p, config) {
                assert(direct_at(rewrite@, es, config.trusted_cargo_registries@, i as int));
                return true;
            }
        }
        i = i + 1;
    }
    let is_path = match &rewrite.spec.source {
        CargoSourceSpec::Path(_) => true,
        _ => false,
    };
    if !is_path || (rewrite.replace_source.is_none() && rewrite.patch_scope.is_none()) {
        return false;
    }
    any_located(rewrite, ps, false) && !any_located(rewrite, ps, true)
}

// ---- registry and git sources ----
/// A version without its build metadata (what follows the first `+`).
pub open spec fn spec_strip_build_metadata(version: Seq<char>) -> Seq<char> {
    match split_once(version, '+') {
        Some((base, _)) => base,
        None => version,
    }
}

/// A version without its build metadata.
pub fn strip_cargo_build_metadata(version: &str) -> (r: String)
    ensures
        r@ == spec_strip_build_metadata(version@),
{
    let v = chars_of(version);
    let k = find_char(&v, 0, v.len(), '+');
    proof {
        assert(v@.subrange(0, v@.len() as int) == v@);
        lemma_index_of_bound(v@, '+');
    }
    string_of_range(&v, 0, k)
}

/// Two registry versions agree: equal, or equal without build metadata.
pub open spec fn spec_registry_versions_match(expected: Seq<char>, actual: Seq<char>) -> bool {
    expected == actual || spec_strip_build_metadata(expected) == spec_strip_build_metadata(actual)
}

/// Whether two registry versions agree (see
/// `spec_registry_versions_match`).
pub fn cargo_registry_versions_match(expected: &str, actual: &str) -> (b: bool)
    ensures
        b == spec_registry_versions_match(expected@, actual@),
{
    if str_eq(expected, actual) {
        return true;
    }
    let a = strip_cargo_build_metadata(expected);
    let b = strip_cargo_build_metadata(actual);
    str_eq(a.as_str(), b.as_str())
}

pub open spec fn opt_seq(o: Option<&str>) -> Option<Seq<char>> {
    match o {
        Some(x) => Some(x@),
        None => None,
    }
}

/// A registry source is trusted: for an alias, some trusted registry has
/// that alias and source; otherwise it is crates.io or the source of some
/// trusted registry.
pub open spec fn spec_registry_trusted(regs: Seq<TrustedRegistry>, alias: Option<Seq<char>>, source: Seq<char>) -> bool {
    match alias {
        Some(a) => exists|i: int| 0 <= i < regs.len() && #[trigger] registry_is(regs[i], Some(a), source),
        None => source == crates_io_source() || exists|i: int|
            0 <= i < regs.len() && #[trigger] registry_is(regs[i], None, source),
    }
}

/// A trusted registry has the source, and the alias where one is given.
pub open spec fn registry_is(r: TrustedRegistry, alias: Option<Seq<char>>, source: Seq<char>) -> bool {
    &&& r.source@ == source
    &&& (alias matches Some(a) ==> r.name@ == a)
}

/// Locked package `i` proves a registry dependency: its name, the source,
/// and (where an exact version is expected) an agreeing version.
pub open spec fn registry_entry_at(
    es: Seq<Option<CargoPackageView>>,
    i: int,
    name: Seq<char>,
    source: Seq<char>,
    exact: Option<Seq<char>>,
) -> bool {
    es[i] matches Some(p) && p.name == Some(name) && p.source == Some(source) && match exact {
        Some(e) => p.version matches Some(a) && spec_registry_versions_match(e, a),
        None => true,
    }
}

pub open spec fn untrusted_registry_msg(name: Seq<char>, source: Seq<char>) -> Seq<char> {
    spec_cargo_fail(
        RESOLUTION_UNTRUSTED_REGISTRY_SOURCE@,
        "'"@ + name + "' uses registry source '"@ + source + "' which is not trusted by config."@,
    )
}

pub open spec fn unproven_registry_msg(name: Seq<char>, source: Seq<char>) -> Seq<char> {
    spec_cargo_fail(
        RESOLUTION_MISSING_LOCKFILE_ENTRY@,
        "Cargo.lock did not prove a trusted registry entry for '"@ + name + "' with source '"@ + source + "'."@,
    )
}

/// The expected exact version when one is given, else the one the
/// dependency's requirement pins.
pub open spec fn expected_or_pinned(expected: Option<Seq<char>>, dep: DepSpecView) -> Option<Seq<char>> {
    match expected {
        Some(e) => Some(e),
        None => spec_dep_exact(dep),
    }
}

/// A registry dependency must come from a trusted source, and `Cargo.lock`
/// must hold it from that source, at the expected exact version (the one
/// given, else the one its requirement pins) where there is one.
pub open spec fn spec_registry_source_check(
    dep: DepSpecView,
    expected: Option<Seq<char>>,
    alias: Option<Seq<char>>,
    source: Seq<char>,
    es: Seq<Option<CargoPackageView>>,
    regs: Seq<TrustedRegistry>,
) -> Result<(), Seq<char>> {
    let exact = expected_or_pinned(expected, dep);
    if !spec_registry_trusted(regs, alias, source) {
        Err(untrusted_registry_msg(dep.package_name, source))
    } else if !exists|i: int| 0 <= i < es.len() && #[trigger] registry_entry_at(es, i, dep.package_name, source, exact) {
        Err(unproven_registry_msg(dep.package_name, source))
    } else {
        Ok(())
    }
}

fn registry_trusted(config: &SloppyJoeConfig, alias: Option<&str>, source: &str) -> (b: bool)
    ensures
        b == spec_registry_trusted(config.trusted_cargo_registries@, opt_seq(alias), source@),
{
    let regs = &config.trusted_cargo_registries;
    match alias {
        Some(a) => {
            let mut i: usize = 0;
            while i < regs.len()
                invariant
                    i <= regs@.len(),
                    regs@ == config.trusted_cargo_registries@,
                    alias == Some(a),
                    forall|j: int| 0 <= j < i ==> !#[trigger] registry_is(regs@[j], Some(a@), source@),
                decreases regs.len() - i,
            {
                if str_eq(regs[i].name.as_str(), a) && str_eq(regs[i].source.as_str(), source) {
                    assert(registry_is(regs@[i as int], Some(a@), source@));

                    return true;
                }
                i = i + 1;
            }
            false
        },
        None => {
            if str_eq(source, crates_io_source_id()) {
                return true;
            }
            let mut i: usize = 0;
            while i < regs.len()
                invariant
                    i <= regs@.len(),
                    regs@ == config.trusted_cargo_registries@,
                    source@ != crates_io_source(),
                    alias is None,
                    forall|j: int| 0 <= j < i ==> !#[trigger] registry_is(regs@[j], None, source@),
                decreases regs.len() - i,
            {
                if str_eq(regs[i].source.as_str(), source) {
                    assert(registry_is(regs@[i as int], None, source@));
                    return true;
                }
                i = i + 1;
            }
            false
        },
    }
}

fn cargo_error(check: &str, parts: &[&str]) -> (r: String)
    ensures
        r@ == spec_cargo_fail(check@, concat_all(parts@)),
{
    let mut m = String::new();
    let mut i: usize = 0;
    while i < parts.len()
        invariant
            i <= parts@.len(),
            m@ == concat_all(parts@.subrange(0, i as int)),
        decreases parts.len() - i,
    {
        assert(parts@.subrange(0, i + 1).drop_last() == parts@.subrange(0, i as int));
        push_str(&mut m, parts[i]);
        i = i + 1;
    }
    assert(parts@.subrange(0, parts@.len() as int) == parts@);
    cargo_fail(check, m.as_str())
}


/// Checks a registry dependency's source (see
/// `spec_registry_source_check`).
pub fn validate_cargo_registry_source(
    dep: &CargoDependencySpec,
    expected_exact_version: Option<&str>,
    alias: Option<&str>,
    source: &str,
    lockfile: &CargoLockfile,
    config: &SloppyJoeConfig,
) -> (r: Result<(), String>)
    ensures
        unit_result_view(r) == spec_registry_source_check(
            dep@,
            opt_seq(expected_exact_version),
            opt_seq(alias),
            source@,
            lock_entries(*lockfile),
            config.trusted_cargo_registries@,
        ),
{
    if !registry_trusted(config, alias, source) {
        let r = cargo_error(
            RESOLUTION_UNTRUSTED_REGISTRY_SOURCE,
            &["'", dep.package_name.as_str(), "' uses registry source '", source, "' which is not trusted by config."],
        );
        proof {
            reveal_with_fuel(concat_all, 6);
        }
        return Err(r);
    }
    let exact: Option<String> = match expected_exact_version {
        Some(e) => Some(string_of_str(e)),
        None => cargo_dependency_exact_version(dep),
    };
    let empty: Vec<Option<CargoLockPackage>> = Vec::new();
    let ps = match &lockfile.packages {
        Some(ps) => ps,
        None => &empty,
    };
    let ghost es = package_views(ps@);
    let ghost want = match expected_exact_version {
        Some(e) => Some(e@),
        None => spec_dep_exact(dep@),
    };
    assert(opt_view(exact) == want);
    let mut i: usize = 0;
    while i < ps.len()
        invariant
            i <= ps@.len(),
            es == package_views(ps@),
            es == lock_entries(*lockfile),
            opt_view(exact) == want,
            want == expected_or_pinned(opt_seq(expected_exact_version), dep@),
            spec_registry_trusted(config.trusted_cargo_registries@, opt_seq(alias), source@),
            forall|j: int|
                0 <= j < i ==> !#[trigger] registry_entry_at(es, j, dep.package_name@, source@, opt_view(exact)),
        decreases ps.len() - i,
    {
        if let Some(p) = &ps[i] {
            let version_ok = match &exact {
                Some(e) => match &p.version {
                    Some(a) => cargo_registry_versions_match(e.as_str(), a.as_str()),
                    None => false,
                },
                None => true,
            };
            if opt_eq(&p.name, dep.package_name.as_str()) && opt_eq(&p.source, source) && version_ok {
                assert(registry_entry_at(es, i as int, dep.package_name@, source@, want));
                return Ok(());
            }
        }
        i = i + 1;
    }
    let r = cargo_error(
        RESOLUTION_MISSING_LOCKFILE_ENTRY,
        &["Cargo.lock did not prove a trusted registry entry for '", dep.package_name.as_str(), "' with source '", source, "'."],
    );
    proof {
        reveal_with_fuel(concat_all, 6);
    }
    Err(r)
}

pub open spec fn is_lower_hex(c: char) -> bool {
    ('0' <= c && c <= '9') || ('a' <= c && c <= 'f')
}

/// A full commit id: forty lowercase hexadecimal digits.
pub open spec fn is_exact_rev(rev: Seq<char>) -> bool {
    rev.len() == 40 && forall|i: int| 0 <= i < rev.len() ==> is_lower_hex(#[trigger] rev[i])
}

/// Some allowlisted git repository is the URL, both trimmed.
pub open spec fn git_source_allowlisted(sources: Seq<String>, url: Seq<char>) -> bool {
    exists|i: int| 0 <= i < sources.len() && trim(#[trigger] sources[i]@) == trim(url)
}

/// Locked package `i` is the git dependency at that source, and at the
/// expected version where one is given.
pub open spec fn git_entry_at(
    es: Seq<Option<CargoPackageView>>,
    i: int,
    name: Seq<char>,
    source: Seq<char>,
    expected: Option<Seq<char>>,
) -> bool {
    es[i] matches Some(p) && p.name == Some(name) && p.source == Some(source) && (expected matches Some(
        e,
    ) ==> p.version == Some(e))
}

pub open spec fn git_warning(name: Seq<char>, rev: Seq<char>, url: Seq<char>) -> IssueView {
    with_text(
        issue_spec(name, RESOLUTION_REDUCED_CONFIDENCE_GIT@, Severity::Warning),
        "'"@ + name + "' uses an allowlisted git dependency pinned to exact rev "@ + rev + " from '"@ + url
            + "'. sloppy-joe continues in reduced-confidence mode because git provenance is outside normal registry trust."@,
        "Prefer a reviewed registry release when available. If git is required, keep the repo URL and exact revision under explicit review."@,
    )
}

pub open spec fn git_fail(message: Seq<char>) -> Seq<char> {
    spec_cargo_fail(RESOLUTION_UNTRUSTED_GIT_SOURCE@, message)
}

/// A git dependency is accepted, with a reduced-confidence warning, only
/// where the configuration allows pinned git dependencies, it is pinned to a
/// full commit id (no branch or tag), its repository is allowlisted, and
/// `Cargo.lock` holds it from exactly that repository and commit (at the
/// expected version, where one is given).
pub open spec fn spec_git_source_check(
    dep: DepSpecView,
    expected: Option<Seq<char>>,
    source: SourceView,
    es: Seq<Option<CargoPackageView>>,
    policy: CargoGitPolicy,
    git_sources: Seq<String>,
) -> Result<IssueView, Seq<char>> {
    let name = dep.package_name;
    match source {
        SourceView::Git { url, rev, branch, tag } => if policy != CargoGitPolicy::WarnPinned {
            Err(
                git_fail(
                    "'"@ + name + "' uses git source '"@ + url
                        + "' but cargo_git_policy blocks git dependencies by default."@,
                ),
            )
        } else if branch is Some || tag is Some || rev is None {
            Err(
                git_fail(
                    "'"@ + name
                        + "' must pin git dependencies to an exact rev; branch, tag, or unspecified refs are not allowed."@,
                ),
            )
        } else if !is_exact_rev(rev->0) {
            Err(
                git_fail(
                    "'"@ + name + "' uses git rev '"@ + rev->0
                        + "' which is not a full lowercase 40-character commit SHA."@,
                ),
            )
        } else if !git_source_allowlisted(git_sources, url) {
            Err(git_fail("'"@ + name + "' uses git source '"@ + url + "' which is not allowlisted."@))
        } else if !exists|i: int|
            0 <= i < es.len() && #[trigger] git_entry_at(
                es,
                i,
                name,
                spec_git_source_id(url, rev, None, None),
                expected,
            ) {
            Err(
                git_fail(
                    "Cargo.lock did not prove the exact git repo and commit for '"@ + name + "' as '"@
                        + spec_git_source_id(url, rev, None, None) + "'."@,
                ),
            )
        } else {
            Ok(git_warning(name, rev->0, url))
        },
        _ => Err(Seq::empty()),
    }
}

pub open spec fn issue_result_view(r: Result<Issue, String>) -> Result<IssueView, Seq<char>> {
    match r {
        Ok(i) => Ok(i@),
        Err(e) => Err(e@),
    }
}

fn trimmed_eq(a: &str, b: &str) -> (r: bool)
    ensures
        r == (trim(a@) == trim(b@)),
{
    let va = chars_of(a);
    let vb = chars_of(b);
    assert(va@.subrange(0, va@.len() as int) == va@);
    assert(vb@.subrange(0, vb@.len() as int) == vb@);
    let (a0, a1) = trim_range(&va, 0, va.len());
    let (b0, b1) = trim_range(&vb, 0, vb.len());
    let ta = string_of_range(&va, a0, a1);
    let tb = string_of_range(&vb, b0, b1);
    str_eq(ta.as_str(), tb.as_str())
}

fn exact_rev(rev: &str) -> (b: bool)
    ensures
        b == is_exact_rev(rev@),
{
    let v = chars_of(rev);
    if v.len() != 40 {
        return false;
    }
    let mut i: usize = 0;
    while i < v.len()
        invariant
            i <= v@.len(),
            v@ == rev@,
            forall|j: int| 0 <= j < i ==> is_lower_hex(#[trigger] v@[j]),
        decreases v.len() - i,
    {
        let c = v[i];
        if !(('0' <= c && c <= '9') || ('a' <= c && c <= 'f')) {
            assert(!is_lower_hex(rev@[i as int]));
            return false;
        }
        i = i + 1;
    }
    true
}

fn git_allowlisted(config: &SloppyJoeConfig, url: &str) -> (b: bool)
    ensures
        b == git_source_allowlisted(config.trusted_cargo_git_sources@, url@),
{
    let ts = &config.trusted_cargo_git_sources;
    let mut i: usize = 0;
    while i < ts.len()
        invariant
            i <= ts@.len(),
            ts@ == config.trusted_cargo_git_sources@,
            forall|j: int| 0 <= j < i ==> trim(#[trigger] ts@[j]@) != trim(url@),
        decreases ts.len() - i,
    {
        if trimmed_eq(ts[i].as_str(), url) {
            return true;
        }
        i = i + 1;
    }
    false
}

fn git_locked(lockfile: &CargoLockfile, name: &str, source: &str, expected: Option<&str>) -> (b: bool)
    ensures
        b == exists|i: int|
            0 <= i < lock_entries(*lockfile).len() && #[trigger] git_entry_at(
                lock_entries(*lockfile),
                i,
                name@,
                source@,
                opt_seq(expected),
            ),
{
    let empty: Vec<Option<CargoLockPackage>> = Vec::new();
    let ps = match &lockfile.packages {
        Some(ps) => ps,
        None => &empty,
    };
    let ghost es = package_views(ps@);
    let ghost want = opt_seq(expected);
    let mut i: usize = 0;
    while i < ps.len()
        invariant
            i <= ps@.len(),
            es == package_views(ps@),
            es == lock_entries(*lockfile),
            want == opt_seq(expected),
            forall|j: int| 0 <= j < i ==> !#[trigger] git_entry_at(es, j, name@, source@, want),
        decreases ps.len() - i,
    {
        if let Some(p) = &ps[i] {
            let version_ok = match expected {
                Some(e) => opt_eq(&p.version, e),
                None => true,
            };
            if opt_eq(&p.name, name) && opt_eq(&p.source, source) && version_ok {
                assert(git_entry_at(es, i as int, name@, source@, want));
                return true;
            }
        }
        i = i + 1;
    }
    false
}

/// Checks a git dependency's source (see `spec_git_source_check`).
pub fn validate_cargo_git_source(
    dep: &CargoDependencySpec,
    expected_exact_version: Option<&str>,
    source: &CargoSourceSpec,
    lockfile: &CargoLockfile,
    config: &SloppyJoeConfig,
) -> (r: Result<Issue, String>)
    requires
        source@ is Git,
    ensures
        issue_result_view(r) == spec_git_source_check(
            dep@,
            opt_seq(expected_exact_version),
            source@,
            lock_entries(*lockfile),
            config.cargo_git_policy,
            config.trusted_cargo_git_sources@,
        ),
{
    let (url, rev, branch, tag) = match source {
        CargoSourceSpec::Git { url, rev, branch, tag } => (url, rev, branch, tag),
        _ => {
            return Err(String::new());
        },
    };
    let name = dep.package_name.as_str();
    if config.cargo_git_policy != CargoGitPolicy::WarnPinned {
        let r = cargo_error(
            RESOLUTION_UNTRUSTED_GIT_SOURCE,
            &["'", name, "' uses git source '", url.as_str(), "' but cargo_git_policy blocks git dependencies by default."],
        );
        proof {
            reveal_with_fuel(concat_all, 6);
        }
        return Err(r);
    }
    if branch.is_some() || tag.is_some() || rev.is_none() {
        let r = cargo_error(
            RESOLUTION_UNTRUSTED_GIT_SOURCE,
            &["'", name, "' must pin git dependencies to an exact rev; branch, tag, or unspecified refs are not allowed."],
        );
        proof {
            reveal_with_fuel(concat_all, 4);
        }
        return Err(r);
    }
    let rev = match rev {
        Some(r) => r.as_str(),
        None => {
            return Err(String::new());
        },
    };
    if !exact_rev(rev) {
        let r = cargo_error(
            RESOLUTION_UNTRUSTED_GIT_SOURCE,
            &["'", name, "' uses git rev '", rev, "' which is not a full lowercase 40-character commit SHA."],
        );
        proof {
            reveal_with_fuel(concat_all, 6);
        }
        return Err(r);
    }
    if !git_allowlisted(config, url.as_str()) {
        let r = cargo_error(
            RESOLUTION_UNTRUSTED_GIT_SOURCE,
            &["'", name, "' uses git source '", url.as_str(), "' which is not allowlisted."],
        );
        proof {
            reveal_with_fuel(concat_all, 6);
        }
        return Err(r);
    }
    let expected_source = cargo_git_source_id(url.as_str(), Some(rev), None, None);
    let found = git_locked(lockfile, name, expected_source.as_str(), expected_exact_version);
    if !found {
        let r = cargo_error(
            RESOLUTION_UNTRUSTED_GIT_SOURCE,
            &["Cargo.lock did not prove the exact git repo and commit for '", name, "' as '", expected_source.as_str(), "'."],
        );
        proof {
            reveal_with_fuel(concat_all, 6);
        }
        return Err(r);
    }
    let mut message = string_of_str("'");
    push_str(&mut message, name);
    push_str(&mut message, "' uses an allowlisted git dependency pinned to exact rev ");
    push_str(&mut message, rev);
    push_str(&mut message, " from '");
    push_str(&mut message, url.as_str());
    push_str(
        &mut message,
        "'. sloppy-joe continues in reduced-confidence mode because git provenance is outside normal registry trust.",
    );
    Ok(
        Issue::new(name, RESOLUTION_REDUCED_CONFIDENCE_GIT, Severity::Warning).message(message.as_str()).fix(
            "Prefer a reviewed registry release when available. If git is required, keep the repo URL and exact revision under explicit review.",
        ),
    )
}

// ---- dependency specs ----
/// What a dependency's source check leaves to do: nothing more, with these
/// warnings; or inspect the local crate at this path (relative to the
/// manifest's directory) with `validate_cargo_local_target`.
#[derive(Debug)]
pub enum CargoSourceVerdict {
    Accepted(Vec<Issue>),
    CheckLocalTarget(String),
}

pub enum VerdictView {
    Accepted(Seq<IssueView>),
    CheckLocalTarget(Seq<char>),
}

pub open spec fn verdict_result_view(r: Result<CargoSourceVerdict, String>) -> Result<VerdictView, Seq<char>> {
    match r {
        Ok(CargoSourceVerdict::Accepted(v)) => Ok(VerdictView::Accepted(v@.map_values(|i: Issue| i@))),
        Ok(CargoSourceVerdict::CheckLocalTarget(p)) => Ok(VerdictView::CheckLocalTarget(p@)),
        Err(e) => Err(e@),
    }
}

pub open spec fn accepted_if_ok(r: Result<(), Seq<char>>) -> Result<VerdictView, Seq<char>> {
    match r {
        Ok(_) => Ok(VerdictView::Accepted(Seq::empty())),
        Err(e) => Err(e),
    }
}

/// A dependency's source: crates.io and registry indexes are checked as
/// registry sources; an alias must name a trusted registry, whose source is
/// then checked; a git dependency is checked as such and warned about; a
/// path dependency leaves its local crate to inspect; a `workspace = true`
/// dependency that was not resolved is refused.
pub open spec fn spec_dependency_spec_check(
    dep: DepSpecView,
    expected: Option<Seq<char>>,
    es: Seq<Option<CargoPackageView>>,
    regs: Seq<TrustedRegistry>,
    policy: CargoGitPolicy,
    git_sources: Seq<String>,
) -> Result<VerdictView, Seq<char>> {
    match dep.source {
        SourceView::CratesIo => accepted_if_ok(
            spec_registry_source_check(dep, expected, None, crates_io_source(), es, regs),
        ),
        SourceView::Path(path) => Ok(VerdictView::CheckLocalTarget(path)),
        SourceView::RegistryAlias(alias) => match registry_source_for(regs, alias) {
            None => Err(
                spec_cargo_fail(
                    RESOLUTION_UNTRUSTED_REGISTRY_SOURCE@,
                    "'"@ + dep.package_name + "' uses registry alias '"@ + alias
                        + "' which is not trusted by config."@,
                ),
            ),
            Some(source) => accepted_if_ok(
                spec_registry_source_check(dep, expected, Some(alias), source, es, regs),
            ),
        },
        SourceView::RegistryIndex(source) => accepted_if_ok(
            spec_registry_source_check(dep, expected, None, source, es, regs),
        ),
        SourceView::Git { .. } => match spec_git_source_check(dep, expected, dep.source, es, policy, git_sources) {
            Ok(w) => Ok(VerdictView::Accepted(seq![w])),
            Err(e) => Err(e),
        },
        SourceView::Workspace => Err(
            spec_cargo_fail(
                RESOLUTION_LOCAL_DEPENDENCY_SOURCE@,
                "'"@ + dep.package_name
                    + "' uses workspace = true but no in-scope workspace dependency was resolved."@,
            ),
        ),
    }
}

fn accepted(r: Result<(), String>) -> (v: Result<CargoSourceVerdict, String>)
    ensures
        verdict_result_view(v) == accepted_if_ok(unit_result_view(r)),
{
    match r {
        Ok(_) => {
            let v: Vec<Issue> = Vec::new();
            assert(v@.map_values(|i: Issue| i@) =~= Seq::<IssueView>::empty());
            Ok(CargoSourceVerdict::Accepted(v))
        },
        Err(e) => Err(e),
    }
}

/// Checks where a dependency comes from (see `spec_dependency_spec_check`).
pub fn validate_cargo_dependency_spec(
    dep: &CargoDependencySpec,
    expected_exact_version: Option<&str>,
    config: &SloppyJoeConfig,
    lockfile: &CargoLockfile,
) -> (r: Result<CargoSourceVerdict, String>)
    ensures
        verdict_result_view(r) == spec_dependency_spec_check(
            dep@,
            opt_seq(expected_exact_version),
            lock_entries(*lockfile),
            config.trusted_cargo_registries@,
            config.cargo_git_policy,
            config.trusted_cargo_git_sources@,
        ),
{
    match &dep.source {
        CargoSourceSpec::CratesIo => accepted(
            validate_cargo_registry_source(dep, expected_exact_version, None, crates_io_source_id(), lockfile, config),
        ),
        CargoSourceSpec::Path(path) => Ok(CargoSourceVerdict::CheckLocalTarget(path.clone())),
        CargoSourceSpec::RegistryAlias(alias) => match cargo_registry_source_for_alias(alias.as_str(), config) {
            None => {
                let r = cargo_error(
                    RESOLUTION_UNTRUSTED_REGISTRY_SOURCE,
                    &["'", dep.package_name.as_str(), "' uses registry alias '", alias.as_str(), "' which is not trusted by config."],
                );
                proof {
                    reveal_with_fuel(concat_all, 6);
                }
                Err(r)
            },
            Some(source) => accepted(
                validate_cargo_registry_source(
                    dep,
                    expected_exact_version,
                    Some(alias.as_str()),
                    source.as_str(),
                    lockfile,
                    config,
                ),
            ),
        },
        CargoSourceSpec::RegistryIndex(source) => accepted(
            validate_cargo_registry_source(dep, expected_exact_version, None, source.as_str(), lockfile, config),
        ),
        CargoSourceSpec::Git { .. } => match validate_cargo_git_source(
            dep,
            expected_exact_version,
            &dep.source,
            lockfile,
            config,
        ) {
            Ok(w) => {
                let v = vec![w];
                assert(v@.map_values(|i: Issue| i@) =~= seq![v@[0]@]);
                Ok(CargoSourceVerdict::Accepted(v))
            },
            Err(e) => Err(e),
        },
        CargoSourceSpec::Workspace => {
            let r = cargo_error(
                RESOLUTION_LOCAL_DEPENDENCY_SOURCE,
                &["'", dep.package_name.as_str(), "' uses workspace = true but no in-scope workspace dependency was resolved."],
            );
            proof {
                reveal_with_fuel(concat_all, 4);
            }
            Err(r)
        },
    }
}

// ---- local crates ----
/// The `[package]` table of a local crate's manifest: its `name` and
/// `version` strings.
#[derive(Debug)]
pub struct LocalCratePackage {
    pub name: Option<String>,
    pub version: Option<String>,
}

/// What inspecting a path dependency's target found: a target outside the
/// scan root that no trusted local path names (`candidate` is the path
/// inspected); a target that cannot be resolved (with the error); a
/// directory without `Cargo.toml` (`canonical` is the resolved directory); a
/// manifest that does not parse (with its path and the error); or a parsed
/// manifest and its `[package]` table, if it has one.
#[derive(Debug)]
pub enum LocalCrateTarget {
    NotAllowlisted { candidate: String },
    Unreadable { candidate: String, error: String },
    NotACrate { canonical: String },
    Unparsable { manifest_path: String, error: String },
    Crate { canonical: String, package: Option<LocalCratePackage> },
}

pub open spec fn or_missing(o: Option<String>) -> Seq<char> {
    match o {
        Some(s) => s@,
        None => "<missing>"@,
    }
}

pub open spec fn local_fail(message: Seq<char>) -> Seq<char> {
    spec_cargo_fail(RESOLUTION_LOCAL_DEPENDENCY_SOURCE@, message)
}

/// A path dependency's target must be inside the scan root or exactly
/// trusted, resolve to a crate directory whose manifest parses and has a
/// `[package]` of the dependency's name, at the expected version where one
/// is given.
pub open spec fn spec_local_target_check(
    name: Seq<char>,
    target: LocalCrateTarget,
    expected: Option<Seq<char>>,
) -> Result<(), Seq<char>> {
    match target {
        LocalCrateTarget::NotAllowlisted { candidate } => Err(
            local_fail(
                "'"@ + name + "' resolves to '"@ + candidate@
                    + "' which is outside the scan root and not exactly allowlisted."@,
            ),
        ),
        LocalCrateTarget::Unreadable { candidate, error } => Err(
            local_fail(
                "'"@ + name + "' points to '"@ + candidate@ + "' but that target is missing or unreadable: "@
                    + error@ + "."@,
            ),
        ),
        LocalCrateTarget::NotACrate { canonical } => Err(
            local_fail("'"@ + name + "' points to '"@ + canonical@ + "' which is not a valid Cargo crate directory."@),
        ),
        LocalCrateTarget::Unparsable { manifest_path, error } => Err(
            spec_cargo_fail(
                RESOLUTION_PARSE_FAILED@,
                "Failed to parse local Cargo target '"@ + manifest_path@ + "': "@ + error@ + "."@,
            ),
        ),
        LocalCrateTarget::Crate { canonical, package } => match package {
            None => Err(
                local_fail(
                    "'"@ + name + "' points to '"@ + canonical@
                        + "' but that target does not declare a [package] crate."@,
                ),
            ),
            Some(p) => if opt_view(p.name) != Some(name) {
                Err(
                    local_fail(
                        "'"@ + name + "' points to '"@ + canonical@ + "' but that target declares package '"@
                            + or_missing(p.name) + "' instead of '"@ + name + "'."@,
                    ),
                )
            } else if expected matches Some(e) && opt_view(p.version) != Some(e) {
                Err(
                    local_fail(
                        "'"@ + name + "' points to '"@ + canonical@ + "' but that target declares version '"@
                            + or_missing(p.version) + "' instead of '"@ + expected->0 + "'."@,
                    ),
                )
            } else {
                Ok(())
            },
        },
    }
}

fn missing_or<'a>(o: &'a Option<String>) -> (r: &'a str)
    ensures
        r@ == or_missing(*o),
{
    match o {
        Some(s) => s.as_str(),
        None => "<missing>",
    }
}

/// Checks what inspecting a path dependency's target found (see
/// `spec_local_target_check`).
pub fn validate_cargo_local_target(
    package_name: &str,
    target: &LocalCrateTarget,
    expected_exact_version: Option<&str>,
) -> (r: Result<(), String>)
    ensures
        unit_result_view(r) == spec_local_target_check(package_name@, *target, opt_seq(expected_exact_version)),
{
    let local = RESOLUTION_LOCAL_DEPENDENCY_SOURCE;
    match target {
        LocalCrateTarget::NotAllowlisted { candidate } => {
            let r = cargo_error(
                local,
                &["'", package_name, "' resolves to '", candidate.as_str(), "' which is outside the scan root and not exactly allowlisted."],
            );
            proof {
                reveal_with_fuel(concat_all, 6);
            }
            Err(r)
        },
        LocalCrateTarget::Unreadable { candidate, error } => {
            let r = cargo_error(
                local,
                &["'", package_name, "' points to '", candidate.as_str(), "' but that target is missing or unreadable: ", error.as_str(), "."],
            );
            proof {
                reveal_with_fuel(concat_all, 8);
            }
            Err(r)
        },
        LocalCrateTarget::NotACrate { canonical } => {
            let r = cargo_error(
                local,
                &["'", package_name, "' points to '", canonical.as_str(), "' which is not a valid Cargo crate directory."],
            );
            proof {
                reveal_with_fuel(concat_all, 6);
            }
            Err(r)
        },
        LocalCrateTarget::Unparsable { manifest_path, error } => {
            let r = cargo_error(
                RESOLUTION_PARSE_FAILED,
                &["Failed to parse local Cargo target '", manifest_path.as_str(), "': ", error.as_str(), "."],
            );
            proof {
                reveal_with_fuel(concat_all, 6);
            }
            Err(r)
        },
        LocalCrateTarget::Crate { canonical, package } => match package {
            None => {
                let r = cargo_error(
                    local,
                    &["'", package_name, "' points to '", canonical.as_str(), "' but that target does not declare a [package] crate."],
                );
                proof {
                    reveal_with_fuel(concat_all, 6);
                }
                Err(r)
            },
            Some(p) => {
                if !opt_eq(&p.name, package_name) {
                    let r = cargo_error(
                        local,
                        &[
                            "'",
                            package_name,
                            "' points to '",
                            canonical.as_str(),
                            "' but that target declares package '",
                            missing_or(&p.name),
                            "' instead of '",
                            package_name,
                            "'.",
                        ],
                    );
                    proof {
                        reveal_with_fuel(concat_all, 10);
                    }
                    return Err(r);
                }
                if let Some(e) = expected_exact_version {
                    if !opt_eq(&p.version, e) {
                        let r = cargo_error(
                            local,
                            &[
                                "'",
                                package_name,
                                "' points to '",
                                canonical.as_str(),
                                "' but that target declares version '",
                                missing_or(&p.version),
                                "' instead of '",
                                e,
                                "'.",
                            ],
                        );
                        proof {
                            reveal_with_fuel(concat_all, 10);
                        }
                        return Err(r);
                    }
                }
                Ok(())
            },
        },
    }
}

// ---- `.cargo/config.toml` ----
/// A `[source]` definition of `.cargo/config.toml`: a registry at a URL, or
/// a kind of source that is not supported (with what it points at).
#[derive(Debug)]
pub enum CargoConfigSourceDefinition {
    Registry(String),
    Unsupported { kind: String, detail: String },
}

pub enum DefinitionView {
    Registry(Seq<char>),
    Unsupported { kind: Seq<char>, detail: Seq<char> },
}

impl View for CargoConfigSourceDefinition {
    type V = DefinitionView;

    open spec fn view(&self) -> DefinitionView {
        match self {
            CargoConfigSourceDefinition::Registry(u) => DefinitionView::Registry(u@),
            CargoConfigSourceDefinition::Unsupported { kind, detail } => DefinitionView::Unsupported {
                kind: kind@,
                detail: detail@,
            },
        }
    }
}

/// What the Cargo configuration files rewrite: crates that `paths`
/// overrides point at a local directory, sources that `replace-with`
/// redirects, the `[source]` definitions, and the `[patch]` rewrites.
#[derive(Debug)]
pub struct CargoConfigRewrites {
    pub local_paths: StringTable,
    pub source_replace_with: StringTable,
    pub source_definitions: Vec<(String, CargoConfigSourceDefinition)>,
    pub rewrite_targets: Vec<EffectiveCargoRewrite>,
}

impl CargoConfigRewrites {
    /// Each table names a key once.
    pub open spec fn wf(&self) -> bool {
        &&& self.local_paths.wf()
        &&& self.source_replace_with.wf()
        &&& definitions_unique(self.source_definitions@)
    }
}

/// The definition of the source `name`.
pub open spec fn definition_for(defs: Seq<(String, CargoConfigSourceDefinition)>, name: Seq<char>) -> Option<DefinitionView>
    decreases defs.len(),
{
    if defs.len() == 0 {
        None
    } else if defs[0].0@ == name {
        Some(defs[0].1@)
    } else {
        definition_for(defs.drop_first(), name)
    }
}

/// How many of the pairs have a key outside `seen`.
pub open spec fn unseen(es: Seq<(String, String)>, seen: Set<Seq<char>>) -> nat
    decreases es.len(),
{
    if es.len() == 0 {
        0
    } else {
        unseen(es.drop_last(), seen) + if seen.contains(es.last().0@) {
            0nat
        } else {
            1nat
        }
    }
}

/// Seeing one more key does not add unseen pairs, and removes one when a
/// pair has that key.
pub proof fn lemma_unseen_insert(es: Seq<(String, String)>, seen: Set<Seq<char>>, k: Seq<char>)
    ensures
        unseen(es, seen.insert(k)) <= unseen(es, seen),
        (!seen.contains(k) && exists|i: int| 0 <= i < es.len() && es[i].0@ == k) ==> unseen(
            es,
            seen.insert(k),
        ) < unseen(es, seen),
    decreases es.len(),
{
    if es.len() > 0 {
        let t = es.drop_last();
        lemma_unseen_insert(t, seen, k);
        if !seen.contains(k) && exists|i: int| 0 <= i < es.len() && es[i].0@ == k {
            let i = choose|i: int| 0 <= i < es.len() && es[i].0@ == k;
            if i < es.len() - 1 {
                assert(t[i] == es[i]);
            }
        }
    }
}

pub open spec fn cycle_msg(name: Seq<char>) -> Seq<char> {
    spec_cargo_fail(
        RESOLUTION_BLOCKED_PROVENANCE_REWRITE@,
        "Cargo source replacement cycle detected at source '"@ + name + "'."@,
    )
}

pub open spec fn untrusted_definition_msg(name: Seq<char>, source: Seq<char>) -> Seq<char> {
    spec_cargo_fail(
        RESOLUTION_UNTRUSTED_REGISTRY_SOURCE@,
        "Cargo source '"@ + name + "' resolves to registry '"@ + source
            + "' but that alias/source pair is not trusted by config."@,
    )
}

pub open spec fn unsupported_definition_msg(name: Seq<char>, kind: Seq<char>, detail: Seq<char>) -> Seq<char> {
    spec_cargo_fail(
        RESOLUTION_BLOCKED_PROVENANCE_REWRITE@,
        "Cargo source '"@ + name + "' uses unsupported "@ + kind + " source '"@ + detail + "'."@,
    )
}

/// Some trusted registry is named `name`.
pub open spec fn registry_named(regs: Seq<TrustedRegistry>, name: Seq<char>) -> bool {
    exists|i: int| 0 <= i < regs.len() && #[trigger] regs[i].name@ == name
}

/// Where the configuration sends the source `name`, having already passed
/// through the sources in `seen`: passing a source twice is a cycle; a
/// registry definition must be a trusted alias/source pair and becomes that
/// alias; an unsupported definition is refused; a replacement that is
/// itself defined or replaced is followed; one that names a trusted
/// registry becomes that alias; anything else leaves the source as it is.
pub open spec fn spec_source_target(
    rw: CargoConfigRewrites,
    regs: Seq<TrustedRegistry>,
    name: Seq<char>,
    seen: Set<Seq<char>>,
) -> Result<Option<SourceView>, Seq<char>>
    decreases unseen(rw.source_replace_with.entries@, seen),
{
    if seen.contains(name) {
        Err(cycle_msg(name))
    } else {
        match definition_for(rw.source_definitions@, name) {
            Some(DefinitionView::Registry(url)) => if spec_registry_trusted(regs, Some(name), "registry+"@ + url) {
                Ok(Some(SourceView::RegistryAlias(name)))
            } else {
                Err(untrusted_definition_msg(name, "registry+"@ + url))
            },
            Some(DefinitionView::Unsupported { kind, detail }) => Err(unsupported_definition_msg(name, kind, detail)),
            None => {
                let m = rw.source_replace_with@;
                if m.dom().contains(name) {
                    let target = m[name];
                    if definition_for(rw.source_definitions@, target) is Some || m.dom().contains(target) {
                        proof {
                            lemma_amap_dom(rw.source_replace_with.entries@, name);
                            lemma_unseen_insert(rw.source_replace_with.entries@, seen, name);
                        }
                        spec_source_target(rw, regs, target, seen.insert(name))
                    } else if registry_named(regs, target) {
                        Ok(Some(SourceView::RegistryAlias(target)))
                    } else {
                        Ok(None)
                    }
                } else {
                    Ok(None)
                }
            },
        }
    }
}

/// The names in `s`.
pub open spec fn seen_set(s: Seq<String>) -> Set<Seq<char>> {
    Set::new(|x: Seq<char>| exists|i: int| 0 <= i < s.len() && #[trigger] s[i]@ == x)
}

fn seen_contains(seen: &Vec<String>, name: &str) -> (b: bool)
    ensures
        b == seen_set(seen@).contains(name@),
{
    let mut i: usize = 0;
    while i < seen.len()
        invariant
            i <= seen@.len(),
            forall|j: int| 0 <= j < i ==> #[trigger] seen@[j]@ != name@,
        decreases seen.len() - i,
    {
        if str_eq(seen[i].as_str(), name) {
            assert(seen@[i as int]@ == name@);
            return true;
        }
        i = i + 1;
    }
    false
}

fn seen_with(seen: &Vec<String>, name: &str) -> (r: Vec<String>)
    ensures
        seen_set(r@) == seen_set(seen@).insert(name@),
{
    let mut r: Vec<String> = Vec::new();
    let mut i: usize = 0;
    while i < seen.len()
        invariant
            i <= seen@.len(),
            r@.len() == i,
            forall|j: int| 0 <= j < i ==> #[trigger] r@[j]@ == seen@[j]@,
        decreases seen.len() - i,
    {
        r.push(seen[i].clone());
        i = i + 1;
    }
    r.push(string_of_str(name));
    proof {
        assert forall|x: Seq<char>| seen_set(r@).contains(x) == seen_set(seen@).insert(name@).contains(x) by {
            if seen_set(r@).contains(x) {
                let k = choose|k: int| 0 <= k < r@.len() && #[trigger] r@[k]@ == x;
                if k < seen@.len() {
                    assert(seen@[k]@ == x);
                }
            }
            if seen_set(seen@).contains(x) {
                let k = choose|k: int| 0 <= k < seen@.len() && #[trigger] seen@[k]@ == x;
                assert(r@[k]@ == x);
            }
            if x == name@ {
                assert(r@[seen@.len() as int]@ == x);
            }
        }
        assert(seen_set(r@) =~= seen_set(seen@).insert(name@));
    }
    r
}

fn definition_index(defs: &Vec<(String, CargoConfigSourceDefinition)>, name: &str) -> (r: Option<usize>)
    ensures
        match r {
            Some(i) => i < defs@.len() && defs@[i as int].0@ == name@ && definition_for(defs@, name@) == Some(
                defs@[i as int].1@,
            ),
            None => definition_for(defs@, name@) is None,
        },
{
    let mut i: usize = 0;
    assert(defs@.subrange(0, defs@.len() as int) == defs@);
    while i < defs.len()
        invariant
            i <= defs@.len(),
            definition_for(defs@, name@) == definition_for(defs@.subrange(i as int, defs@.len() as int), name@),
        decreases defs.len() - i,
    {
        let ghost rest = defs@.subrange(i as int, defs@.len() as int);
        assert(rest[0] == defs@[i as int]);
        assert(rest.drop_first() == defs@.subrange(i + 1, defs@.len() as int));
        if str_eq(defs[i].0.as_str(), name) {
            return Some(i);
        }
        i = i + 1;
    }
    None
}

fn registry_alias_named(config: &SloppyJoeConfig, name: &str) -> (b: bool)
    ensures
        b == registry_named(config.trusted_cargo_registries@, name@),
{
    let regs = &config.trusted_cargo_registries;
    let mut i: usize = 0;
    while i < regs.len()
        invariant
            i <= regs@.len(),
            regs@ == config.trusted_cargo_registries@,
            forall|j: int| 0 <= j < i ==> #[trigger] regs@[j].name@ != name@,
        decreases regs.len() - i,
    {
        if str_eq(regs[i].name.as_str(), name) {
            assert(regs@[i as int].name@ == name@);
            return true;
        }
        i = i + 1;
    }
    false
}

pub open spec fn source_result_view(r: Result<Option<CargoSourceSpec>, String>) -> Result<Option<SourceView>, Seq<char>> {
    match r {
        Ok(Some(s)) => Ok(Some(s@)),
        Ok(None) => Ok(None),
        Err(e) => Err(e@),
    }
}

/// Where the configuration sends the source `source_name`, having passed
/// through the sources in `seen` (see `spec_source_target`).
pub fn resolve_cargo_config_source_target(
    source_name: &str,
    rewrites: &CargoConfigRewrites,
    config: &SloppyJoeConfig,
    seen: &Vec<String>,
) -> (r: Result<Option<CargoSourceSpec>, String>)
    requires
        rewrites.wf(),
    ensures
        source_result_view(r) == spec_source_target(
            *rewrites,
            config.trusted_cargo_registries@,
            source_name@,
            seen_set(seen@),
        ),
    decreases unseen(rewrites.source_replace_with.entries@, seen_set(seen@)),
{
    if seen_contains(seen, source_name) {
        let r = cargo_error(
            RESOLUTION_BLOCKED_PROVENANCE_REWRITE,
            &["Cargo source replacement cycle detected at source '", source_name, "'."],
        );
        proof {
            reveal_with_fuel(concat_all, 4);
        }
        return Err(r);
    }
    match definition_index(&rewrites.source_definitions, source_name) {
        Some(i) => match &rewrites.source_definitions[i].1 {
            CargoConfigSourceDefinition::Registry(url) => {
                let mut expected = string_of_str("registry+");
                push_str(&mut expected, url.as_str());
                if registry_trusted(config, Some(source_name), expected.as_str()) {
                    Ok(Some(CargoSourceSpec::RegistryAlias(string_of_str(source_name))))
                } else {
                    let r = cargo_error(
                        RESOLUTION_UNTRUSTED_REGISTRY_SOURCE,
                        &[
                            "Cargo source '",
                            source_name,
                            "' resolves to registry '",
                            expected.as_str(),
                            "' but that alias/source pair is not trusted by config.",
                        ],
                    );
                    proof {
                        reveal_with_fuel(concat_all, 6);
                    }
                    Err(r)
                }
            },
            CargoConfigSourceDefinition::Unsupported { kind, detail } => {
                let r = cargo_error(
                    RESOLUTION_BLOCKED_PROVENANCE_REWRITE,
                    &["Cargo source '", source_name, "' uses unsupported ", kind.as_str(), " source '", detail.as_str(), "'."],
                );
                proof {
                    reveal_with_fuel(concat_all, 8);
                }
                Err(r)
            },
        },
        None => {
            let ghost m = rewrites.source_replace_with@;
            match rewrites.source_replace_with.get(source_name) {
                Some(target) => {
                    let followed = definition_index(&rewrites.source_definitions, target.as_str()).is_some()
                        || rewrites.source_replace_with.get(target.as_str()).is_some();
                    if followed {
                        let next = seen_with(seen, source_name);
                        proof {
                            lemma_amap_dom(rewrites.source_replace_with.entries@, source_name@);
                            lemma_unseen_insert(rewrites.source_replace_with.entries@, seen_set(seen@), source_name@);
                        }
                        resolve_cargo_config_source_target(target.as_str(), rewrites, config, &next)
                    } else if registry_alias_named(config, target.as_str()) {
                        Ok(Some(CargoSourceSpec::RegistryAlias(target.clone())))
                    } else {
                        Ok(None)
                    }
                },
                None => Ok(None),
            }
        },
    }
}

/// Where the configuration sends a dependency's source, if it rewrites it
/// (only crates.io and registry aliases can be rewritten).
pub open spec fn spec_apply_source_rewrite(
    dep: DepSpecView,
    rw: CargoConfigRewrites,
    regs: Seq<TrustedRegistry>,
) -> Result<Option<SourceView>, Seq<char>> {
    match spec_config_source_name(dep.source) {
        None => Ok(None),
        Some(name) => spec_source_target(rw, regs, name, Set::empty()),
    }
}

/// Where the configuration sends a dependency's source (see
/// `spec_apply_source_rewrite`).
pub fn apply_cargo_config_source_rewrite(
    dep: &CargoDependencySpec,
    rewrites: &CargoConfigRewrites,
    config: &SloppyJoeConfig,
) -> (r: Result<Option<CargoSourceSpec>, String>)
    requires
        rewrites.wf(),
    ensures
        source_result_view(r) == spec_apply_source_rewrite(dep@, *rewrites, config.trusted_cargo_registries@),
{
    let Some(name) = cargo_config_source_name(&dep.source) else {
        return Ok(None);
    };
    let seen: Vec<String> = Vec::new();
    assert(seen_set(seen@) =~= Set::<Seq<char>>::empty());
    resolve_cargo_config_source_target(name, rewrites, config, &seen)
}

// ---- merging and comparing rewrites ----
/// What `<str as Debug>::fmt` writes for `s`: the text quoted, with quotes,
/// backslashes and non-printable characters escaped.
pub uninterp spec fn str_debug(s: Seq<char>) -> Seq<char>;

/// `format!("{:?}", s)` for a string.
#[verifier::external_body]
fn debug_quoted(s: &str) -> (r: String)
    ensures
        r@ == str_debug(s@),
{
    format!("{:?}", s)
}

/// How a patch scope (or its absence) prints in a conflict message.
pub open spec fn scope_text(scope: Option<ScopeView>) -> Seq<char> {
    match scope {
        None => "None"@,
        Some(ScopeView::CratesIo) => "Some(CratesIo)"@,
        Some(ScopeView::RegistryName(n)) => "Some(RegistryName("@ + str_debug(n) + "))"@,
        Some(ScopeView::SourceUrl(u)) => "Some(SourceUrl("@ + str_debug(u) + "))"@,
    }
}

fn scope_label(scope: &Option<CargoPatchScope>) -> (r: String)
    ensures
        r@ == scope_text(opt_scope_view(*scope)),
{
    match scope {
        None => string_of_str("None"),
        Some(CargoPatchScope::CratesIo) => string_of_str("Some(CratesIo)"),
        Some(CargoPatchScope::RegistryName(n)) => {
            let mut r = string_of_str("Some(RegistryName(");
            push_str(&mut r, debug_quoted(n.as_str()).as_str());
            push_str(&mut r, "))");
            r
        },
        Some(CargoPatchScope::SourceUrl(u)) => {
            let mut r = string_of_str("Some(SourceUrl(");
            push_str(&mut r, debug_quoted(u.as_str()).as_str());
            push_str(&mut r, "))");
            r
        },
    }
}

fn same_opt(a: &Option<String>, b: &Option<String>) -> (r: bool)
    ensures
        r == (opt_view(*a) == opt_view(*b)),
{
    match (a, b) {
        (Some(x), Some(y)) => str_eq(x.as_str(), y.as_str()),
        (None, None) => true,
        _ => false,
    }
}

fn same_scope(a: &Option<CargoPatchScope>, b: &Option<CargoPatchScope>) -> (r: bool)
    ensures
        r == (opt_scope_view(*a) == opt_scope_view(*b)),
{
    match (a, b) {
        (None, None) => true,
        (Some(CargoPatchScope::CratesIo), Some(CargoPatchScope::CratesIo)) => true,
        (Some(CargoPatchScope::RegistryName(x)), Some(CargoPatchScope::RegistryName(y))) => str_eq(x.as_str(), y.as_str()),
        (Some(CargoPatchScope::SourceUrl(x)), Some(CargoPatchScope::SourceUrl(y))) => str_eq(x.as_str(), y.as_str()),
        _ => false,
    }
}

fn same_source(a: &CargoSourceSpec, b: &CargoSourceSpec) -> (r: bool)
    ensures
        r == (a@ == b@),
{
    match (a, b) {
        (CargoSourceSpec::CratesIo, CargoSourceSpec::CratesIo) => true,
        (CargoSourceSpec::RegistryAlias(x), CargoSourceSpec::RegistryAlias(y)) => str_eq(x.as_str(), y.as_str()),
        (CargoSourceSpec::RegistryIndex(x), CargoSourceSpec::RegistryIndex(y)) => str_eq(x.as_str(), y.as_str()),
        (
            CargoSourceSpec::Git { url: u1, rev: r1, branch: b1, tag: t1 },
            CargoSourceSpec::Git { url: u2, rev: r2, branch: b2, tag: t2 },
        ) => str_eq(u1.as_str(), u2.as_str()) && same_opt(r1, r2) && same_opt(b1, b2) && same_opt(t1, t2),
        (CargoSourceSpec::Path(x), CargoSourceSpec::Path(y)) => str_eq(x.as_str(), y.as_str()),
        (CargoSourceSpec::Workspace, CargoSourceSpec::Workspace) => true,
        _ => false,
    }
}

fn same_strings(a: &Vec<String>, b: &Vec<String>) -> (r: bool)
    ensures
        r == (a@.map_values(|s: String| s@) == b@.map_values(|s: String| s@)),
{
    let ghost va = a@.map_values(|s: String| s@);
    let ghost vb = b@.map_values(|s: String| s@);
    if a.len() != b.len() {
        assert(va.len() != vb.len());
        return false;
    }
    let mut i: usize = 0;
    while i < a.len()
        invariant
            i <= a@.len(),
            a@.len() == b@.len(),
            va == a@.map_values(|s: String| s@),
            vb == b@.map_values(|s: String| s@),
            forall|j: int| 0 <= j < i ==> #[trigger] va[j] == vb[j],
        decreases a.len() - i,
    {
        if !str_eq(a[i].as_str(), b[i].as_str()) {
            assert(va[i as int] != vb[i as int]);
            return false;
        }
        i = i + 1;
    }
    assert(va =~= vb);
    true
}

fn same_dep_spec(a: &CargoDependencySpec, b: &CargoDependencySpec) -> (r: bool)
    ensures
        r == (a@ == b@),
{
    str_eq(a.package_name.as_str(), b.package_name.as_str()) && same_opt(&a.version, &b.version) && same_source(
        &a.source,
        &b.source,
    ) && same_strings(&a.workspace_member_invalid_keys, &b.workspace_member_invalid_keys)
}

/// Two rewrites apply to the same package, scope, source and version.
pub open spec fn same_rewrite_key(a: RewriteView, b: RewriteView) -> bool {
    &&& a.package_name == b.package_name
    &&& a.patch_scope == b.patch_scope
    &&& a.replace_source == b.replace_source
    &&& a.replace_version == b.replace_version
}

fn same_key_exec(a: &EffectiveCargoRewrite, b: &EffectiveCargoRewrite) -> (r: bool)
    ensures
        r == same_rewrite_key(a@, b@),
{
    str_eq(a.package_name.as_str(), b.package_name.as_str()) && same_scope(&a.patch_scope, &b.patch_scope)
        && same_opt(&a.replace_source, &b.replace_source) && same_opt(&a.replace_version, &b.replace_version)
}

fn same_rewrite(a: &EffectiveCargoRewrite, b: &EffectiveCargoRewrite) -> (r: bool)
    ensures
        r == (a@ == b@),
{
    same_key_exec(a, b) && same_dep_spec(&a.spec, &b.spec) && str_eq(a.base_dir.as_str(), b.base_dir.as_str())
}

pub open spec fn rewrite_views(rs: Seq<EffectiveCargoRewrite>) -> Seq<RewriteView> {
    rs.map_values(|r: EffectiveCargoRewrite| r@)
}

/// The first rewrite with the candidate's key.
pub open spec fn first_same_key(rs: Seq<RewriteView>, c: RewriteView) -> Option<RewriteView>
    decreases rs.len(),
{
    if rs.len() == 0 {
        None
    } else if same_rewrite_key(rs[0], c) {
        Some(rs[0])
    } else {
        first_same_key(rs.drop_first(), c)
    }
}

pub open spec fn conflicting_rewrite_msg(c: RewriteView) -> Seq<char> {
    spec_cargo_fail(
        RESOLUTION_BLOCKED_PROVENANCE_REWRITE@,
        "Conflicting Cargo rewrite for package '"@ + c.package_name + "' and scope '"@ + scope_text(
            c.patch_scope,
        )
            + "'. sloppy-joe refuses to guess rewrite precedence across multiple provenance sources."@,
    )
}

/// Adding a rewrite: one identical to an earlier rewrite with the same key
/// is dropped, one that differs from it is a conflict, and any other is
/// appended.
pub open spec fn push_step(acc: Seq<RewriteView>, c: RewriteView) -> Result<Seq<RewriteView>, Seq<char>> {
    match first_same_key(acc, c) {
        None => Ok(acc.push(c)),
        Some(e) => if e == c {
            Ok(acc)
        } else {
            Err(conflicting_rewrite_msg(c))
        },
    }
}

/// Adds a rewrite (see `push_step`).
pub fn push_effective_cargo_rewrite(rewrites: &mut Vec<EffectiveCargoRewrite>, candidate: EffectiveCargoRewrite) -> (r: Result<(), String>)
    ensures
        match push_step(rewrite_views(old(rewrites)@), candidate@) {
            Ok(v) => r is Ok && rewrite_views(final(rewrites)@) == v,
            Err(e) => unit_result_view(r) == Err::<(), Seq<char>>(e),
        },
{
    let ghost vs = rewrite_views(rewrites@);
    let mut i: usize = 0;
    assert(vs.subrange(0, vs.len() as int) == vs);
    while i < rewrites.len()
        invariant
            i <= rewrites@.len(),
            vs == rewrite_views(rewrites@),
            first_same_key(vs, candidate@) == first_same_key(vs.subrange(i as int, vs.len() as int), candidate@),
        decreases rewrites.len() - i,
    {
        let ghost rest = vs.subrange(i as int, vs.len() as int);
        assert(rest[0] == rewrites@[i as int]@);
        assert(rest.drop_first() == vs.subrange(i + 1, vs.len() as int));
        if same_key_exec(&rewrites[i], &candidate) {
            if same_rewrite(&rewrites[i], &candidate) {
                return Ok(());
            }
            let mut message = string_of_str("Conflicting Cargo rewrite for package '");
            push_str(&mut message, candidate.package_name.as_str());
            push_str(&mut message, "' and scope '");
            push_str(&mut message, scope_label(&candidate.patch_scope).as_str());
            push_str(
                &mut message,
                "'. sloppy-joe refuses to guess rewrite precedence across multiple provenance sources.",
            );
            return Err(cargo_fail(RESOLUTION_BLOCKED_PROVENANCE_REWRITE, message.as_str()));
        }
        i = i + 1;
    }
    let ghost c = candidate@;
    rewrites.push(candidate);
    assert(rewrite_views(rewrites@) =~= vs.push(c));
    Ok(())
}

// ---- combining configuration files ----
/// With distinct keys, the definition of a key is that of its entry.
pub proof fn lemma_definition_at(defs: Seq<(String, CargoConfigSourceDefinition)>, i: int)
    requires
        0 <= i < defs.len(),
        forall|a: int, b: int|
            0 <= a < defs.len() && 0 <= b < defs.len() && a != b ==> #[trigger] defs[a].0@ != #[trigger] defs[b].0@,
    ensures
        definition_for(defs, defs[i].0@) == Some(defs[i].1@),
    decreases i,
{
    if i > 0 {
        let t = defs.drop_first();
        assert(defs[0].0@ != defs[i].0@);
        assert(t[i - 1] == defs[i]);
        assert forall|a: int, b: int|
            0 <= a < t.len() && 0 <= b < t.len() && a != b implies #[trigger] t[a].0@ != #[trigger] t[b].0@ by {
            assert(t[a] == defs[a + 1] && t[b] == defs[b + 1]);
        }
        lemma_definition_at(t, i - 1);
    }
}

/// A key that no entry has has no definition.
pub proof fn lemma_definition_absent(defs: Seq<(String, CargoConfigSourceDefinition)>, name: Seq<char>)
    requires
        forall|i: int| 0 <= i < defs.len() ==> #[trigger] defs[i].0@ != name,
    ensures
        definition_for(defs, name) is None,
    decreases defs.len(),
{
    if defs.len() > 0 {
        let t = defs.drop_first();
        assert forall|i: int| 0 <= i < t.len() implies #[trigger] t[i].0@ != name by {
            assert(t[i] == defs[i + 1]);
        }
        lemma_definition_absent(t, name);
    }
}

/// A definition holds a key only where some entry has it.
pub proof fn lemma_definition_some(defs: Seq<(String, CargoConfigSourceDefinition)>, name: Seq<char>)
    requires
        definition_for(defs, name) is Some,
    ensures
        exists|i: int| 0 <= i < defs.len() && defs[i].0@ == name && definition_for(defs, name) == Some(defs[i].1@),
    decreases defs.len(),
{
    if defs[0].0@ != name {
        let t = defs.drop_first();
        lemma_definition_some(t, name);
        let i = choose|i: int| 0 <= i < t.len() && t[i].0@ == name && definition_for(t, name) == Some(t[i].1@);
        assert(defs[i + 1] == t[i]);
    }
}

fn copy_definition(d: &CargoConfigSourceDefinition) -> (r: CargoConfigSourceDefinition)
    ensures
        r@ == d@,
{
    match d {
        CargoConfigSourceDefinition::Registry(u) => CargoConfigSourceDefinition::Registry(u.clone()),
        CargoConfigSourceDefinition::Unsupported { kind, detail } => CargoConfigSourceDefinition::Unsupported {
            kind: kind.clone(),
            detail: detail.clone(),
        },
    }
}

fn same_definition(a: &CargoConfigSourceDefinition, b: &CargoConfigSourceDefinition) -> (r: bool)
    ensures
        r == (a@ == b@),
{
    match (a, b) {
        (CargoConfigSourceDefinition::Registry(x), CargoConfigSourceDefinition::Registry(y)) => str_eq(x.as_str(), y.as_str()),
        (
            CargoConfigSourceDefinition::Unsupported { kind: k1, detail: d1 },
            CargoConfigSourceDefinition::Unsupported { kind: k2, detail: d2 },
        ) => str_eq(k1.as_str(), k2.as_str()) && str_eq(d1.as_str(), d2.as_str()),
        _ => false,
    }
}

pub open spec fn definitions_unique(defs: Seq<(String, CargoConfigSourceDefinition)>) -> bool {
    forall|i: int, j: int|
        0 <= i < defs.len() && 0 <= j < defs.len() && i != j ==> #[trigger] defs[i].0@ != #[trigger] defs[j].0@
}

/// Stores a definition, replacing the one of the same source.
fn insert_definition(defs: &mut Vec<(String, CargoConfigSourceDefinition)>, name: String, def: CargoConfigSourceDefinition)
    requires
        definitions_unique(old(defs)@),
    ensures
        definitions_unique(final(defs)@),
        forall|n: Seq<char>|
            #[trigger] definition_for(final(defs)@, n) == if n == name@ {
                Some(def@)
            } else {
                definition_for(old(defs)@, n)
            },
{
    let ghost old_defs = defs@;
    let ghost nv = name@;
    let ghost dv = def@;
    match definition_index(defs, name.as_str()) {
        Some(i) => {
            proof {
                lemma_definition_some(old_defs, nv);
            }
            let ghost k = choose|k: int| 0 <= k < old_defs.len() && old_defs[k].0@ == nv && definition_for(old_defs, nv) == Some(old_defs[k].1@);
            defs.set(i, (name, def));
            proof {
                let nd = defs@;
                if k != i {
                    lemma_definition_at(old_defs, k);
                    lemma_definition_at(old_defs, i as int);
                }
                assert(old_defs[i as int].0@ == nv);
                assert forall|a: int, b: int| 0 <= a < nd.len() && 0 <= b < nd.len() && a != b implies #[trigger] nd[a].0@ != #[trigger] nd[b].0@ by {
                    assert(nd[a].0@ == old_defs[a].0@);
                    assert(nd[b].0@ == old_defs[b].0@);
                }
                assert forall|n: Seq<char>| #[trigger] definition_for(nd, n) == if n == nv { Some(dv) } else { definition_for(old_defs, n) } by {
                    if n == nv {
                        lemma_definition_at(nd, i as int);
                    } else if exists|j: int| 0 <= j < old_defs.len() && old_defs[j].0@ == n {
                        let j = choose|j: int| 0 <= j < old_defs.len() && old_defs[j].0@ == n;
                        lemma_definition_at(old_defs, j);
                        assert(nd[j] == old_defs[j]);
                        lemma_definition_at(nd, j);
                    } else {
                        lemma_definition_absent(old_defs, n);
                        assert forall|j: int| 0 <= j < nd.len() implies #[trigger] nd[j].0@ != n by {
                            assert(nd[j].0@ == old_defs[j].0@);
                        }
                        lemma_definition_absent(nd, n);
                    }
                }
            }
        },
        None => {
            defs.push((name, def));
            proof {
                let nd = defs@;
                assert forall|j: int| 0 <= j < old_defs.len() implies #[trigger] old_defs[j].0@ != nv by {
                    if old_defs[j].0@ == nv {
                        lemma_definition_at(old_defs, j);
                    }
                }
                assert forall|a: int, b: int| 0 <= a < nd.len() && 0 <= b < nd.len() && a != b implies #[trigger] nd[a].0@ != #[trigger] nd[b].0@ by {
                    if a < old_defs.len() {
                        assert(nd[a] == old_defs[a]);
                    }
                    if b < old_defs.len() {
                        assert(nd[b] == old_defs[b]);
                    }
                }
                assert forall|n: Seq<char>| #[trigger] definition_for(nd, n) == if n == nv { Some(dv) } else { definition_for(old_defs, n) } by {
                    if n == nv {
                        lemma_definition_at(nd, old_defs.len() as int);
                    } else if exists|j: int| 0 <= j < old_defs.len() && old_defs[j].0@ == n {
                        let j = choose|j: int| 0 <= j < old_defs.len() && old_defs[j].0@ == n;
                        lemma_definition_at(old_defs, j);
                        assert(nd[j] == old_defs[j]);
                        lemma_definition_at(nd, j);
                    } else {
                        lemma_definition_absent(old_defs, n);
                        assert forall|j: int| 0 <= j < nd.len() implies #[trigger] nd[j].0@ != n by {
                            if j < old_defs.len() {
                                assert(nd[j] == old_defs[j]);
                            }
                        }
                        lemma_definition_absent(nd, n);
                    }
                }
            }
        },
    }
}

fn copy_source(s: &CargoSourceSpec) -> (r: CargoSourceSpec)
    ensures
        r@ == s@,
{
    match s {
        CargoSourceSpec::CratesIo => CargoSourceSpec::CratesIo,
        CargoSourceSpec::RegistryAlias(a) => CargoSourceSpec::RegistryAlias(a.clone()),
        CargoSourceSpec::RegistryIndex(x) => CargoSourceSpec::RegistryIndex(x.clone()),
        CargoSourceSpec::Git { url, rev, branch, tag } => CargoSourceSpec::Git {
            url: url.clone(),
            rev: clone_opt_string(rev),
            branch: clone_opt_string(branch),
            tag: clone_opt_string(tag),
        },
        CargoSourceSpec::Path(p) => CargoSourceSpec::Path(p.clone()),
        CargoSourceSpec::Workspace => CargoSourceSpec::Workspace,
    }
}

fn copy_scope(s: &Option<CargoPatchScope>) -> (r: Option<CargoPatchScope>)
    ensures
        opt_scope_view(r) == opt_scope_view(*s),
{
    match s {
        None => None,
        Some(CargoPatchScope::CratesIo) => Some(CargoPatchScope::CratesIo),
        Some(CargoPatchScope::RegistryName(n)) => Some(CargoPatchScope::RegistryName(n.clone())),
        Some(CargoPatchScope::SourceUrl(u)) => Some(CargoPatchScope::SourceUrl(u.clone())),
    }
}

fn copy_strings(v: &Vec<String>) -> (r: Vec<String>)
    ensures
        r@.map_values(|s: String| s@) == v@.map_values(|s: String| s@),
{
    let mut r: Vec<String> = Vec::new();
    let mut i: usize = 0;
    while i < v.len()
        invariant
            i <= v@.len(),
            r@.len() == i,
            forall|j: int| 0 <= j < i ==> #[trigger] r@[j]@ == v@[j]@,
        decreases v.len() - i,
    {
        r.push(v[i].clone());
        i = i + 1;
    }
    assert(r@.map_values(|s: String| s@) =~= v@.map_values(|s: String| s@));
    r
}

/// A copy of a dependency.
pub fn copy_dep_spec(d: &CargoDependencySpec) -> (r: CargoDependencySpec)
    ensures
        r@ == d@,
{
    CargoDependencySpec {
        package_name: d.package_name.clone(),
        version: clone_opt_string(&d.version),
        source: copy_source(&d.source),
        workspace_member_invalid_keys: copy_strings(&d.workspace_member_invalid_keys),
    }
}

/// A copy of a rewrite.
pub fn copy_rewrite(r: &EffectiveCargoRewrite) -> (c: EffectiveCargoRewrite)
    ensures
        c@ == r@,
{
    EffectiveCargoRewrite {
        package_name: r.package_name.clone(),
        patch_scope: copy_scope(&r.patch_scope),
        replace_source: clone_opt_string(&r.replace_source),
        replace_version: clone_opt_string(&r.replace_version),
        spec: copy_dep_spec(&r.spec),
        base_dir: r.base_dir.clone(),
    }
}

fn merge_table(into: &mut StringTable, from: &StringTable)
    requires
        old(into).wf(),
    ensures
        final(into).wf(),
        final(into)@ == old(into)@.union_prefer_right(from@),
{
    let ghost start = into@;
    let es = &from.entries;
    let mut i: usize = 0;
    assert(amap(es@.subrange(0, 0)) =~= Map::<Seq<char>, Seq<char>>::empty());
    assert(start.union_prefer_right(Map::<Seq<char>, Seq<char>>::empty()) =~= start);
    while i < es.len()
        invariant
            i <= es@.len(),
            es@ == from.entries@,
            into.wf(),
            into@ == start.union_prefer_right(amap(es@.subrange(0, i as int))),
        decreases es.len() - i,
    {
        let ghost before = amap(es@.subrange(0, i as int));
        assert(es@.subrange(0, i + 1).drop_last() == es@.subrange(0, i as int));
        into.insert(es[i].0.clone(), es[i].1.clone());
        proof {
            let k = es@[i as int].0@;
            let v = es@[i as int].1@;
            assert(amap(es@.subrange(0, i + 1)) == before.insert(k, v));
            assert(start.union_prefer_right(before).insert(k, v) =~= start.union_prefer_right(before.insert(k, v)));
        }
        i = i + 1;
    }
    assert(es@.subrange(0, es@.len() as int) == es@);
}

/// Adds the rewrites of `from` to `into`: `from`'s local paths,
/// replacements and definitions win over `into`'s, and its `[patch]`
/// rewrites follow `into`'s.
pub fn merge_cargo_config_rewrites(into: &mut CargoConfigRewrites, from: &CargoConfigRewrites)
    requires
        old(into).wf(),
        from.wf(),
    ensures
        final(into).wf(),
        final(into).local_paths@ == old(into).local_paths@.union_prefer_right(from.local_paths@),
        final(into).source_replace_with@ == old(into).source_replace_with@.union_prefer_right(
            from.source_replace_with@,
        ),
        forall|n: Seq<char>|
            #[trigger] definition_for(final(into).source_definitions@, n) == match definition_for(
                from.source_definitions@,
                n,
            ) {
                Some(d) => Some(d),
                None => definition_for(old(into).source_definitions@, n),
            },
        rewrite_views(final(into).rewrite_targets@) == rewrite_views(old(into).rewrite_targets@) + rewrite_views(
            from.rewrite_targets@,
        ),
{
    merge_table(&mut into.local_paths, &from.local_paths);
    merge_table(&mut into.source_replace_with, &from.source_replace_with);
    let ghost lp = into.local_paths@;
    let ghost rp = into.source_replace_with@;
    let ghost rt0 = into.rewrite_targets@;
    assert(rt0 == old(into).rewrite_targets@);
    let ghost start = into.source_definitions@;
    let ds = &from.source_definitions;
    let mut i: usize = 0;
    while i < ds.len()
        invariant
            i <= ds@.len(),
            ds@ == from.source_definitions@,
            definitions_unique(ds@),
            definitions_unique(into.source_definitions@),
            into.local_paths.wf(),
            into.source_replace_with.wf(),
            into.local_paths@ == lp,
            into.source_replace_with@ == rp,
            into.rewrite_targets@ == rt0,
            forall|n: Seq<char>|
                #[trigger] definition_for(into.source_definitions@, n) == match definition_for(
                    ds@.subrange(0, i as int),
                    n,
                ) {
                    Some(d) => Some(d),
                    None => definition_for(start, n),
                },
        decreases ds.len() - i,
    {
        let ghost prev = into.source_definitions@;
        let ghost pre = ds@.subrange(0, i as int);
        let ghost next = ds@.subrange(0, i + 1);
        let ghost key = ds@[i as int].0@;
        insert_definition(&mut into.source_definitions, ds[i].0.clone(), copy_definition(&ds[i].1));
        proof {
            assert(next == pre.push(ds@[i as int]));
            assert forall|j: int| 0 <= j < pre.len() implies #[trigger] pre[j].0@ != key by {
                assert(pre[j] == ds@[j]);
            }
            lemma_definition_absent(pre, key);
            assert forall|n: Seq<char>| #[trigger] definition_for(next, n) == if n == key {
                Some(ds@[i as int].1@)
            } else {
                definition_for(pre, n)
            } by {
                lemma_definition_push(pre, ds@[i as int], n);
            }
        }
        i = i + 1;
    }
    assert(ds@.subrange(0, ds@.len() as int) == ds@);
    let mut k: usize = 0;
    let ghost rstart = rewrite_views(into.rewrite_targets@);
    let ghost dfinal = into.source_definitions@;
    while k < from.rewrite_targets.len()
        invariant
            k <= from.rewrite_targets@.len(),
            into.local_paths.wf(),
            into.source_replace_with.wf(),
            into.local_paths@ == lp,
            into.source_replace_with@ == rp,
            into.source_definitions@ == dfinal,
            rewrite_views(into.rewrite_targets@) == rstart + rewrite_views(from.rewrite_targets@).subrange(
                0,
                k as int,
            ),
        decreases from.rewrite_targets.len() - k,
    {
        let c = copy_rewrite(&from.rewrite_targets[k]);
        let ghost before = rewrite_views(into.rewrite_targets@);
        into.rewrite_targets.push(c);
        assert(rewrite_views(into.rewrite_targets@) =~= before.push(from.rewrite_targets@[k as int]@));
        assert(rewrite_views(from.rewrite_targets@).subrange(0, k + 1) =~= rewrite_views(
            from.rewrite_targets@,
        ).subrange(0, k as int).push(from.rewrite_targets@[k as int]@));
        k = k + 1;
    }
    assert(rewrite_views(from.rewrite_targets@).subrange(0, from.rewrite_targets@.len() as int) =~= rewrite_views(
        from.rewrite_targets@,
    ));
}

/// Looking a key up after appending an entry: what the earlier entries give,
/// else the new entry if it has the key.
pub proof fn lemma_definition_push(
    defs: Seq<(String, CargoConfigSourceDefinition)>,
    e: (String, CargoConfigSourceDefinition),
    n: Seq<char>,
)
    ensures
        definition_for(defs.push(e), n) == match definition_for(defs, n) {
            Some(d) => Some(d),
            None => if e.0@ == n {
                Some(e.1@)
            } else {
                None
            },
        },
    decreases defs.len(),
{
    let p = defs.push(e);
    if defs.len() > 0 {
        assert(p[0] == defs[0]);
        assert(p.drop_first() == defs.drop_first().push(e));
        lemma_definition_push(defs.drop_first(), e, n);
        if defs[0].0@ != n {
            assert(definition_for(p, n) == definition_for(p.drop_first(), n));
            assert(definition_for(defs, n) == definition_for(defs.drop_first(), n));
        }
    } else {
        assert(p[0] == e);
        assert(p.drop_first() =~= Seq::<(String, CargoConfigSourceDefinition)>::empty());
    }
}

/// The key of the first pair of `over` that `base` holds with another
/// value.
pub open spec fn first_table_conflict(over: Seq<(String, String)>, base: Map<Seq<char>, Seq<char>>) -> Option<Seq<char>>
    decreases over.len(),
{
    if over.len() == 0 {
        None
    } else if base.dom().contains(over[0].0@) && base[over[0].0@] != over[0].1@ {
        Some(over[0].0@)
    } else {
        first_table_conflict(over.drop_first(), base)
    }
}

/// The source of the first definition of `over` that `base` defines
/// otherwise.
pub open spec fn first_definition_conflict(
    over: Seq<(String, CargoConfigSourceDefinition)>,
    base: Seq<(String, CargoConfigSourceDefinition)>,
) -> Option<Seq<char>>
    decreases over.len(),
{
    if over.len() == 0 {
        None
    } else if definition_for(base, over[0].0@) matches Some(d) && d != over[0].1@ {
        Some(over[0].0@)
    } else {
        first_definition_conflict(over.drop_first(), base)
    }
}

pub open spec fn overlay_conflict_msg(origin: Seq<char>, what: Seq<char>, key: Seq<char>) -> Seq<char> {
    spec_cargo_fail(
        RESOLUTION_BLOCKED_PROVENANCE_REWRITE@,
        "Host-local Cargo config '"@ + origin + "' conflicts with repo-visible "@ + what + " '"@ + key
            + "'. sloppy-joe only allows additive host-local Cargo relaxations."@,
    )
}

/// A host-local configuration may only add to the repository's: it may not
/// point a crate at another local path, replace a source otherwise, or
/// define a source otherwise. The error names the first conflict, taking
/// local paths, then replacements, then definitions, each in the overlay's
/// order (the configuration's maps have no order of their own).
pub open spec fn spec_additive_check(base: CargoConfigRewrites, overlay: CargoConfigRewrites, origin: Seq<char>) -> Result<(), Seq<char>> {
    match first_table_conflict(overlay.local_paths.entries@, base.local_paths@) {
        Some(k) => Err(overlay_conflict_msg(origin, "local path trust for crate"@, k)),
        None => match first_table_conflict(overlay.source_replace_with.entries@, base.source_replace_with@) {
            Some(k) => Err(overlay_conflict_msg(origin, "source replacement for"@, k)),
            None => match first_definition_conflict(overlay.source_definitions@, base.source_definitions@) {
                Some(k) => Err(overlay_conflict_msg(origin, "source definition for"@, k)),
                None => Ok(()),
            },
        },
    }
}

fn table_conflict<'a>(over: &'a StringTable, base: &StringTable) -> (r: Option<&'a String>)
    requires
        base.wf(),
    ensures
        match r {
            Some(k) => first_table_conflict(over.entries@, base@) == Some(k@),
            None => first_table_conflict(over.entries@, base@) is None,
        },
{
    let es = &over.entries;
    let mut i: usize = 0;
    assert(es@.subrange(0, es@.len() as int) == es@);
    while i < es.len()
        invariant
            i <= es@.len(),
            es@ == over.entries@,
            base.wf(),
            first_table_conflict(es@, base@) == first_table_conflict(es@.subrange(i as int, es@.len() as int), base@),
        decreases es.len() - i,
    {
        let ghost rest = es@.subrange(i as int, es@.len() as int);
        assert(rest[0] == es@[i as int]);
        assert(rest.drop_first() == es@.subrange(i + 1, es@.len() as int));
        match base.get(es[i].0.as_str()) {
            Some(existing) => {
                if !str_eq(existing.as_str(), es[i].1.as_str()) {
                    return Some(&es[i].0);
                }
            },
            None => {},
        }
        i = i + 1;
    }
    None
}

fn definition_conflict<'a>(
    over: &'a Vec<(String, CargoConfigSourceDefinition)>,
    base: &Vec<(String, CargoConfigSourceDefinition)>,
) -> (r: Option<&'a String>)
    ensures
        match r {
            Some(k) => first_definition_conflict(over@, base@) == Some(k@),
            None => first_definition_conflict(over@, base@) is None,
        },
{
    let mut i: usize = 0;
    assert(over@.subrange(0, over@.len() as int) == over@);
    while i < over.len()
        invariant
            i <= over@.len(),
            first_definition_conflict(over@, base@) == first_definition_conflict(
                over@.subrange(i as int, over@.len() as int),
                base@,
            ),
        decreases over.len() - i,
    {
        let ghost rest = over@.subrange(i as int, over@.len() as int);
        assert(rest[0] == over@[i as int]);
        assert(rest.drop_first() == over@.subrange(i + 1, over@.len() as int));
        match definition_index(base, over[i].0.as_str()) {
            Some(j) => {
                if !same_definition(&base[j].1, &over[i].1) {
                    return Some(&over[i].0);
                }
            },
            None => {},
        }
        i = i + 1;
    }
    None
}

/// Checks that a host-local configuration only adds to the repository's
/// (see `spec_additive_check`).
pub fn ensure_additive_cargo_config_rewrites(
    base: &CargoConfigRewrites,
    overlay: &CargoConfigRewrites,
    origin: &str,
) -> (r: Result<(), String>)
    requires
        base.wf(),
    ensures
        unit_result_view(r) == spec_additive_check(*base, *overlay, origin@),
{
    if let Some(k) = table_conflict(&overlay.local_paths, &base.local_paths) {
        let r = cargo_error(
            RESOLUTION_BLOCKED_PROVENANCE_REWRITE,
            &["Host-local Cargo config '", origin, "' conflicts with repo-visible ", "local path trust for crate", " '", k.as_str(), "'. sloppy-joe only allows additive host-local Cargo relaxations."],
        );
        proof {
            reveal_with_fuel(concat_all, 8);
        }
        return Err(r);
    }
    if let Some(k) = table_conflict(&overlay.source_replace_with, &base.source_replace_with) {
        let r = cargo_error(
            RESOLUTION_BLOCKED_PROVENANCE_REWRITE,
            &["Host-local Cargo config '", origin, "' conflicts with repo-visible ", "source replacement for", " '", k.as_str(), "'. sloppy-joe only allows additive host-local Cargo relaxations."],
        );
        proof {
            reveal_with_fuel(concat_all, 8);
        }
        return Err(r);
    }
    if let Some(k) = definition_conflict(&overlay.source_definitions, &base.source_definitions) {
        let r = cargo_error(
            RESOLUTION_BLOCKED_PROVENANCE_REWRITE,
            &["Host-local Cargo config '", origin, "' conflicts with repo-visible ", "source definition for", " '", k.as_str(), "'. sloppy-joe only allows additive host-local Cargo relaxations."],
        );
        proof {
            reveal_with_fuel(concat_all, 8);
        }
        return Err(r);
    }
    Ok(())
}

// ---- manifests ----
/// A `[patch]` or `[replace]` entry of a `Cargo.toml`: the package, the
/// patch's scope, the `[replace]` source and version, and the dependency
/// that takes its place.
#[derive(Debug)]
pub struct CargoRewriteDecl {
    pub package_name: String,
    pub patch_scope: Option<CargoPatchScope>,
    pub replace_source: Option<String>,
    pub replace_version: Option<String>,
    pub dependency: CargoDependencySpec,
}

/// What the source policy reads of a `Cargo.toml`: its path and directory,
/// its dependencies, its `[patch]` and `[replace]` entries, and its
/// `[workspace.dependencies]` by name.
#[derive(Debug)]
pub struct CargoManifest {
    pub manifest_path: String,
    pub manifest_dir: String,
    pub dependencies: Vec<CargoDependencySpec>,
    pub patches: Vec<CargoRewriteDecl>,
    pub replaces: Vec<CargoRewriteDecl>,
    pub workspace_dependencies: Vec<(String, CargoDependencySpec)>,
}

pub open spec fn decl_view(d: CargoRewriteDecl, base_dir: Seq<char>) -> RewriteView {
    RewriteView {
        package_name: d.package_name@,
        patch_scope: opt_scope_view(d.patch_scope),
        replace_source: opt_view(d.replace_source),
        replace_version: opt_view(d.replace_version),
        spec: d.dependency@,
        base_dir,
    }
}

/// The rewrites that a manifest declares, `[patch]` before `[replace]`,
/// with paths relative to `base_dir`.
pub open spec fn manifest_rewrite_views(m: CargoManifest, base_dir: Seq<char>) -> Seq<RewriteView> {
    (m.patches@ + m.replaces@).map_values(|d: CargoRewriteDecl| decl_view(d, base_dir))
}

fn rewrite_of(d: &CargoRewriteDecl, base_dir: &str) -> (r: EffectiveCargoRewrite)
    ensures
        r@ == decl_view(*d, base_dir@),
{
    EffectiveCargoRewrite {
        package_name: d.package_name.clone(),
        patch_scope: copy_scope(&d.patch_scope),
        replace_source: clone_opt_string(&d.replace_source),
        replace_version: clone_opt_string(&d.replace_version),
        spec: copy_dep_spec(&d.dependency),
        base_dir: string_of_str(base_dir),
    }
}

/// The rewrites that a manifest declares (see `manifest_rewrite_views`).
pub fn cargo_manifest_rewrites(manifest: &CargoManifest, base_dir: &str) -> (r: Vec<EffectiveCargoRewrite>)
    ensures
        rewrite_views(r@) == manifest_rewrite_views(*manifest, base_dir@),
{
    let ghost all = manifest.patches@ + manifest.replaces@;
    let mut out: Vec<EffectiveCargoRewrite> = Vec::new();
    let mut i: usize = 0;
    while i < manifest.patches.len()
        invariant
            i <= manifest.patches@.len(),
            rewrite_views(out@) == manifest.patches@.subrange(0, i as int).map_values(
                |d: CargoRewriteDecl| decl_view(d, base_dir@),
            ),
        decreases manifest.patches.len() - i,
    {
        let ghost before = rewrite_views(out@);
        out.push(rewrite_of(&manifest.patches[i], base_dir));
        assert(rewrite_views(out@) =~= before.push(decl_view(manifest.patches@[i as int], base_dir@)));
        assert(manifest.patches@.subrange(0, i + 1).map_values(|d: CargoRewriteDecl| decl_view(d, base_dir@))
            =~= manifest.patches@.subrange(0, i as int).map_values(|d: CargoRewriteDecl| decl_view(d, base_dir@)).push(
            decl_view(manifest.patches@[i as int], base_dir@),
        ));
        i = i + 1;
    }
    let np = manifest.patches.len();
    let mut j: usize = 0;
    while j < manifest.replaces.len()
        invariant
            j <= manifest.replaces@.len(),
            np == manifest.patches@.len(),
            all == manifest.patches@ + manifest.replaces@,
            rewrite_views(out@) == all.subrange(0, np + j).map_values(|d: CargoRewriteDecl| decl_view(d, base_dir@)),
        decreases manifest.replaces.len() - j,
    {
        let ghost before = rewrite_views(out@);
        out.push(rewrite_of(&manifest.replaces[j], base_dir));
        assert(all[np + j] == manifest.replaces@[j as int]);
        assert(rewrite_views(out@) =~= before.push(decl_view(all[np + j], base_dir@)));
        assert(all.subrange(0, np + j + 1).map_values(|d: CargoRewriteDecl| decl_view(d, base_dir@))
            =~= all.subrange(0, np + j).map_values(|d: CargoRewriteDecl| decl_view(d, base_dir@)).push(
            decl_view(all[np + j], base_dir@),
        ));
        j = j + 1;
    }
    assert(all.subrange(0, all.len() as int) == all);
    assert(manifest.patches@.subrange(0, np as int) == all.subrange(0, np as int));
    out
}

/// Adding each candidate in turn (see `push_step`), stopping at the first
/// conflict.
pub open spec fn push_all(acc: Seq<RewriteView>, cs: Seq<RewriteView>) -> Result<Seq<RewriteView>, Seq<char>>
    decreases cs.len(),
{
    if cs.len() == 0 {
        Ok(acc)
    } else {
        match push_step(acc, cs[0]) {
            Err(e) => Err(e),
            Ok(next) => push_all(next, cs.drop_first()),
        }
    }
}

/// The manifest whose rewrites apply: the workspace root's when the
/// manifest belongs to another one, else its own; with paths relative to
/// that manifest's directory.
pub open spec fn applicable_rewrites(manifest: CargoManifest, root: Option<CargoManifest>) -> Seq<RewriteView> {
    match root {
        Some(r) => if r.manifest_path@ == manifest.manifest_path@ {
            manifest_rewrite_views(manifest, manifest.manifest_dir@)
        } else {
            manifest_rewrite_views(r, r.manifest_dir@)
        },
        None => manifest_rewrite_views(manifest, manifest.manifest_dir@),
    }
}

/// The rewrites in force for a manifest: those of the manifest that
/// applies, then those of the Cargo configuration, merged by `push_step`.
pub open spec fn spec_collect_rewrites(
    manifest: CargoManifest,
    root: Option<CargoManifest>,
    cfg: CargoConfigRewrites,
) -> Result<Seq<RewriteView>, Seq<char>> {
    match push_all(Seq::empty(), applicable_rewrites(manifest, root)) {
        Err(e) => Err(e),
        Ok(acc) => push_all(acc, rewrite_views(cfg.rewrite_targets@)),
    }
}

fn push_each(rewrites: &mut Vec<EffectiveCargoRewrite>, cs: &Vec<EffectiveCargoRewrite>) -> (r: Result<(), String>)
    ensures
        match push_all(rewrite_views(old(rewrites)@), rewrite_views(cs@)) {
            Ok(v) => r is Ok && rewrite_views(final(rewrites)@) == v,
            Err(e) => unit_result_view(r) == Err::<(), Seq<char>>(e),
        },
{
    let ghost target = push_all(rewrite_views(rewrites@), rewrite_views(cs@));
    assert(target == push_all(rewrite_views(old(rewrites)@), rewrite_views(cs@)));
    let ghost cv = rewrite_views(cs@);
    let mut i: usize = 0;
    assert(cv.subrange(0, cv.len() as int) == cv);
    while i < cs.len()
        invariant
            i <= cs@.len(),
            cv == rewrite_views(cs@),
            target == push_all(rewrite_views(old(rewrites)@), rewrite_views(cs@)),
            target == push_all(rewrite_views(rewrites@), cv.subrange(i as int, cv.len() as int)),
        decreases cs.len() - i,
    {
        let ghost rest = cv.subrange(i as int, cv.len() as int);
        assert(rest[0] == cs@[i as int]@);
        assert(rest.drop_first() == cv.subrange(i + 1, cv.len() as int));
        let c = copy_rewrite(&cs[i]);
        let ghost before = rewrite_views(rewrites@);
        assert(target == push_all(before, rest));
        assert(rest[0] == c@);
        let r = push_effective_cargo_rewrite(rewrites, c);
        if r.is_err() {
            assert(push_step(before, rest[0]) is Err);
            assert(target == push_step(before, rest[0]));
            return r;
        }
        i = i + 1;
    }
    Ok(())
}

/// The rewrites in force for a manifest (see `spec_collect_rewrites`).
/// `workspace_root` is the in-scope workspace root manifest, if any.
pub fn collect_effective_cargo_rewrites(
    manifest: &CargoManifest,
    workspace_root: Option<&CargoManifest>,
    cargo_config_rewrites: &CargoConfigRewrites,
) -> (r: Result<Vec<EffectiveCargoRewrite>, String>)
    ensures
        match spec_collect_rewrites(
            *manifest,
            match workspace_root {
                Some(w) => Some(*w),
                None => None,
            },
            *cargo_config_rewrites,
        ) {
            Ok(v) => r matches Ok(x) && rewrite_views(x@) == v,
            Err(e) => r matches Err(x) && x@ == e,
        },
{
    let own = match workspace_root {
        Some(root) => if str_eq(root.manifest_path.as_str(), manifest.manifest_path.as_str()) {
            cargo_manifest_rewrites(manifest, manifest.manifest_dir.as_str())
        } else {
            cargo_manifest_rewrites(root, root.manifest_dir.as_str())
        },
        None => cargo_manifest_rewrites(manifest, manifest.manifest_dir.as_str()),
    };
    let mut rewrites: Vec<EffectiveCargoRewrite> = Vec::new();
    assert(rewrite_views(rewrites@) =~= Seq::<RewriteView>::empty());
    match push_each(&mut rewrites, &own) {
        Err(e) => {
            return Err(e);
        },
        Ok(_) => {},
    }
    match push_each(&mut rewrites, &cargo_config_rewrites.rewrite_targets) {
        Err(e) => Err(e),
        Ok(_) => Ok(rewrites),
    }
}

// ---- effective dependencies ----
/// A dependency as it is finally resolved: the spec that takes effect, the
/// directory its paths are relative to, and the exact version expected of
/// it.
#[derive(Debug)]
pub struct EffectiveCargoDependency {
    pub spec: CargoDependencySpec,
    pub base_dir: String,
    pub expected_exact_version: Option<String>,
}

pub struct EffectiveView {
    pub spec: DepSpecView,
    pub base_dir: Seq<char>,
    pub expected_exact_version: Option<Seq<char>>,
}

impl View for EffectiveCargoDependency {
    type V = EffectiveView;

    open spec fn view(&self) -> EffectiveView {
        EffectiveView {
            spec: self.spec@,
            base_dir: self.base_dir@,
            expected_exact_version: opt_view(self.expected_exact_version),
        }
    }
}

pub open spec fn or_else(a: Option<Seq<char>>, b: Option<Seq<char>>) -> Option<Seq<char>> {
    match a {
        Some(x) => Some(x),
        None => b,
    }
}

/// The last rewrite that applies to the dependency.
pub open spec fn last_matching(rws: Seq<RewriteView>, dep: DepSpecView, regs: Seq<TrustedRegistry>) -> Option<RewriteView>
    decreases rws.len(),
{
    if rws.len() == 0 {
        None
    } else if spec_rewrite_matches(rws.last(), dep, regs) {
        Some(rws.last())
    } else {
        last_matching(rws.drop_last(), dep, regs)
    }
}

/// The dependency with another source.
pub open spec fn with_source(d: DepSpecView, s: SourceView) -> DepSpecView {
    DepSpecView { source: s, ..d }
}

/// One round of redirection: the last rewrite that applies takes the
/// dependency's place (its version, if it names one, becoming the expected
/// one); a crates.io dependency with a local path override points at that
/// path; and the configuration's source replacement applies.
pub open spec fn redirected(
    dep: DepSpecView,
    base: Seq<char>,
    expected: Option<Seq<char>>,
    rws: Seq<RewriteView>,
    cfg: CargoConfigRewrites,
    regs: Seq<TrustedRegistry>,
) -> Result<(DepSpecView, Seq<char>, Option<Seq<char>>), Seq<char>> {
    let (d1, b1, e1) = match last_matching(rws, dep, regs) {
        Some(r) => (r.spec, r.base_dir, or_else(r.replace_version, expected)),
        None => (dep, base, expected),
    };
    let d2 = if d1.source is CratesIo && cfg.local_paths@.dom().contains(d1.package_name) {
        with_source(d1, SourceView::Path(cfg.local_paths@[d1.package_name]))
    } else {
        d1
    };
    match spec_apply_source_rewrite(d2, cfg, regs) {
        Err(e) => Err(e),
        Ok(Some(s)) => Ok((with_source(d2, s), b1, e1)),
        Ok(None) => Ok((d2, b1, e1)),
    }
}

/// The `[workspace.dependencies]` entry of the root for `name`.
pub open spec fn workspace_dependency(entries: Seq<(String, CargoDependencySpec)>, name: Seq<char>) -> Option<DepSpecView>
    decreases entries.len(),
{
    if entries.len() == 0 {
        None
    } else if entries[0].0@ == name {
        Some(entries[0].1@)
    } else {
        workspace_dependency(entries.drop_first(), name)
    }
}

pub open spec fn invalid_keys_msg(d: DepSpecView) -> Seq<char> {
    local_fail(
        "'"@ + d.package_name + "' uses workspace = true with unsupported member-local keys: "@ + join(
            d.workspace_member_invalid_keys,
            ", "@,
        ) + "."@,
    )
}

pub open spec fn no_root_msg(name: Seq<char>) -> Seq<char> {
    local_fail("'"@ + name + "' uses workspace = true but no in-scope workspace root was found."@)
}

pub open spec fn no_entry_msg(name: Seq<char>) -> Seq<char> {
    local_fail(
        "'"@ + name + "' uses workspace = true but the nearest in-scope [workspace.dependencies] entry is missing."@,
    )
}

pub open spec fn depth_msg(name: Seq<char>) -> Seq<char> {
    local_fail("'"@ + name + "' exceeded Cargo workspace inheritance resolution depth."@)
}

/// Resolves one dependency of the manifest named `dep_name`, after `hops`
/// workspace inheritances: redirect it; unless it is then a `workspace =
/// true` dependency, it is resolved (expecting its own pinned version when
/// no other is expected); otherwise it may set no member-local keys, and
/// inherits the root's `[workspace.dependencies]` entry, at most eight
/// times.
pub open spec fn resolve_dependency(
    dep_name: Seq<char>,
    dep: DepSpecView,
    base: Seq<char>,
    expected: Option<Seq<char>>,
    hops: int,
    rws: Seq<RewriteView>,
    cfg: CargoConfigRewrites,
    regs: Seq<TrustedRegistry>,
    root: Option<CargoManifest>,
) -> Result<EffectiveView, Seq<char>>
    decreases 8 - hops,
{
    match redirected(dep, base, expected, rws, cfg, regs) {
        Err(e) => Err(e),
        Ok((d, b, e)) => if !(d.source is Workspace) {
            Ok(EffectiveView { spec: d, base_dir: b, expected_exact_version: or_else(e, spec_dep_exact(d)) })
        } else if d.workspace_member_invalid_keys.len() > 0 {
            Err(invalid_keys_msg(d))
        } else {
            match root {
                None => Err(no_root_msg(d.package_name)),
                Some(r) => match workspace_dependency(r.workspace_dependencies@, d.package_name) {
                    None => Err(no_entry_msg(d.package_name)),
                    Some(inherited) => if hops >= 8 || hops < 0 {
                        Err(depth_msg(dep_name))
                    } else {
                        resolve_dependency(
                            dep_name,
                            inherited,
                            r.manifest_dir@,
                            or_else(e, spec_dep_exact(inherited)),
                            hops + 1,
                            rws,
                            cfg,
                            regs,
                            root,
                        )
                    },
                },
            }
        },
    }
}

/// Resolves each dependency in turn, stopping at the first error.
pub open spec fn resolve_dependencies(
    deps: Seq<DepSpecView>,
    dir: Seq<char>,
    rws: Seq<RewriteView>,
    cfg: CargoConfigRewrites,
    regs: Seq<TrustedRegistry>,
    root: Option<CargoManifest>,
) -> Result<Seq<EffectiveView>, Seq<char>>
    decreases deps.len(),
{
    if deps.len() == 0 {
        Ok(Seq::empty())
    } else {
        match resolve_dependency(
            deps[0].package_name,
            deps[0],
            dir,
            spec_dep_exact(deps[0]),
            0,
            rws,
            cfg,
            regs,
            root,
        ) {
            Err(e) => Err(e),
            Ok(v) => match resolve_dependencies(deps.drop_first(), dir, rws, cfg, regs, root) {
                Err(e) => Err(e),
                Ok(rest) => Ok(seq![v] + rest),
            },
        }
    }
}

pub open spec fn dep_spec_views(deps: Seq<CargoDependencySpec>) -> Seq<DepSpecView> {
    deps.map_values(|d: CargoDependencySpec| d@)
}

pub open spec fn opt_manifest(m: Option<&CargoManifest>) -> Option<CargoManifest> {
    match m {
        Some(x) => Some(*x),
        None => None,
    }
}

/// Every dependency of a manifest as it finally resolves, under the
/// rewrites in force (see `spec_collect_rewrites` and
/// `resolve_dependency`).
pub open spec fn spec_effective_dependencies(
    manifest: CargoManifest,
    root: Option<CargoManifest>,
    cfg: CargoConfigRewrites,
    regs: Seq<TrustedRegistry>,
) -> Result<Seq<EffectiveView>, Seq<char>> {
    match spec_collect_rewrites(manifest, root, cfg) {
        Err(e) => Err(e),
        Ok(rws) => resolve_dependencies(dep_spec_views(manifest.dependencies@), manifest.manifest_dir@, rws, cfg, regs, root),
    }
}

fn last_matching_index(rewrites: &Vec<EffectiveCargoRewrite>, dep: &CargoDependencySpec, config: &SloppyJoeConfig) -> (r: Option<usize>)
    ensures
        match r {
            Some(i) => i < rewrites@.len() && last_matching(rewrite_views(rewrites@), dep@, config.trusted_cargo_registries@)
                == Some(rewrites@[i as int]@),
            None => last_matching(rewrite_views(rewrites@), dep@, config.trusted_cargo_registries@) is None,
        },
{
    let ghost vs = rewrite_views(rewrites@);
    let ghost regs = config.trusted_cargo_registries@;
    let mut i: usize = rewrites.len();
    assert(vs.subrange(0, vs.len() as int) == vs);
    while i > 0
        invariant
            i <= rewrites@.len(),
            vs == rewrite_views(rewrites@),
            regs == config.trusted_cargo_registries@,
            last_matching(vs, dep@, regs) == last_matching(vs.subrange(0, i as int), dep@, regs),
        decreases i,
    {
        let ghost pre = vs.subrange(0, i as int);
        assert(pre.last() == rewrites@[i - 1]@);
        assert(pre.drop_last() == vs.subrange(0, i - 1));
        if cargo_rewrite_matches(&rewrites[i - 1], dep, config) {
            return Some(i - 1);
        }
        i = i - 1;
    }
    None
}

fn workspace_dependency_index(entries: &Vec<(String, CargoDependencySpec)>, name: &str) -> (r: Option<usize>)
    ensures
        match r {
            Some(i) => i < entries@.len() && workspace_dependency(entries@, name@) == Some(entries@[i as int].1@),
            None => workspace_dependency(entries@, name@) is None,
        },
{
    let mut i: usize = 0;
    assert(entries@.subrange(0, entries@.len() as int) == entries@);
    while i < entries.len()
        invariant
            i <= entries@.len(),
            workspace_dependency(entries@, name@) == workspace_dependency(
                entries@.subrange(i as int, entries@.len() as int),
                name@,
            ),
        decreases entries.len() - i,
    {
        let ghost rest = entries@.subrange(i as int, entries@.len() as int);
        assert(rest[0] == entries@[i as int]);
        assert(rest.drop_first() == entries@.subrange(i + 1, entries@.len() as int));
        if str_eq(entries[i].0.as_str(), name) {
            return Some(i);
        }
        i = i + 1;
    }
    None
}

fn or_else_exec(a: Option<String>, b: Option<String>) -> (r: Option<String>)
    ensures
        opt_view(r) == or_else(opt_view(a), opt_view(b)),
{
    match a {
        Some(x) => Some(x),
        None => b,
    }
}

fn redirect(
    dep: CargoDependencySpec,
    base: String,
    expected: Option<String>,
    rewrites: &Vec<EffectiveCargoRewrite>,
    cfg: &CargoConfigRewrites,
    config: &SloppyJoeConfig,
) -> (r: Result<(CargoDependencySpec, String, Option<String>), String>)
    requires
        cfg.wf(),
    ensures
        match redirected(dep@, base@, opt_view(expected), rewrite_views(rewrites@), *cfg, config.trusted_cargo_registries@) {
            Ok((d, b, e)) => r matches Ok(x) && x.0@ == d && x.1@ == b && opt_view(x.2) == e,
            Err(e) => r matches Err(x) && x@ == e,
        },
{
    let (mut cur, base, expected) = match last_matching_index(rewrites, &dep, config) {
        Some(i) => {
            let rw = &rewrites[i];
            let next = or_else_exec(clone_opt_string(&rw.replace_version), expected);
            (copy_dep_spec(&rw.spec), rw.base_dir.clone(), next)
        },
        None => (dep, base, expected),
    };
    let is_crates_io = match &cur.source {
        CargoSourceSpec::CratesIo => true,
        _ => false,
    };
    if is_crates_io {
        match cfg.local_paths.get(cur.package_name.as_str()) {
            Some(path) => {
                cur.source = CargoSourceSpec::Path(path.clone());
            },
            None => {},
        }
    }
    match apply_cargo_config_source_rewrite(&cur, cfg, config) {
        Err(e) => Err(e),
        Ok(Some(s)) => {
            cur.source = s;
            Ok((cur, base, expected))
        },
        Ok(None) => Ok((cur, base, expected)),
    }
}

fn is_workspace(s: &CargoSourceSpec) -> (b: bool)
    ensures
        b == (s@ is Workspace),
{
    match s {
        CargoSourceSpec::Workspace => true,
        _ => false,
    }
}

fn resolve_one(
    dep_name: &str,
    dep: CargoDependencySpec,
    base: String,
    expected: Option<String>,
    hops: usize,
    rewrites: &Vec<EffectiveCargoRewrite>,
    cfg: &CargoConfigRewrites,
    config: &SloppyJoeConfig,
    root: Option<&CargoManifest>,
) -> (r: Result<EffectiveCargoDependency, String>)
    requires
        cfg.wf(),
        hops <= 8,
    ensures
        match resolve_dependency(
            dep_name@,
            dep@,
            base@,
            opt_view(expected),
            hops as int,
            rewrite_views(rewrites@),
            *cfg,
            config.trusted_cargo_registries@,
            opt_manifest(root),
        ) {
            Ok(v) => r matches Ok(x) && x@ == v,
            Err(e) => r matches Err(x) && x@ == e,
        },
    decreases 8 - hops,
{
    let (cur, b, e) = match redirect(dep, base, expected, rewrites, cfg, config) {
        Err(e) => {
            return Err(e);
        },
        Ok(t) => t,
    };
    if !is_workspace(&cur.source) {
        let pinned = cargo_dependency_exact_version(&cur);
        let expected_exact_version = or_else_exec(e, pinned);
        return Ok(EffectiveCargoDependency { spec: cur, base_dir: b, expected_exact_version });
    }
    if cur.workspace_member_invalid_keys.len() > 0 {
        let keys = crate::lockfiles::join_strings(&cur.workspace_member_invalid_keys, ", ");
        let r = cargo_error(
            RESOLUTION_LOCAL_DEPENDENCY_SOURCE,
            &["'", cur.package_name.as_str(), "' uses workspace = true with unsupported member-local keys: ", keys.as_str(), "."],
        );
        proof {
            reveal_with_fuel(concat_all, 6);
        }
        return Err(r);
    }
    let Some(r) = root else {
        let m = cargo_error(
            RESOLUTION_LOCAL_DEPENDENCY_SOURCE,
            &["'", cur.package_name.as_str(), "' uses workspace = true but no in-scope workspace root was found."],
        );
        proof {
            reveal_with_fuel(concat_all, 4);
        }
        return Err(m);
    };
    let Some(k) = workspace_dependency_index(&r.workspace_dependencies, cur.package_name.as_str()) else {
        let m = cargo_error(
            RESOLUTION_LOCAL_DEPENDENCY_SOURCE,
            &["'", cur.package_name.as_str(), "' uses workspace = true but the nearest in-scope [workspace.dependencies] entry is missing."],
        );
        proof {
            reveal_with_fuel(concat_all, 4);
        }
        return Err(m);
    };
    if hops >= 8 {
        let m = cargo_error(
            RESOLUTION_LOCAL_DEPENDENCY_SOURCE,
            &["'", dep_name, "' exceeded Cargo workspace inheritance resolution depth."],
        );
        proof {
            reveal_with_fuel(concat_all, 4);
        }
        return Err(m);
    }
    let inherited = copy_dep_spec(&r.workspace_dependencies[k].1);
    let pinned = cargo_dependency_exact_version(&inherited);
    let next_expected = or_else_exec(e, pinned);
    resolve_one(dep_name, inherited, r.manifest_dir.clone(), next_expected, hops + 1, rewrites, cfg, config, root)
}

/// Every dependency of a manifest as it finally resolves (see
/// `spec_effective_dependencies`). `workspace_root` is the in-scope
/// workspace root manifest, if any.
pub fn resolve_cargo_effective_dependencies(
    manifest: &CargoManifest,
    workspace_root: Option<&CargoManifest>,
    config: &SloppyJoeConfig,
    cargo_config_rewrites: &CargoConfigRewrites,
) -> (r: Result<Vec<EffectiveCargoDependency>, String>)
    requires
        cargo_config_rewrites.wf(),
    ensures
        match spec_effective_dependencies(
            *manifest,
            opt_manifest(workspace_root),
            *cargo_config_rewrites,
            config.trusted_cargo_registries@,
        ) {
            Ok(v) => r matches Ok(x) && x@.map_values(|d: EffectiveCargoDependency| d@) == v,
            Err(e) => r matches Err(x) && x@ == e,
        },
{
    let rewrites = match collect_effective_cargo_rewrites(manifest, workspace_root, cargo_config_rewrites) {
        Err(e) => {
            return Err(e);
        },
        Ok(r) => r,
    };
    let ghost rws = rewrite_views(rewrites@);
    let ghost deps = dep_spec_views(manifest.dependencies@);
    let ghost regs = config.trusted_cargo_registries@;
    let ghost root = opt_manifest(workspace_root);
    let ghost dir = manifest.manifest_dir@;
    let mut out: Vec<EffectiveCargoDependency> = Vec::new();
    let mut i: usize = 0;
    assert(deps.subrange(0, deps.len() as int) == deps);
    while i < manifest.dependencies.len()
        invariant
            i <= manifest.dependencies@.len(),
            cargo_config_rewrites.wf(),
            rws == rewrite_views(rewrites@),
            deps == dep_spec_views(manifest.dependencies@),
            regs == config.trusted_cargo_registries@,
            root == opt_manifest(workspace_root),
            dir == manifest.manifest_dir@,
            spec_effective_dependencies(*manifest, root, *cargo_config_rewrites, regs) == match resolve_dependencies(
                deps.subrange(i as int, deps.len() as int),
                dir,
                rws,
                *cargo_config_rewrites,
                regs,
                root,
            ) {
                Err(e) => Err(e),
                Ok(rest) => Ok(out@.map_values(|d: EffectiveCargoDependency| d@) + rest),
            },
        decreases manifest.dependencies.len() - i,
    {
        let ghost rest = deps.subrange(i as int, deps.len() as int);
        assert(rest[0] == manifest.dependencies@[i as int]@);
        assert(rest.drop_first() == deps.subrange(i + 1, deps.len() as int));
        let dep = &manifest.dependencies[i];
        let pinned = cargo_dependency_exact_version(dep);
        let one = resolve_one(
            dep.package_name.as_str(),
            copy_dep_spec(dep),
            manifest.manifest_dir.clone(),
            pinned,
            0,
            &rewrites,
            cargo_config_rewrites,
            config,
            workspace_root,
        );
        match one {
            Err(e) => {
                return Err(e);
            },
            Ok(v) => {
                let ghost before = out@.map_values(|d: EffectiveCargoDependency| d@);
                let ghost vv = v@;
                out.push(v);
                assert(out@.map_values(|d: EffectiveCargoDependency| d@) =~= before.push(vv));
                proof {
                    match resolve_dependencies(rest.drop_first(), dir, rws, *cargo_config_rewrites, regs, root) {
                        Ok(more) => {
                            assert(before + (seq![vv] + more) =~= before.push(vv) + more);
                        },
                        Err(_) => {},
                    }
                }
            },
        }
        i = i + 1;
    }
    assert(deps.subrange(i as int, deps.len() as int) =~= Seq::<DepSpecView>::empty());
    assert(out@.map_values(|d: EffectiveCargoDependency| d@) + Seq::<EffectiveView>::empty() =~= out@.map_values(
        |d: EffectiveCargoDependency| d@,
    ));
    Ok(out)
}

/// A rewrite that is in the lockfile's scope is checked as the dependency
/// that takes effect, expecting the version the rewrite names, else the one
/// its dependency pins (a path rewrite leaves its local crate to inspect,
/// relative to the rewrite's directory).
pub open spec fn spec_effective_rewrite_check(
    rw: RewriteView,
    es: Seq<Option<CargoPackageView>>,
    regs: Seq<TrustedRegistry>,
    policy: CargoGitPolicy,
    git_sources: Seq<String>,
) -> Result<VerdictView, Seq<char>> {
    spec_dependency_spec_check(
        rw.spec,
        or_else(rw.replace_version, spec_dep_exact(rw.spec)),
        es,
        regs,
        policy,
        git_sources,
    )
}

/// Checks the dependency that a rewrite puts in place (see
/// `spec_effective_rewrite_check`).
pub fn validate_cargo_effective_rewrite(
    rewrite: &EffectiveCargoRewrite,
    config: &SloppyJoeConfig,
    lockfile: &CargoLockfile,
) -> (r: Result<CargoSourceVerdict, String>)
    ensures
        verdict_result_view(r) == spec_effective_rewrite_check(
            rewrite@,
            lock_entries(*lockfile),
            config.trusted_cargo_registries@,
            config.cargo_git_policy,
            config.trusted_cargo_git_sources@,
        ),
{
    let pinned = cargo_dependency_exact_version(&rewrite.spec);
    let expected = or_else_exec(clone_opt_string(&rewrite.replace_version), pinned);
    let e: Option<&str> = match &expected {
        Some(x) => Some(x.as_str()),
        None => None,
    };
    validate_cargo_dependency_spec(&rewrite.spec, e, config, lockfile)
}

// ---- reading a `.cargo/config.toml` ----
/// One entry of a Cargo config's `paths` array: not a string; a directory
/// without a crate manifest naming a package; or the crate directory (as
/// resolved) and the package its manifest names.
#[derive(Debug)]
pub enum CargoConfigPath {
    NotString,
    Skipped,
    Crate { candidate: String, package_name: String },
}

/// One `[source.<name>]` table of a Cargo config: its `replace-with`,
/// `registry`, `directory`, `local-registry` and `git` strings.
#[derive(Debug)]
pub struct CargoConfigSource {
    pub replace_with: Option<String>,
    pub registry: Option<String>,
    pub directory: Option<String>,
    pub local_registry: Option<String>,
    pub git: Option<String>,
}

/// What the source policy reads of a Cargo config file: its `paths`
/// entries (`None` where there is no `paths` array), its `[source]` tables
/// by name (`None` for a value that is not a table), and its `[patch]` and
/// `[replace]` entries.
#[derive(Debug)]
pub struct CargoConfigDocument {
    pub paths: Option<Vec<CargoConfigPath>>,
    pub sources: Option<Vec<(String, Option<CargoConfigSource>)>>,
    pub patches: Vec<CargoRewriteDecl>,
    pub replaces: Vec<CargoRewriteDecl>,
}

/// The local path overrides, in order: a non-string entry breaks the
/// config, and a crate overridden to two directories is refused.
pub open spec fn paths_fold(m: Map<Seq<char>, Seq<char>>, ps: Seq<CargoConfigPath>, config_path: Seq<char>) -> Result<
    Map<Seq<char>, Seq<char>>,
    Seq<char>,
>
    decreases ps.len(),
{
    if ps.len() == 0 {
        Ok(m)
    } else {
        match ps[0] {
            CargoConfigPath::NotString => Err(
                "Broken Cargo config '"@ + config_path + "': paths entries must be strings."@,
            ),
            CargoConfigPath::Skipped => paths_fold(m, ps.drop_first(), config_path),
            CargoConfigPath::Crate { candidate, package_name } => if m.dom().contains(package_name@) && m[package_name@]
                != candidate@ {
                Err(
                    spec_cargo_fail(
                        RESOLUTION_BLOCKED_PROVENANCE_REWRITE@,
                        "Cargo config '"@ + config_path + "' declares multiple local path rewrites for crate '"@
                            + package_name@ + "': '"@ + m[package_name@] + "' and '"@ + candidate@
                            + "'. sloppy-joe refuses ambiguous local provenance."@,
                    ),
                )
            } else {
                paths_fold(m.insert(package_name@, candidate@), ps.drop_first(), config_path)
            },
        }
    }
}

/// The definition a `[source]` table gives: a `registry`, else an
/// unsupported `directory`, `local-registry` or `git` source.
pub open spec fn source_definition(e: CargoConfigSource) -> Option<DefinitionView> {
    match (opt_view(e.registry), opt_view(e.directory), opt_view(e.local_registry), opt_view(e.git)) {
        (Some(u), _, _, _) => Some(DefinitionView::Registry(u)),
        (None, Some(d), _, _) => Some(DefinitionView::Unsupported { kind: "directory"@, detail: d }),
        (None, None, Some(d), _) => Some(DefinitionView::Unsupported { kind: "local-registry"@, detail: d }),
        (None, None, None, Some(u)) => Some(DefinitionView::Unsupported { kind: "git"@, detail: u }),
        (None, None, None, None) => None,
    }
}

/// The replacements the `[source]` tables declare.
pub open spec fn replacements(srcs: Seq<(String, Option<CargoConfigSource>)>) -> Map<Seq<char>, Seq<char>>
    decreases srcs.len(),
{
    if srcs.len() == 0 {
        Map::empty()
    } else {
        let m = replacements(srcs.drop_last());
        match srcs.last().1 {
            Some(e) => match opt_view(e.replace_with) {
                Some(a) => m.insert(srcs.last().0@, a),
                None => m,
            },
            None => m,
        }
    }
}

/// The definition the `[source]` tables give the source `name` (the last
/// table of that name that defines one).
pub open spec fn defined(srcs: Seq<(String, Option<CargoConfigSource>)>, name: Seq<char>) -> Option<DefinitionView>
    decreases srcs.len(),
{
    if srcs.len() == 0 {
        None
    } else {
        match (srcs.last().1, srcs.last().0@ == name) {
            (Some(e), true) if source_definition(e) is Some => source_definition(e),
            _ => defined(srcs.drop_last(), name),
        }
    }
}

pub open spec fn opt_sources(o: Option<Vec<(String, Option<CargoConfigSource>)>>) -> Seq<(String, Option<CargoConfigSource>)> {
    match o {
        Some(v) => v@,
        None => Seq::empty(),
    }
}

pub open spec fn opt_paths(o: Option<Vec<CargoConfigPath>>) -> Seq<CargoConfigPath> {
    match o {
        Some(v) => v@,
        None => Seq::empty(),
    }
}

/// What a Cargo config file rewrites: its local path overrides (see
/// `paths_fold`), its source replacements and definitions, and its
/// `[patch]` then `[replace]` entries with paths relative to the config's
/// directory.
pub open spec fn spec_config_rewrites(doc: CargoConfigDocument, config_path: Seq<char>, config_dir: Seq<char>, rw: CargoConfigRewrites) -> bool {
    &&& paths_fold(Map::empty(), opt_paths(doc.paths), config_path) == Ok::<
        Map<Seq<char>, Seq<char>>,
        Seq<char>,
    >(rw.local_paths@)
    &&& rw.source_replace_with@ == replacements(opt_sources(doc.sources))
    &&& forall|n: Seq<char>| #[trigger] definition_for(rw.source_definitions@, n) == defined(opt_sources(doc.sources), n)
    &&& rewrite_views(rw.rewrite_targets@) == (doc.patches@ + doc.replaces@).map_values(
        |d: CargoRewriteDecl| decl_view(d, config_dir),
    )
}

fn read_config_paths(ps: &Vec<CargoConfigPath>, config_path: &str) -> (r: Result<StringTable, String>)
    ensures
        match paths_fold(Map::empty(), ps@, config_path@) {
            Ok(m) => r matches Ok(t) && t.wf() && t@ == m,
            Err(e) => r matches Err(x) && x@ == e,
        },
{
    let mut table = StringTable::new();
    let ghost target = paths_fold(Map::empty(), ps@, config_path@);
    let mut i: usize = 0;
    assert(ps@.subrange(0, ps@.len() as int) == ps@);
    while i < ps.len()
        invariant
            i <= ps@.len(),
            table.wf(),
            target == paths_fold(Map::empty(), ps@, config_path@),
            target == paths_fold(table@, ps@.subrange(i as int, ps@.len() as int), config_path@),
        decreases ps.len() - i,
    {
        let ghost rest = ps@.subrange(i as int, ps@.len() as int);
        assert(rest[0] == ps@[i as int]);
        assert(rest.drop_first() == ps@.subrange(i + 1, ps@.len() as int));
        match &ps[i] {
            CargoConfigPath::NotString => {
                let mut m = string_of_str("Broken Cargo config '");
                push_str(&mut m, config_path);
                push_str(&mut m, "': paths entries must be strings.");
                return Err(m);
            },
            CargoConfigPath::Skipped => {},
            CargoConfigPath::Crate { candidate, package_name } => {
                match table.get(package_name.as_str()) {
                    Some(existing) => {
                        if !str_eq(existing.as_str(), candidate.as_str()) {
                            let r = cargo_error(
                                RESOLUTION_BLOCKED_PROVENANCE_REWRITE,
                                &[
                                    "Cargo config '",
                                    config_path,
                                    "' declares multiple local path rewrites for crate '",
                                    package_name.as_str(),
                                    "': '",
                                    existing.as_str(),
                                    "' and '",
                                    candidate.as_str(),
                                    "'. sloppy-joe refuses ambiguous local provenance.",
                                ],
                            );
                            proof {
                                reveal_with_fuel(concat_all, 10);
                            }
                            return Err(r);
                        }
                    },
                    None => {},
                }
                table.insert(package_name.clone(), candidate.clone());
            },
        }
        i = i + 1;
    }
    Ok(table)
}

/// What a Cargo config file rewrites (see `spec_config_rewrites`).
/// `config_dir` is the directory that holds it.
pub fn parse_cargo_config_rewrites(doc: &CargoConfigDocument, config_path: &str, config_dir: &str) -> (r: Result<
    CargoConfigRewrites,
    String,
>)
    ensures
        match paths_fold(Map::empty(), opt_paths(doc.paths), config_path@) {
            Ok(_) => r matches Ok(rw) && rw.wf() && spec_config_rewrites(*doc, config_path@, config_dir@, rw),
            Err(e) => r matches Err(x) && x@ == e,
        },
{
    let empty_paths: Vec<CargoConfigPath> = Vec::new();
    let ps = match &doc.paths {
        Some(v) => v,
        None => &empty_paths,
    };
    let local_paths = match read_config_paths(ps, config_path) {
        Err(e) => {
            return Err(e);
        },
        Ok(t) => t,
    };
    let mut replace_with = StringTable::new();
    let mut definitions: Vec<(String, CargoConfigSourceDefinition)> = Vec::new();
    let empty_sources: Vec<(String, Option<CargoConfigSource>)> = Vec::new();
    let srcs = match &doc.sources {
        Some(v) => v,
        None => &empty_sources,
    };
    let mut i: usize = 0;
    assert(srcs@.subrange(0, 0) =~= Seq::<(String, Option<CargoConfigSource>)>::empty());
    while i < srcs.len()
        invariant
            i <= srcs@.len(),
            srcs@ == opt_sources(doc.sources),
            replace_with.wf(),
            replace_with@ == replacements(srcs@.subrange(0, i as int)),
            definitions_unique(definitions@),
            forall|n: Seq<char>|
                #[trigger] definition_for(definitions@, n) == defined(srcs@.subrange(0, i as int), n),
        decreases srcs.len() - i,
    {
        let ghost pre = srcs@.subrange(0, i as int);
        let ghost next = srcs@.subrange(0, i + 1);
        assert(next.drop_last() == pre);
        assert(next.last() == srcs@[i as int]);
        if let Some(e) = &srcs[i].1 {
            if let Some(a) = &e.replace_with {
                replace_with.insert(srcs[i].0.clone(), a.clone());
            }
            let def = match (&e.registry, &e.directory, &e.local_registry, &e.git) {
                (Some(u), _, _, _) => Some(CargoConfigSourceDefinition::Registry(u.clone())),
                (None, Some(d), _, _) => Some(
                    CargoConfigSourceDefinition::Unsupported { kind: string_of_str("directory"), detail: d.clone() },
                ),
                (None, None, Some(d), _) => Some(
                    CargoConfigSourceDefinition::Unsupported { kind: string_of_str("local-registry"), detail: d.clone() },
                ),
                (None, None, None, Some(u)) => Some(
                    CargoConfigSourceDefinition::Unsupported { kind: string_of_str("git"), detail: u.clone() },
                ),
                (None, None, None, None) => None,
            };
            proof {
                reveal_strlit("directory");
                reveal_strlit("local-registry");
                reveal_strlit("git");
            }
            match def {
                Some(d) => {
                    let ghost dv = d@;
                    assert(source_definition(*e) == Some(dv));
                    insert_definition(&mut definitions, srcs[i].0.clone(), d);
                },
                None => {
                    assert(source_definition(*e) is None);
                },
            }
        }
        i = i + 1;
    }
    assert(srcs@.subrange(0, srcs@.len() as int) == srcs@);
    let mut targets = Vec::new();
    assert(rewrite_views(targets@) =~= Seq::<RewriteView>::empty());
    let mut k: usize = 0;
    let ghost all = doc.patches@ + doc.replaces@;
    while k < doc.patches.len()
        invariant
            k <= doc.patches@.len(),
            all == doc.patches@ + doc.replaces@,
            rewrite_views(targets@) == all.subrange(0, k as int).map_values(
                |d: CargoRewriteDecl| decl_view(d, config_dir@),
            ),
        decreases doc.patches.len() - k,
    {
        let ghost before = rewrite_views(targets@);
        targets.push(rewrite_of(&doc.patches[k], config_dir));
        assert(all[k as int] == doc.patches@[k as int]);
        assert(rewrite_views(targets@) =~= before.push(decl_view(all[k as int], config_dir@)));
        assert(all.subrange(0, k + 1).map_values(|d: CargoRewriteDecl| decl_view(d, config_dir@))
            =~= all.subrange(0, k as int).map_values(|d: CargoRewriteDecl| decl_view(d, config_dir@)).push(
            decl_view(all[k as int], config_dir@),
        ));
        k = k + 1;
    }
    let np = doc.patches.len();
    let mut j: usize = 0;
    while j < doc.replaces.len()
        invariant
            j <= doc.replaces@.len(),
            np == doc.patches@.len(),
            all == doc.patches@ + doc.replaces@,
            rewrite_views(targets@) == all.subrange(0, np + j).map_values(
                |d: CargoRewriteDecl| decl_view(d, config_dir@),
            ),
        decreases doc.replaces.len() - j,
    {
        let ghost before = rewrite_views(targets@);
        targets.push(rewrite_of(&doc.replaces[j], config_dir));
        assert(all[np + j] == doc.replaces@[j as int]);
        assert(rewrite_views(targets@) =~= before.push(decl_view(all[np + j], config_dir@)));
        assert(all.subrange(0, np + j + 1).map_values(|d: CargoRewriteDecl| decl_view(d, config_dir@))
            =~= all.subrange(0, np + j).map_values(|d: CargoRewriteDecl| decl_view(d, config_dir@)).push(
            decl_view(all[np + j], config_dir@),
        ));
        j = j + 1;
    }
    assert(all.subrange(0, all.len() as int) == all);
    Ok(
        CargoConfigRewrites {
            local_paths,
            source_replace_with: replace_with,
            source_definitions: definitions,
            rewrite_targets: targets,
        },
    )
}

/// A git dependency is accepted only when `Cargo.lock` records a package of
/// its name whose source is exactly `git+<url>?rev=<rev>#<rev>` (at the
/// expected version, where one is given): a lock entry from another
/// repository or commit proves nothing.
pub proof fn lemma_git_accepted_only_with_exact_lock_source(
    dep: DepSpecView,
    expected: Option<Seq<char>>,
    url: Seq<char>,
    rev: Option<Seq<char>>,
    branch: Option<Seq<char>>,
    tag: Option<Seq<char>>,
    es: Seq<Option<CargoPackageView>>,
    policy: CargoGitPolicy,
    git_sources: Seq<String>,
)
    requires
        spec_git_source_check(dep, expected, SourceView::Git { url, rev, branch, tag }, es, policy, git_sources) is Ok,
    ensures
        policy == CargoGitPolicy::WarnPinned,
        branch is None && tag is None && rev is Some,
        is_exact_rev(rev->0),
        exists|i: int| 0 <= i < git_sources.len() && trim(#[trigger] git_sources[i]@) == trim(url),
        exists|i: int|
            0 <= i < es.len() && (#[trigger] es[i]) is Some && es[i]->0.name == Some(dep.package_name)
                && es[i]->0.source == Some("git+"@ + url + "?rev="@ + rev->0 + "#"@ + rev->0) && (expected is Some
                ==> es[i]->0.version == expected),
{
    let src = "git+"@ + url + "?rev="@ + rev->0 + "#"@ + rev->0;
    assert(spec_git_source_id(url, rev, None, None) == src);
    let i = choose|i: int|
        0 <= i < es.len() && #[trigger] git_entry_at(es, i, dep.package_name, src, expected);
    assert(git_entry_at(es, i, dep.package_name, src, expected));
}

/// A git dependency that the policy allows, pinned to a full commit of an
/// allowlisted repository, but of which no `Cargo.lock` package of its name
/// records the source `git+<url>?rev=<rev>#<rev>` (at the expected
/// version, where one is given), is refused as unproven.
pub proof fn lemma_git_without_exact_lock_source_refused(
    dep: DepSpecView,
    expected: Option<Seq<char>>,
    url: Seq<char>,
    rev: Seq<char>,
    es: Seq<Option<CargoPackageView>>,
    git_sources: Seq<String>,
)
    requires
        is_exact_rev(rev),
        git_source_allowlisted(git_sources, url),
        forall|i: int|
            0 <= i < es.len() ==> !((#[trigger] es[i]) is Some && es[i]->0.name == Some(dep.package_name)
                && es[i]->0.source == Some("git+"@ + url + "?rev="@ + rev + "#"@ + rev) && (expected is Some
                ==> es[i]->0.version == expected)),
    ensures
        spec_git_source_check(
            dep,
            expected,
            SourceView::Git { url, rev: Some(rev), branch: None, tag: None },
            es,
            CargoGitPolicy::WarnPinned,
            git_sources,
        ) == Err::<IssueView, Seq<char>>(
            spec_cargo_fail(
                RESOLUTION_UNTRUSTED_GIT_SOURCE@,
                "Cargo.lock did not prove the exact git repo and commit for '"@ + dep.package_name + "' as '"@ + (
                "git+"@ + url + "?rev="@ + rev + "#"@ + rev) + "'."@,
            ),
        ),
{
    let src = "git+"@ + url + "?rev="@ + rev + "#"@ + rev;
    assert(spec_git_source_id(url, Some(rev), None, None) == src);
    assert forall|i: int| 0 <= i < es.len() implies !#[trigger] git_entry_at(es, i, dep.package_name, src, expected) by {
    }
}

} // verus!
