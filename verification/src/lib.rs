//! Supply-chain checks for project dependencies: lockfile resolution,
//! provenance rules and the issues they raise.
pub mod assoc;
pub mod cargo_config;
pub mod cargo_policy;
pub mod cargo_scope;
pub mod checks;
pub mod config;
pub mod documents;
pub mod ecosystem;
pub mod full_scan;
pub mod go_mod;
pub mod local_targets;
pub mod lockfiles;
pub mod js_consistency;
pub mod js_lockfile;
pub mod js_workspaces;
pub mod npm_consistency;
pub mod npm_provenance;
pub mod order;
pub mod paths;
pub mod policy;
pub mod preflight;
pub mod project;
pub mod project_scan;
pub mod project_type;
pub mod registry;
pub mod report;
pub mod text;
pub mod version;
pub mod walk;
pub mod workspace;

pub use ecosystem::Ecosystem;
pub use policy::{
    alias_identity_issues, classify_deps, local_overlay_relaxation_issues, mark_source,
    unresolved_version_policy_issues,
};

use vstd::prelude::*;
use report::opt_view;
use report::clone_opt_string;

verus! {


/// Options that control scan behavior, set from CLI flags.
#[derive(Debug)]
pub struct ScanOptions<'a> {
    /// High-level scan behavior: fast local guardrail vs full online scan.
    pub scan_mode: ScanMode,
    /// Enable similarity checks on transitive dependencies (--deep).
    pub deep: bool,
    /// Enable expensive mutation generators like bitflip (--paranoid).
    pub paranoid: bool,
    /// Disable reading from disk caches (--no-cache). Writes still happen.
    pub no_cache: bool,
    /// Override the default cache directory (--cache-dir).
    pub cache_dir: Option<&'a str>,
    /// Disable OSV disk cache entirely (for testing).
    pub disable_osv_disk_cache: bool,
    /// Skip the manifest hash check (used by `cache` command to always run).
    pub skip_hash_check: bool,
    /// Emit structured exception review candidates for supported findings.
    pub review_exceptions: bool,
}

impl<'a> Default for ScanOptions<'a> {
    fn default() -> (r: ScanOptions<'a>)
        ensures
            r.scan_mode == ScanMode::Full,
            !r.deep && !r.paranoid && !r.no_cache && r.cache_dir.is_none(),
            !r.disable_osv_disk_cache && !r.skip_hash_check && !r.review_exceptions,
    {
        ScanOptions {
            scan_mode: ScanMode::Full,
            deep: false,
            paranoid: false,
            no_cache: false,
            cache_dir: None,
            disable_osv_disk_cache: false,
            skip_hash_check: false,
            review_exceptions: false,
        }
    }
}

#[derive(Debug, Clone, Copy, PartialEq, Eq, Structural)]
pub enum ScanMode {
    Fast,
    Full,
    Ci,
}

impl Default for ScanMode {
    fn default() -> (r: ScanMode)
        ensures
            r == ScanMode::Full,
    {
        ScanMode::Full
    }
}

impl ScanMode {
    /// Every mode but `Fast` runs the full, online checks.
    pub fn runs_full_checks(self) -> (b: bool)
        ensures
            b == (self != ScanMode::Fast),
    {
        !matches!(self, ScanMode::Fast)
    }
}

/// A dependency parsed from a project manifest file (package.json, Cargo.toml, etc.).
#[derive(Debug)]
pub struct Dependency {
    /// Package key as it appears in the manifest (e.g., "react", "@types/node", or an npm alias).
    pub name: String,
    /// Version requirement from the manifest (e.g., "^18.0", "==2.31.0"). None if unspecified.
    pub version: Option<String>,
    /// Which ecosystem this dependency belongs to.
    pub ecosystem: Ecosystem,
    /// Underlying published package identity when the manifest key is an alias.
    pub actual_name: Option<String>,
}

pub struct DependencyView {
    pub name: Seq<char>,
    pub version: Option<Seq<char>>,
    pub ecosystem: Ecosystem,
    pub actual_name: Option<Seq<char>>,
}

impl DependencyView {
    /// The exact version the manifest requirement pins, if any.
    pub open spec fn exact(self) -> Option<Seq<char>> {
        match self.version {
            Some(v) => version::spec_exact_version(v, self.ecosystem),
            None => None,
        }
    }

    /// The published package identity: the alias target if there is one.
    pub open spec fn package(self) -> Seq<char> {
        match self.actual_name {
            Some(a) => a,
            None => self.name,
        }
    }
}

impl View for Dependency {
    type V = DependencyView;

    open spec fn view(&self) -> DependencyView {
        DependencyView {
            name: self.name@,
            version: opt_view(self.version),
            ecosystem: self.ecosystem,
            actual_name: opt_view(self.actual_name),
        }
    }
}

impl Clone for Dependency {
    fn clone(&self) -> (r: Dependency)
        ensures
            r@ == self@,
    {
        Dependency {
            name: self.name.clone(),
            version: clone_opt_string(&self.version),
            ecosystem: self.ecosystem,
            actual_name: clone_opt_string(&self.actual_name),
        }
    }
}

impl Dependency {
    pub fn exact_version(&self) -> (r: Option<String>)
        ensures
            opt_view(r) == self@.exact(),
    {
        match &self.version {
            Some(v) => version::exact_version(v.as_str(), self.ecosystem),
            None => None,
        }
    }

    pub fn has_unresolved_version(&self) -> (b: bool)
        ensures
            b == self@.exact().is_none(),
    {
        self.exact_version().is_none()
    }

    pub fn package_name(&self) -> (s: &str)
        ensures
            s@ == self@.package(),
    {
        match &self.actual_name {
            Some(a) => a.as_str(),
            None => self.name.as_str(),
        }
    }
}

} // verus!
