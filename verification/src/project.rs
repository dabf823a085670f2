//! The kinds of project a scan recognizes, and the help it gives for them.
use vstd::prelude::*;
use crate::checks::names;
use crate::report::{Issue, IssueView, Severity, issue_spec};
use crate::paths::{join_path, opt_text, parent_path, spec_join, spec_parent};
use crate::text::{
    chars_of, ends_with, range_ends_with, range_starts_with, rsplit_once_range, rsplit_once_seq, starts_with, str_eq,
    string_of_range,
};
use crate::workspace::strs;
use crate::text::{string_of_str, push_str};

verus! {

/// The manifest (and so the workflow) a project is scanned through.
#[derive(Clone, Copy, Debug, PartialEq, Eq, Structural)]
pub enum ProjectInputKind {
    Npm,
    PyProjectPoetry,
    PyProjectUv,
    PyRequirements,
    PyRequirementsTrusted,
    PyProjectLegacy,
    PyPipfile,
    PySetupPy,
    PySetupCfg,
    Cargo,
    Go,
    Ruby,
    Php,
    Gradle,
    Maven,
    Dotnet,
}

/// The package manager that owns a JavaScript project.
#[derive(Clone, Copy, Debug, PartialEq, Eq, Structural)]
pub enum JsPackageManager {
    Npm,
    Pnpm,
    Yarn,
    Bun,
}

impl JsPackageManager {
    pub open spec fn spec_name(self) -> Seq<char> {
        match self {
            JsPackageManager::Npm => "npm"@,
            JsPackageManager::Pnpm => "pnpm"@,
            JsPackageManager::Yarn => "yarn"@,
            JsPackageManager::Bun => "bun"@,
        }
    }

    /// The manager's command name.
    pub fn as_str(self) -> (s: &'static str)
        ensures
            s@ == self.spec_name(),
    {
        match self {
            JsPackageManager::Npm => "npm",
            JsPackageManager::Pnpm => "pnpm",
            JsPackageManager::Yarn => "yarn",
            JsPackageManager::Bun => "bun",
        }
    }
}

impl ProjectInputKind {
    pub open spec fn spec_is_python(self) -> bool {
        match self {
            ProjectInputKind::PyProjectPoetry | ProjectInputKind::PyProjectUv
            | ProjectInputKind::PyRequirements | ProjectInputKind::PyRequirementsTrusted
            | ProjectInputKind::PyProjectLegacy | ProjectInputKind::PyPipfile
            | ProjectInputKind::PySetupPy | ProjectInputKind::PySetupCfg => true,
            _ => false,
        }
    }

    /// The kind is one of the Python workflows.
    pub fn is_python(self) -> (b: bool)
        ensures
            b == self.spec_is_python(),
    {
        match self {
            ProjectInputKind::PyProjectPoetry | ProjectInputKind::PyProjectUv
            | ProjectInputKind::PyRequirements | ProjectInputKind::PyRequirementsTrusted
            | ProjectInputKind::PyProjectLegacy | ProjectInputKind::PyPipfile
            | ProjectInputKind::PySetupPy | ProjectInputKind::PySetupCfg => true,
            _ => false,
        }
    }

    pub open spec fn spec_manifest_label(self) -> Seq<char> {
        match self {
            ProjectInputKind::Npm => "package.json"@,
            ProjectInputKind::PyProjectPoetry | ProjectInputKind::PyProjectUv
            | ProjectInputKind::PyProjectLegacy => "pyproject.toml"@,
            ProjectInputKind::PyRequirements | ProjectInputKind::PyRequirementsTrusted => "requirements*.txt"@,
            ProjectInputKind::PyPipfile => "Pipfile"@,
            ProjectInputKind::PySetupPy => "setup.py"@,
            ProjectInputKind::PySetupCfg => "setup.cfg"@,
            ProjectInputKind::Cargo => "Cargo.toml"@,
            ProjectInputKind::Go => "go.mod"@,
            ProjectInputKind::Ruby => "Gemfile"@,
            ProjectInputKind::Php => "composer.json"@,
            ProjectInputKind::Gradle => "build.gradle or build.gradle.kts"@,
            ProjectInputKind::Maven => "pom.xml"@,
            ProjectInputKind::Dotnet => "*.csproj"@,
        }
    }

    /// The manifest file the kind reads, as users know it.
    pub fn manifest_label(self) -> (s: &'static str)
        ensures
            s@ == self.spec_manifest_label(),
    {
        match self {
            ProjectInputKind::Npm => "package.json",
            ProjectInputKind::PyProjectPoetry | ProjectInputKind::PyProjectUv
            | ProjectInputKind::PyProjectLegacy => "pyproject.toml",
            ProjectInputKind::PyRequirements | ProjectInputKind::PyRequirementsTrusted => "requirements*.txt",
            ProjectInputKind::PyPipfile => "Pipfile",
            ProjectInputKind::PySetupPy => "setup.py",
            ProjectInputKind::PySetupCfg => "setup.cfg",
            ProjectInputKind::Cargo => "Cargo.toml",
            ProjectInputKind::Go => "go.mod",
            ProjectInputKind::Ruby => "Gemfile",
            ProjectInputKind::Php => "composer.json",
            ProjectInputKind::Gradle => "build.gradle or build.gradle.kts",
            ProjectInputKind::Maven => "pom.xml",
            ProjectInputKind::Dotnet => "*.csproj",
        }
    }

    pub open spec fn spec_missing_lockfile_help(self) -> Option<Seq<char>> {
        match self {
            ProjectInputKind::Npm => Some(
                "Run `npm install --package-lock-only` or `npm shrinkwrap`, then commit the lockfile."@,
            ),
            ProjectInputKind::Cargo => Some("Run `cargo generate-lockfile` and commit Cargo.lock."@),
            ProjectInputKind::Go => Some("Run `go mod tidy` so Go records dependency checksums in go.sum."@),
            ProjectInputKind::Ruby => Some("Run `bundle lock` or `bundle install`, then commit Gemfile.lock."@),
            ProjectInputKind::Php => Some("Run `composer update` or `composer install`, then commit composer.lock."@),
            ProjectInputKind::Gradle => Some(
                "Enable Gradle dependency locking and run `./gradlew dependencies --write-locks`, then commit gradle.lockfile."@,
            ),
            ProjectInputKind::Dotnet => Some("Run `dotnet restore --use-lock-file` and commit packages.lock.json."@),
            ProjectInputKind::PyProjectPoetry => Some("Run `poetry lock` and commit poetry.lock alongside pyproject.toml."@),
            ProjectInputKind::PyProjectUv => Some("Run `uv lock` and commit uv.lock alongside pyproject.toml."@),
            _ => None,
        }
    }

    /// How to create the lockfile the kind needs, where it needs one.
    pub fn missing_lockfile_help(&self) -> (r: Option<&'static str>)
        ensures
            match r {
                Some(s) => self.spec_missing_lockfile_help() == Some(s@),
                None => self.spec_missing_lockfile_help() is None,
            },
    {
        match self {
            ProjectInputKind::Npm => Some(
                "Run `npm install --package-lock-only` or `npm shrinkwrap`, then commit the lockfile.",
            ),
            ProjectInputKind::Cargo => Some("Run `cargo generate-lockfile` and commit Cargo.lock."),
            ProjectInputKind::Go => Some("Run `go mod tidy` so Go records dependency checksums in go.sum."),
            ProjectInputKind::Ruby => Some("Run `bundle lock` or `bundle install`, then commit Gemfile.lock."),
            ProjectInputKind::Php => Some("Run `composer update` or `composer install`, then commit composer.lock."),
            ProjectInputKind::Gradle => Some(
                "Enable Gradle dependency locking and run `./gradlew dependencies --write-locks`, then commit gradle.lockfile.",
            ),
            ProjectInputKind::Dotnet => Some("Run `dotnet restore --use-lock-file` and commit packages.lock.json."),
            ProjectInputKind::PyProjectPoetry => Some("Run `poetry lock` and commit poetry.lock alongside pyproject.toml."),
            ProjectInputKind::PyProjectUv => Some("Run `uv lock` and commit uv.lock alongside pyproject.toml."),
            _ => None,
        }
    }
}

/// How a JavaScript project is bound to its package manager's workspace.
#[derive(Debug)]
pub struct JsProjectBinding {
    pub manager: JsPackageManager,
    pub root_manifest_path: String,
    pub lockfile_path: Option<String>,
    pub package_entry_key: String,
}

/// One project found by a scan: its kind, its manifest, an explicitly
/// chosen lockfile, and its JavaScript binding.
#[derive(Debug)]
pub struct ProjectInputSpec {
    pub kind: ProjectInputKind,
    pub manifest_path: String,
    pub lockfile_path_override: Option<String>,
    pub js_binding: Option<JsProjectBinding>,
}

impl ProjectInputSpec {
    /// The project's key in an npm lockfile's `packages` (empty for the
    /// workspace root or a project without a binding).
    pub fn npm_lockfile_package_key(&self) -> (s: &str)
        ensures
            s@ == match self.js_binding {
                Some(b) => b.package_entry_key@,
                None => Seq::empty(),
            },
    {
        match &self.js_binding {
            Some(b) => b.package_entry_key.as_str(),
            None => {
                proof {
                    reveal_strlit("");
                }
                ""
            },
        }
    }
}

pub open spec fn spec_js_lockfile_help(kind: ProjectInputKind, manager: Option<JsPackageManager>) -> Seq<char> {
    match manager {
        Some(JsPackageManager::Pnpm) => "Run `pnpm install --lockfile-only` and commit pnpm-lock.yaml."@,
        Some(JsPackageManager::Yarn) => "Commit the authoritative yarn.lock for this project."@,
        Some(JsPackageManager::Bun) => "Commit the authoritative bun.lock or bun.lockb for this project."@,
        _ => match kind.spec_missing_lockfile_help() {
            Some(h) => h,
            None => "Commit the authoritative lockfile for this project."@,
        },
    }
}

/// How to create the lockfile a project needs, by its package manager.
pub fn js_lockfile_help(spec: &ProjectInputSpec) -> (r: String)
    ensures
        r@ == spec_js_lockfile_help(
            spec.kind,
            match spec.js_binding {
                Some(b) => Some(b.manager),
                None => None,
            },
        ),
{
    let manager = match &spec.js_binding {
        Some(b) => Some(b.manager),
        None => None,
    };
    match manager {
        Some(JsPackageManager::Pnpm) => string_of_str("Run `pnpm install --lockfile-only` and commit pnpm-lock.yaml."),
        Some(JsPackageManager::Yarn) => string_of_str("Commit the authoritative yarn.lock for this project."),
        Some(JsPackageManager::Bun) => string_of_str("Commit the authoritative bun.lock or bun.lockb for this project."),
        _ => match spec.kind.missing_lockfile_help() {
            Some(h) => string_of_str(h),
            None => string_of_str("Commit the authoritative lockfile for this project."),
        },
    }
}

/// Every JavaScript package manager that can be detected is supported.
pub fn validate_supported_js_manager(spec: &ProjectInputSpec) -> (r: Result<(), String>)
    ensures
        r is Ok,
{
    match &spec.js_binding {
        None => Ok(()),
        Some(b) => match b.manager {
            JsPackageManager::Npm | JsPackageManager::Pnpm | JsPackageManager::Bun
            | JsPackageManager::Yarn => Ok(()),
        },
    }
}

pub open spec fn legacy_warning_spec(manifest: Seq<char>, kind: ProjectInputKind) -> IssueView {
    IssueView {
        message: "Python manifest '"@ + manifest + "' uses the legacy "@ + kind.spec_manifest_label()
            + " workflow. sloppy-joe will scan it, but trusted Python modes such as Poetry with poetry.lock, uv with uv.lock, and fully hash-locked pip-tools requirements provide stronger lockfile-backed assurance."@,
        fix: "Migrate this project to a trusted Python mode and commit its authoritative lock data. Legacy Python manifests remain allowed, but every run will warn until the project moves to Poetry, uv, or fully hash-locked pip-tools."@,
        ..issue_spec(manifest, names::RESOLUTION_PYTHON_LEGACY_MANIFEST@, Severity::Warning)
    }
}

/// The warning for a project scanned through a legacy Python manifest.
pub fn python_legacy_warning(spec: &ProjectInputSpec) -> (i: Issue)
    ensures
        i@ == legacy_warning_spec(spec.manifest_path@, spec.kind),
{
    let manifest = spec.manifest_path.as_str();
    let mut m = string_of_str("Python manifest '");
    push_str(&mut m, manifest);
    push_str(&mut m, "' uses the legacy ");
    push_str(&mut m, spec.kind.manifest_label());
    push_str(
        &mut m,
        " workflow. sloppy-joe will scan it, but trusted Python modes such as Poetry with poetry.lock, uv with uv.lock, and fully hash-locked pip-tools requirements provide stronger lockfile-backed assurance.",
    );
    Issue::new(manifest, names::RESOLUTION_PYTHON_LEGACY_MANIFEST, Severity::Warning).message(m.as_str()).fix(
        "Migrate this project to a trusted Python mode and commit its authoritative lock data. Legacy Python manifests remain allowed, but every run will warn until the project moves to Poetry, uv, or fully hash-locked pip-tools.",
    )
}

/// The lockfile a project is scanned against: an explicit choice first;
/// else, for npm, the lockfile its binding names, or the first of
/// `npm-shrinkwrap.json` and `package-lock.json` present in its directory
/// (`shrinkwrap_present`, `package_lock_present`); else the file of its
/// kind next to the manifest (the manifest itself for a trusted
/// requirements file); none for the kinds that need no lockfile.
pub open spec fn spec_selected_lockfile(
    spec: ProjectInputSpec,
    shrinkwrap_present: bool,
    package_lock_present: bool,
) -> Option<Seq<char>> {
    match spec.lockfile_path_override {
        Some(p) => Some(p@),
        None => {
            let dir = spec_parent(spec.manifest_path@).unwrap();
            match spec.kind {
                ProjectInputKind::Npm => {
                    let bound = match spec.js_binding {
                        Some(b) => b.lockfile_path,
                        None => None,
                    };
                    match bound {
                        Some(p) => Some(p@),
                        None => if shrinkwrap_present {
                            Some(spec_join(dir, "npm-shrinkwrap.json"@))
                        } else if package_lock_present {
                            Some(spec_join(dir, "package-lock.json"@))
                        } else {
                            None
                        },
                    }
                },
                ProjectInputKind::Cargo => Some(spec_join(dir, "Cargo.lock"@)),
                ProjectInputKind::Go => Some(spec_join(dir, "go.sum"@)),
                ProjectInputKind::Ruby => Some(spec_join(dir, "Gemfile.lock"@)),
                ProjectInputKind::Php => Some(spec_join(dir, "composer.lock"@)),
                ProjectInputKind::Gradle => Some(spec_join(dir, "gradle.lockfile"@)),
                ProjectInputKind::Dotnet => Some(spec_join(dir, "packages.lock.json"@)),
                ProjectInputKind::PyProjectPoetry => Some(spec_join(dir, "poetry.lock"@)),
                ProjectInputKind::PyProjectUv => Some(spec_join(dir, "uv.lock"@)),
                ProjectInputKind::PyRequirementsTrusted => Some(spec.manifest_path@),
                _ => None,
            }
        },
    }
}

/// The lockfile a project is scanned against (see
/// `spec_selected_lockfile`).
pub fn selected_lockfile_path(spec: &ProjectInputSpec, shrinkwrap_present: bool, package_lock_present: bool) -> (r:
    Option<String>)
    requires
        spec.lockfile_path_override is Some || spec_parent(spec.manifest_path@) is Some,
    ensures
        opt_text(r) == spec_selected_lockfile(*spec, shrinkwrap_present, package_lock_present),
{
    if let Some(p) = &spec.lockfile_path_override {
        return Some(p.clone());
    }
    let dir = match parent_path(spec.manifest_path.as_str()) {
        Some(d) => d,
        None => {
            return None;
        },
    };
    let name = match spec.kind {
        ProjectInputKind::Npm => {
            if let Some(b) = &spec.js_binding {
                if let Some(p) = &b.lockfile_path {
                    return Some(p.clone());
                }
            }
            if shrinkwrap_present {
                "npm-shrinkwrap.json"
            } else if package_lock_present {
                "package-lock.json"
            } else {
                return None;
            }
        },
        ProjectInputKind::Cargo => "Cargo.lock",
        ProjectInputKind::Go => "go.sum",
        ProjectInputKind::Ruby => "Gemfile.lock",
        ProjectInputKind::Php => "composer.lock",
        ProjectInputKind::Gradle => "gradle.lockfile",
        ProjectInputKind::Dotnet => "packages.lock.json",
        ProjectInputKind::PyProjectPoetry => "poetry.lock",
        ProjectInputKind::PyProjectUv => "uv.lock",
        ProjectInputKind::PyRequirementsTrusted => {
            return Some(spec.manifest_path.clone());
        },
        _ => {
            return None;
        },
    };
    Some(join_path(dir.as_str(), name))
}

// ---- choosing among the projects found ----
/// The elements of `s` whose mark in `keep` (by position) is set, in
/// order.
pub open spec fn retained<T>(s: Seq<T>, keep: Seq<bool>) -> Seq<T>
    decreases s.len(),
{
    if s.len() == 0 {
        s
    } else {
        let r = retained(s.drop_last(), keep);
        if keep[s.len() - 1] {
            r.push(s.last())
        } else {
            r
        }
    }
}

/// Marks that follow a predicate make `retained` a filter.
pub proof fn lemma_retained_filter<T>(s: Seq<T>, keep: Seq<bool>, pred: spec_fn(T) -> bool)
    requires
        forall|j: int| 0 <= j < s.len() ==> keep[j] == pred(#[trigger] s[j]),
    ensures
        retained(s, keep) == s.filter(pred),
    decreases s.len(),
{
    reveal(Seq::filter);
    if s.len() > 0 {
        let t = s.drop_last();
        assert forall|j: int| 0 <= j < t.len() implies keep[j] == pred(#[trigger] t[j]) by {
            assert(t[j] == s[j]);
        }
        lemma_retained_filter(t, keep, pred);
        assert(s[s.len() - 1] == s.last());
    }
}

/// Keeps the elements whose mark is set (see `retained`).
pub fn retain_marked<T>(v: &mut Vec<T>, keep: &Vec<bool>)
    requires
        keep@.len() == old(v)@.len(),
    ensures
        final(v)@ == retained(old(v)@, keep@),
{
    let ghost orig = v@;
    let n = keep.len();
    let mut k: usize = 0;
    let mut i: usize = 0;
    assert(orig.subrange(0, 0) =~= Seq::<T>::empty());
    assert(v@ =~= retained(orig.subrange(0, 0), keep@) + orig.subrange(0, n as int));
    while k < n
        invariant
            k <= n == orig.len() == keep@.len(),
            i <= k,
            i == retained(orig.subrange(0, k as int), keep@).len(),
            v@ == retained(orig.subrange(0, k as int), keep@) + orig.subrange(k as int, n as int),
        decreases n - k,
    {
        let ghost pre = retained(orig.subrange(0, k as int), keep@);
        let ghost next = orig.subrange(0, k + 1);
        assert(next.drop_last() == orig.subrange(0, k as int));
        assert(next.last() == orig[k as int]);
        assert(v@[i as int] == orig[k as int]);
        if keep[k] {
            assert(retained(next, keep@) == pre.push(orig[k as int]));
            assert(v@ =~= retained(next, keep@) + orig.subrange(k + 1, n as int));
            i = i + 1;
        } else {
            v.remove(i);
            assert(v@ =~= retained(next, keep@) + orig.subrange(k + 1, n as int));
        }
        k = k + 1;
    }
    assert(orig.subrange(0, n as int) == orig);
    assert(v@ =~= retained(orig, keep@));
}

pub open spec fn is_trusted_pyproject(k: ProjectInputKind) -> bool {
    k == ProjectInputKind::PyProjectPoetry || k == ProjectInputKind::PyProjectUv
}

/// The directory of a project's manifest.
pub open spec fn project_dir_of(s: ProjectInputSpec) -> Seq<char> {
    spec_parent(s.manifest_path@).unwrap()
}

pub open spec fn has_trusted_pyproject(specs: Seq<ProjectInputSpec>, dir: Seq<char>) -> bool {
    exists|j: int|
        0 <= j < specs.len() && is_trusted_pyproject(specs[j].kind) && #[trigger] project_dir_of(specs[j]) == dir
}

/// A Python project stays unless a Poetry or uv project shares its
/// directory, in which case only that one stays.
pub open spec fn keeps_python_input(specs: Seq<ProjectInputSpec>, s: ProjectInputSpec) -> bool {
    !s.kind.spec_is_python() || !has_trusted_pyproject(specs, project_dir_of(s)) || is_trusted_pyproject(s.kind)
}

pub open spec fn parents_known(specs: Seq<ProjectInputSpec>) -> bool {
    forall|i: int| 0 <= i < specs.len() ==> spec_parent(#[trigger] specs[i].manifest_path@) is Some
}

fn project_dir(spec: &ProjectInputSpec) -> (r: String)
    requires
        spec_parent(spec.manifest_path@) is Some,
    ensures
        r@ == project_dir_of(*spec),
{
    match parent_path(spec.manifest_path.as_str()) {
        Some(d) => d,
        None => String::new(),
    }
}

/// Drops the Python projects that share a directory with a Poetry or uv
/// project (see `keeps_python_input`).
pub fn prefer_trusted_python_project_inputs(specs: &mut Vec<ProjectInputSpec>)
    requires
        parents_known(old(specs)@),
    ensures
        final(specs)@ == old(specs)@.filter(|s: ProjectInputSpec| keeps_python_input(old(specs)@, s)),
{
    let ghost orig = specs@;
    let mut dirs: Vec<String> = Vec::new();
    let mut i: usize = 0;
    while i < specs.len()
        invariant
            i <= specs@.len(),
            specs@ == orig,
            parents_known(orig),
            forall|d: Seq<char>|
                (exists|j: int| 0 <= j < i && is_trusted_pyproject(orig[j].kind) && #[trigger] project_dir_of(orig[j]) == d)
                    <==> strs(dirs@).contains(d),
        decreases specs.len() - i,
    {
        if specs[i].kind == ProjectInputKind::PyProjectPoetry || specs[i].kind == ProjectInputKind::PyProjectUv {
            let d = project_dir(&specs[i]);
            let ghost before = strs(dirs@);
            dirs.push(d);
            proof {
                assert(strs(dirs@) =~= before.push(project_dir_of(orig[i as int])));
                assert forall|x: Seq<char>|
                    (exists|j: int| 0 <= j < i + 1 && is_trusted_pyproject(orig[j].kind) && #[trigger] project_dir_of(orig[j]) == x)
                        <==> strs(dirs@).contains(x) by {
                    if strs(dirs@).contains(x) {
                        let k = choose|k: int| 0 <= k < strs(dirs@).len() && strs(dirs@)[k] == x;
                        if k < before.len() {
                            assert(before[k] == x);
                            assert(before.contains(x));
                        } else {
                            assert(x == project_dir_of(orig[i as int]));
                        }
                    }
                    if exists|j: int| 0 <= j < i + 1 && is_trusted_pyproject(orig[j].kind) && #[trigger] project_dir_of(orig[j]) == x {
                        let j = choose|j: int| 0 <= j < i + 1 && is_trusted_pyproject(orig[j].kind) && #[trigger] project_dir_of(orig[j]) == x;
                        if j < i {
                            assert(before.contains(x));
                            let k = choose|k: int| 0 <= k < before.len() && before[k] == x;
                            assert(strs(dirs@)[k] == x);
                        } else {
                            assert(strs(dirs@)[before.len() as int] == x);
                        }
                    }
                }
            }
        } else {
            proof {
                assert forall|x: Seq<char>|
                    (exists|j: int| 0 <= j < i + 1 && is_trusted_pyproject(orig[j].kind) && #[trigger] project_dir_of(orig[j]) == x)
                        <==> strs(dirs@).contains(x) by {
                    if exists|j: int| 0 <= j < i + 1 && is_trusted_pyproject(orig[j].kind) && #[trigger] project_dir_of(orig[j]) == x {
                        let j = choose|j: int| 0 <= j < i + 1 && is_trusted_pyproject(orig[j].kind) && #[trigger] project_dir_of(orig[j]) == x;
                        assert(j < i);
                    }
                }
            }
        }
        i = i + 1;
    }
    let mut keep: Vec<bool> = Vec::new();
    let mut k: usize = 0;
    while k < specs.len()
        invariant
            k <= specs@.len(),
            specs@ == orig,
            parents_known(orig),
            keep@.len() == k,
            forall|d: Seq<char>| has_trusted_pyproject(orig, d) <==> strs(dirs@).contains(d),
            forall|j: int| 0 <= j < k ==> keep@[j] == keeps_python_input(orig, #[trigger] orig[j]),
        decreases specs.len() - k,
    {
        let kind = specs[k].kind;
        let trusted_kind = kind == ProjectInputKind::PyProjectPoetry || kind == ProjectInputKind::PyProjectUv;
        let mark = if !kind.is_python() || trusted_kind {
            true
        } else {
            let d = project_dir(&specs[k]);
            let mut found = false;
            let mut m: usize = 0;
            while m < dirs.len()
                invariant
                    m <= dirs@.len(),
                    found <==> exists|q: int| 0 <= q < m && #[trigger] dirs@[q]@ == d@,
                decreases dirs.len() - m,
            {
                if str_eq(dirs[m].as_str(), d.as_str()) {
                    found = true;
                }
                m = m + 1;
            }
            proof {
                if found {
                    let q = choose|q: int| 0 <= q < dirs@.len() && #[trigger] dirs@[q]@ == d@;
                    assert(strs(dirs@)[q] == d@);
                } else {
                    assert forall|q: int| 0 <= q < strs(dirs@).len() implies strs(dirs@)[q] != d@ by {
                        assert(strs(dirs@)[q] == dirs@[q]@);
                    }
                }
            }
            !found
        };
        keep.push(mark);
        k = k + 1;
    }
    proof {
        lemma_retained_filter(orig, keep@, |s: ProjectInputSpec| keeps_python_input(orig, s));
    }
    retain_marked(specs, &keep);
}

/// Requirement files that a hash-locked check marks (`hash_locked`, by
/// position) become trusted pip-tools inputs.
pub open spec fn promoted(s: ProjectInputSpec, hash_locked: bool) -> ProjectInputSpec {
    if s.kind == ProjectInputKind::PyRequirements && hash_locked {
        ProjectInputSpec { kind: ProjectInputKind::PyRequirementsTrusted, ..s }
    } else {
        s
    }
}

/// Promotes hash-locked requirement files (see `promoted`).
pub fn promote_trusted_pip_tools_specs(specs: &mut Vec<ProjectInputSpec>, hash_locked: &Vec<bool>)
    requires
        hash_locked@.len() == old(specs)@.len(),
    ensures
        final(specs)@.len() == old(specs)@.len(),
        forall|i: int| 0 <= i < old(specs)@.len() ==> #[trigger] final(specs)@[i] == promoted(old(specs)@[i], hash_locked@[i]),
{
    let ghost orig = specs@;
    let n = specs.len();
    let mut out: Vec<ProjectInputSpec> = Vec::new();
    let mut i: usize = 0;
    while specs.len() > 0
        invariant
            n == orig.len(),
            i + specs@.len() == orig.len(),
            hash_locked@.len() == orig.len(),
            specs@ == orig.subrange(i as int, orig.len() as int),
            out@.len() == i,
            forall|j: int| 0 <= j < i ==> #[trigger] out@[j] == promoted(orig[j], hash_locked@[j]),
        decreases specs.len(),
    {
        let mut s = specs.remove(0);
        assert(s == orig[i as int]);
        if s.kind == ProjectInputKind::PyRequirements && hash_locked[i] {
            s.kind = ProjectInputKind::PyRequirementsTrusted;
        }
        out.push(s);
        assert(specs@ =~= orig.subrange(i + 1, orig.len() as int));
        i = i + 1;
    }
    *specs = out;
}

/// Requirement files that another requirement file includes are dropped:
/// `canonical_manifests` gives, by position, each manifest's canonical path
/// where it resolved, and `included` the canonical paths that some
/// requirement file includes.
pub open spec fn keeps_requirement(s: ProjectInputSpec, canonical: Option<String>, included: Seq<Seq<char>>) -> bool {
    !(s.kind == ProjectInputKind::PyRequirements || s.kind == ProjectInputKind::PyRequirementsTrusted) || match canonical {
        Some(c) => !included.contains(c@),
        None => true,
    }
}

/// Drops the requirement files that others include (see
/// `keeps_requirement`).
pub fn prune_included_requirement_specs(
    specs: &mut Vec<ProjectInputSpec>,
    canonical_manifests: &Vec<Option<String>>,
    included: &Vec<String>,
)
    requires
        canonical_manifests@.len() == old(specs)@.len(),
    ensures
        final(specs)@ == retained(
            old(specs)@,
            Seq::new(
                old(specs)@.len(),
                |i: int| keeps_requirement(old(specs)@[i], canonical_manifests@[i], strs(included@)),
            ),
        ),
{
    let ghost orig = specs@;
    let ghost inc = strs(included@);
    let mut keep: Vec<bool> = Vec::new();
    let mut k: usize = 0;
    while k < specs.len()
        invariant
            k <= specs@.len(),
            specs@ == orig,
            canonical_manifests@.len() == orig.len(),
            inc == strs(included@),
            keep@.len() == k,
            forall|j: int| 0 <= j < k ==> #[trigger] keep@[j] == keeps_requirement(orig[j], canonical_manifests@[j], inc),
        decreases specs.len() - k,
    {
        let kind = specs[k].kind;
        let mark = if !(kind == ProjectInputKind::PyRequirements || kind == ProjectInputKind::PyRequirementsTrusted) {
            true
        } else {
            match &canonical_manifests[k] {
                None => true,
                Some(c) => {
                    let mut found = false;
                    let mut m: usize = 0;
                    while m < included.len()
                        invariant
                            m <= included@.len(),
                            inc == strs(included@),
                            found <==> exists|q: int| 0 <= q < m && #[trigger] included@[q]@ == c@,
                        decreases included.len() - m,
                    {
                        if str_eq(included[m].as_str(), c.as_str()) {
                            found = true;
                        }
                        m = m + 1;
                    }
                    proof {
                        if found {
                            let q = choose|q: int| 0 <= q < included@.len() && #[trigger] included@[q]@ == c@;
                            assert(inc[q] == c@);
                        } else {
                            assert forall|q: int| 0 <= q < inc.len() implies inc[q] != c@ by {
                                assert(inc[q] == included@[q]@);
                            }
                        }
                    }
                    !found
                },
            }
        };
        keep.push(mark);
        k = k + 1;
    }
    assert(keep@ =~= Seq::new(orig.len(), |i: int| keeps_requirement(orig[i], canonical_manifests@[i], inc)));
    retain_marked(specs, &keep);
}

// ---- recognizing manifests ----
/// How a `pyproject.toml` is managed: by Poetry, by uv, or by neither.
#[derive(Clone, Copy, Debug, PartialEq, Eq, Structural)]
pub enum PyprojectKind {
    Poetry,
    Uv,
    Legacy,
}

/// The extension of a file name: what follows its last `.`, where
/// something precedes that dot (and the name is not `..`).
pub open spec fn spec_extension(name: Seq<char>) -> Option<Seq<char>> {
    match rsplit_once_seq(name, "."@) {
        Some((before, after)) => if before.len() > 0 && name != ".."@ {
            Some(after)
        } else {
            None
        },
        None => None,
    }
}

/// The project kind a file name stands for; a `pyproject.toml` by what
/// manages it (`pyproject`, where it has been classified).
pub open spec fn spec_kind_for_file(name: Seq<char>, pyproject: Option<PyprojectKind>) -> Option<ProjectInputKind> {
    if name == "package.json"@ {
        Some(ProjectInputKind::Npm)
    } else if name == "pyproject.toml"@ {
        match pyproject {
            Some(PyprojectKind::Poetry) => Some(ProjectInputKind::PyProjectPoetry),
            Some(PyprojectKind::Uv) => Some(ProjectInputKind::PyProjectUv),
            Some(PyprojectKind::Legacy) => Some(ProjectInputKind::PyProjectLegacy),
            None => None,
        }
    } else if name == "Pipfile"@ {
        Some(ProjectInputKind::PyPipfile)
    } else if name == "setup.py"@ {
        Some(ProjectInputKind::PySetupPy)
    } else if name == "setup.cfg"@ {
        Some(ProjectInputKind::PySetupCfg)
    } else if starts_with(name, "requirements"@) && ends_with(name, ".txt"@) {
        Some(ProjectInputKind::PyRequirements)
    } else if name == "Cargo.toml"@ {
        Some(ProjectInputKind::Cargo)
    } else if name == "go.mod"@ {
        Some(ProjectInputKind::Go)
    } else if name == "Gemfile"@ {
        Some(ProjectInputKind::Ruby)
    } else if name == "composer.json"@ {
        Some(ProjectInputKind::Php)
    } else if name == "build.gradle"@ || name == "build.gradle.kts"@ {
        Some(ProjectInputKind::Gradle)
    } else if name == "pom.xml"@ {
        Some(ProjectInputKind::Maven)
    } else if spec_extension(name) == Some("csproj"@) {
        Some(ProjectInputKind::Dotnet)
    } else {
        None
    }
}

/// The project kind of a manifest, from its file name (see
/// `spec_kind_for_file`).
pub fn project_input_kind_from_path(file_name: &str, pyproject: Option<PyprojectKind>) -> (r: Option<ProjectInputKind>)
    ensures
        r == spec_kind_for_file(file_name@, pyproject),
{
    if str_eq(file_name, "package.json") {
        return Some(ProjectInputKind::Npm);
    }
    if str_eq(file_name, "pyproject.toml") {
        return match pyproject {
            Some(PyprojectKind::Poetry) => Some(ProjectInputKind::PyProjectPoetry),
            Some(PyprojectKind::Uv) => Some(ProjectInputKind::PyProjectUv),
            Some(PyprojectKind::Legacy) => Some(ProjectInputKind::PyProjectLegacy),
            None => None,
        };
    }
    if str_eq(file_name, "Pipfile") {
        return Some(ProjectInputKind::PyPipfile);
    }
    if str_eq(file_name, "setup.py") {
        return Some(ProjectInputKind::PySetupPy);
    }
    if str_eq(file_name, "setup.cfg") {
        return Some(ProjectInputKind::PySetupCfg);
    }
    let v = chars_of(file_name);
    assert(v@.subrange(0, v@.len() as int) == v@);
    if range_starts_with(&v, 0, v.len(), &chars_of("requirements")) && range_ends_with(&v, 0, v.len(), &chars_of(".txt")) {
        return Some(ProjectInputKind::PyRequirements);
    }
    if str_eq(file_name, "Cargo.toml") {
        return Some(ProjectInputKind::Cargo);
    }
    if str_eq(file_name, "go.mod") {
        return Some(ProjectInputKind::Go);
    }
    if str_eq(file_name, "Gemfile") {
        return Some(ProjectInputKind::Ruby);
    }
    if str_eq(file_name, "composer.json") {
        return Some(ProjectInputKind::Php);
    }
    if str_eq(file_name, "build.gradle") || str_eq(file_name, "build.gradle.kts") {
        return Some(ProjectInputKind::Gradle);
    }
    if str_eq(file_name, "pom.xml") {
        return Some(ProjectInputKind::Maven);
    }
    let dot = chars_of(".");
    let is_csproj = match rsplit_once_range(&v, 0, v.len(), &dot) {
        Some((a, b)) => {
            let after = string_of_range(&v, b, v.len());
            a > 0 && !str_eq(file_name, "..") && str_eq(after.as_str(), "csproj")
        },
        None => false,
    };
    if is_csproj {
        proof {
            reveal_strlit("csproj");
        }
        return Some(ProjectInputKind::Dotnet);
    }
    None
}

} // verus!
