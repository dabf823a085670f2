//! The decisions a scan makes about each project before it reads any
//! dependency: which lockfile must be present, which workflows the
//! configuration refuses, which JavaScript manager owns a project, and how
//! npm aliases and workspace references bind.
use vstd::prelude::*;
use crate::assoc::{StringTable, map_get};
use crate::checks::names;
use crate::config::{PythonEnforcement, SloppyJoeConfig};
use crate::lockfiles::{join, join_strings};
use crate::paths::{
    join_path, opt_text, relative_names, same_path, spec_join, spec_path_parts, spec_relative_names,
};
use crate::lockfiles::npm::NpmSections;
use crate::project::{
    JsPackageManager, ProjectInputKind, ProjectInputSpec, legacy_warning_spec, python_legacy_warning,
};
use crate::report::{Issue, IssueView, Severity, issue_spec, sanitize_for_terminal, sanitized, with_text};
use crate::text::{
    chars_of, push_str, rsplit_once_range, rsplit_once_seq, split_once, find_char, lemma_index_of_bound,
    range_starts_with, str_eq, string_of_range, string_of_str, strip_prefix, concat_all, concat_parts,
};

verus! {

// ---- lockfiles and workflows ----
/// The lockfile a project must have before it is scanned: none; the one
/// its JavaScript manager makes authoritative; a file of that name in the
/// project's directory; the authoritative `Cargo.lock` of its workspace; or
/// `go.sum`, where `go.mod` needs one.
#[derive(Debug)]
pub enum RequiredLockfile {
    NoLockfile,
    JsAuthoritative,
    InProjectDir(&'static str),
    CargoAuthoritative,
    GoSumWhenRequired,
}

pub enum RequiredView {
    NoLockfile,
    JsAuthoritative,
    InProjectDir(Seq<char>),
    CargoAuthoritative,
    GoSumWhenRequired,
}

impl View for RequiredLockfile {
    type V = RequiredView;

    open spec fn view(&self) -> RequiredView {
        match self {
            RequiredLockfile::NoLockfile => RequiredView::NoLockfile,
            RequiredLockfile::JsAuthoritative => RequiredView::JsAuthoritative,
            RequiredLockfile::InProjectDir(n) => RequiredView::InProjectDir(n@),
            RequiredLockfile::CargoAuthoritative => RequiredView::CargoAuthoritative,
            RequiredLockfile::GoSumWhenRequired => RequiredView::GoSumWhenRequired,
        }
    }
}

/// What the first pass decides for a project: the lockfile it needs, and
/// the warnings it raises.
#[derive(Debug)]
pub struct PreflightStep {
    pub lockfile: RequiredLockfile,
    pub warnings: Vec<Issue>,
}

pub open spec fn issue_views(v: Seq<Issue>) -> Seq<IssueView> {
    v.map_values(|i: Issue| i@)
}

pub open spec fn step_view(r: Result<PreflightStep, String>) -> Result<(RequiredView, Seq<IssueView>), Seq<char>> {
    match r {
        Ok(s) => Ok((s.lockfile@, issue_views(s.warnings@))),
        Err(e) => Err(e@),
    }
}

pub open spec fn poetry_only_uv_msg(manifest: Seq<char>) -> Seq<char> {
    "Python manifest '"@ + manifest
        + "' uses the uv workflow, which is not allowed in poetry_only mode. Use Poetry with pyproject.toml + poetry.lock, or relax python_enforcement to prefer_poetry."@
}

pub open spec fn poetry_only_pip_tools_msg(manifest: Seq<char>) -> Seq<char> {
    "Python manifest '"@ + manifest
        + "' uses trusted pip-tools requirements, which are not allowed in poetry_only mode. Use Poetry with pyproject.toml + poetry.lock, or relax python_enforcement to prefer_poetry."@
}

pub open spec fn poetry_only_legacy_msg(manifest: Seq<char>) -> Seq<char> {
    "Legacy Python manifest '"@ + manifest
        + "' is not allowed in poetry_only mode. Migrate this project to Poetry with pyproject.toml + poetry.lock, or relax python_enforcement to prefer_poetry."@
}

pub open spec fn maven_warning(manifest: Seq<char>) -> IssueView {
    with_text(
        issue_spec("<lockfile>"@, names::RESOLUTION_NO_TRUSTED_LOCKFILE@, Severity::Warning),
        "Maven manifest '"@ + manifest
            + "' has no trusted lockfile-backed verification path in sloppy-joe. Resolution-sensitive checks continue with reduced confidence. Gradle dependency locking via gradle.lockfile is recommended when practical."@,
        "Keep Maven and review resolution-sensitive findings manually, or move the build to Gradle with dependency locking if you need strict lockfile enforcement."@,
    )
}

/// By kind: npm needs its manager's authoritative lockfile; Poetry, uv,
/// Ruby, PHP, Gradle and .NET need their lockfile beside the manifest;
/// Cargo its workspace's `Cargo.lock`; Go a `go.sum` where needed. In
/// Poetry-only mode uv, pip-tools and legacy Python manifests are refused;
/// otherwise legacy Python manifests and Maven raise a warning.
pub open spec fn spec_preflight_step(
    kind: ProjectInputKind,
    manifest: Seq<char>,
    enforcement: PythonEnforcement,
) -> Result<(RequiredView, Seq<IssueView>), Seq<char>> {
    let poetry_only = enforcement == PythonEnforcement::PoetryOnly;
    match kind {
        ProjectInputKind::Npm => Ok((RequiredView::JsAuthoritative, Seq::empty())),
        ProjectInputKind::PyProjectPoetry => Ok((RequiredView::InProjectDir("poetry.lock"@), Seq::empty())),
        ProjectInputKind::PyProjectUv => if poetry_only {
            Err(poetry_only_uv_msg(manifest))
        } else {
            Ok((RequiredView::InProjectDir("uv.lock"@), Seq::empty()))
        },
        ProjectInputKind::PyRequirementsTrusted => if poetry_only {
            Err(poetry_only_pip_tools_msg(manifest))
        } else {
            Ok((RequiredView::NoLockfile, Seq::empty()))
        },
        ProjectInputKind::PyRequirements | ProjectInputKind::PyProjectLegacy | ProjectInputKind::PyPipfile
        | ProjectInputKind::PySetupPy | ProjectInputKind::PySetupCfg => if poetry_only {
            Err(poetry_only_legacy_msg(manifest))
        } else {
            Ok((RequiredView::NoLockfile, seq![legacy_warning_spec(manifest, kind)]))
        },
        ProjectInputKind::Cargo => Ok((RequiredView::CargoAuthoritative, Seq::empty())),
        ProjectInputKind::Go => Ok((RequiredView::GoSumWhenRequired, Seq::empty())),
        ProjectInputKind::Ruby => Ok((RequiredView::InProjectDir("Gemfile.lock"@), Seq::empty())),
        ProjectInputKind::Php => Ok((RequiredView::InProjectDir("composer.lock"@), Seq::empty())),
        ProjectInputKind::Gradle => Ok((RequiredView::InProjectDir("gradle.lockfile"@), Seq::empty())),
        ProjectInputKind::Dotnet => Ok((RequiredView::InProjectDir("packages.lock.json"@), Seq::empty())),
        ProjectInputKind::Maven => Ok((RequiredView::NoLockfile, seq![maven_warning(manifest)])),
    }
}

fn step(lockfile: RequiredLockfile) -> (r: Result<PreflightStep, String>)
    ensures
        step_view(r) == Ok::<(RequiredView, Seq<IssueView>), Seq<char>>((lockfile@, Seq::empty())),
{
    let warnings: Vec<Issue> = Vec::new();
    assert(issue_views(warnings@) =~= Seq::<IssueView>::empty());
    Ok(PreflightStep { lockfile, warnings })
}

fn refused(prefix: &str, manifest: &str, rest: &str) -> (r: Result<PreflightStep, String>)
    ensures
        step_view(r) == Err::<(RequiredView, Seq<IssueView>), Seq<char>>(prefix@ + manifest@ + rest@),
{
    let mut m = string_of_str(prefix);
    push_str(&mut m, manifest);
    push_str(&mut m, rest);
    Err(m)
}

/// What the first pass decides for a project (see `spec_preflight_step`).
pub fn preflight_project_step(spec: &ProjectInputSpec, config: &SloppyJoeConfig) -> (r: Result<PreflightStep, String>)
    ensures
        step_view(r) == spec_preflight_step(spec.kind, spec.manifest_path@, config.python_enforcement),
{
    proof {
        reveal_strlit("poetry.lock");
        reveal_strlit("uv.lock");
        reveal_strlit("Gemfile.lock");
        reveal_strlit("composer.lock");
        reveal_strlit("gradle.lockfile");
        reveal_strlit("packages.lock.json");
    }
    let manifest = spec.manifest_path.as_str();
    let poetry_only = config.python_enforcement == PythonEnforcement::PoetryOnly;
    match spec.kind {
        ProjectInputKind::Npm => step(RequiredLockfile::JsAuthoritative),
        ProjectInputKind::PyProjectPoetry => step(RequiredLockfile::InProjectDir("poetry.lock")),
        ProjectInputKind::PyProjectUv => if poetry_only {
            refused(
                "Python manifest '",
                manifest,
                "' uses the uv workflow, which is not allowed in poetry_only mode. Use Poetry with pyproject.toml + poetry.lock, or relax python_enforcement to prefer_poetry.",
            )
        } else {
            step(RequiredLockfile::InProjectDir("uv.lock"))
        },
        ProjectInputKind::PyRequirementsTrusted => if poetry_only {
            refused(
                "Python manifest '",
                manifest,
                "' uses trusted pip-tools requirements, which are not allowed in poetry_only mode. Use Poetry with pyproject.toml + poetry.lock, or relax python_enforcement to prefer_poetry.",
            )
        } else {
            step(RequiredLockfile::NoLockfile)
        },
        ProjectInputKind::PyRequirements | ProjectInputKind::PyProjectLegacy | ProjectInputKind::PyPipfile
        | ProjectInputKind::PySetupPy | ProjectInputKind::PySetupCfg => if poetry_only {
            refused(
                "Legacy Python manifest '",
                manifest,
                "' is not allowed in poetry_only mode. Migrate this project to Poetry with pyproject.toml + poetry.lock, or relax python_enforcement to prefer_poetry.",
            )
        } else {
            let warnings = vec![python_legacy_warning(spec)];
            assert(issue_views(warnings@) =~= seq![legacy_warning_spec(spec.manifest_path@, spec.kind)]);
            Ok(PreflightStep { lockfile: RequiredLockfile::NoLockfile, warnings })
        },
        ProjectInputKind::Cargo => step(RequiredLockfile::CargoAuthoritative),
        ProjectInputKind::Go => step(RequiredLockfile::GoSumWhenRequired),
        ProjectInputKind::Ruby => step(RequiredLockfile::InProjectDir("Gemfile.lock")),
        ProjectInputKind::Php => step(RequiredLockfile::InProjectDir("composer.lock")),
        ProjectInputKind::Gradle => step(RequiredLockfile::InProjectDir("gradle.lockfile")),
        ProjectInputKind::Dotnet => step(RequiredLockfile::InProjectDir("packages.lock.json")),
        ProjectInputKind::Maven => {
            let mut m = string_of_str("Maven manifest '");
            push_str(&mut m, manifest);
            push_str(
                &mut m,
                "' has no trusted lockfile-backed verification path in sloppy-joe. Resolution-sensitive checks continue with reduced confidence. Gradle dependency locking via gradle.lockfile is recommended when practical.",
            );
            let issue = Issue::new("<lockfile>", names::RESOLUTION_NO_TRUSTED_LOCKFILE, Severity::Warning).message(
                m.as_str(),
            ).fix(
                "Keep Maven and review resolution-sensitive findings manually, or move the build to Gradle with dependency locking if you need strict lockfile enforcement.",
            );
            let warnings = vec![issue];
            assert(issue_views(warnings@) =~= seq![maven_warning(spec.manifest_path@)]);
            Ok(PreflightStep { lockfile: RequiredLockfile::NoLockfile, warnings })
        },
    }
}

/// Whether the lockfile a preflight step names must be read: none where it
/// names none, `go.sum` only where `go.mod` needs one, and always
/// otherwise.
pub open spec fn spec_lockfile_needed(required: RequiredView, go_requires_sum: bool) -> bool {
    match required {
        RequiredView::NoLockfile => false,
        RequiredView::GoSumWhenRequired => go_requires_sum,
        _ => true,
    }
}

/// Whether the lockfile a preflight step names must be read (see
/// `spec_lockfile_needed`).
pub fn lockfile_needed(required: &RequiredLockfile, go_requires_sum: bool) -> (b: bool)
    ensures
        b == spec_lockfile_needed(required@, go_requires_sum),
{
    match required {
        RequiredLockfile::NoLockfile => false,
        RequiredLockfile::GoSumWhenRequired => go_requires_sum,
        _ => true,
    }
}

pub open spec fn unreadable_lockfile_msg(path: Seq<char>, detail: Seq<char>, help: Seq<char>) -> Seq<char> {
    "Required lockfile '"@ + path + "' is missing or unreadable: "@ + detail + ". Fix: "@ + help
}

/// The error for a required lockfile at `path` that could not be read,
/// with how to create one for the project's kind (for the kinds that need
/// one).
pub fn unreadable_lockfile_error(kind: ProjectInputKind, path: &str, detail: &str) -> (m: String)
    requires
        kind.spec_missing_lockfile_help() is Some,
    ensures
        m@ == unreadable_lockfile_msg(path@, detail@, kind.spec_missing_lockfile_help()->0),
{
    let help = kind.missing_lockfile_help().unwrap();
    let mut m = string_of_str("Required lockfile '");
    push_str(&mut m, path);
    push_str(&mut m, "' is missing or unreadable: ");
    push_str(&mut m, detail);
    push_str(&mut m, ". Fix: ");
    push_str(&mut m, help);
    m
}

/// The warning for a legacy Python manifest found beside a trusted Poetry
/// or uv project.
pub open spec fn ignored_legacy_warning(candidate: Seq<char>, manifest: Seq<char>, tool: Seq<char>, fix: Seq<char>) -> IssueView {
    with_text(
        issue_spec(candidate, names::RESOLUTION_PYTHON_LEGACY_MANIFEST@, Severity::Warning),
        "Ignoring legacy Python manifest '"@ + candidate + "' because '"@ + manifest + "' is a "@ + tool
            + " project. sloppy-joe prefers the trusted "@ + tool + " workflow as the source of truth for this directory."@,
        fix,
    )
}

pub open spec fn trusted_tool(kind: ProjectInputKind) -> Option<(Seq<char>, Seq<char>)> {
    match kind {
        ProjectInputKind::PyProjectPoetry => Some(
            (
                "Poetry"@,
                "Remove or stop relying on the legacy Python manifest, and keep pyproject.toml + poetry.lock as the single trusted dependency source for this project."@,
            ),
        ),
        ProjectInputKind::PyProjectUv => Some(
            (
                "uv"@,
                "Remove or stop relying on the legacy Python manifest, and keep pyproject.toml + uv.lock as the single trusted dependency source for this project."@,
            ),
        ),
        _ => None,
    }
}

/// For a Poetry or uv project, one warning per legacy Python manifest found
/// in its directory (`legacy_manifests`); none for other kinds.
pub open spec fn spec_preference_warnings(kind: ProjectInputKind, manifest: Seq<char>, legacy: Seq<Seq<char>>) -> Seq<IssueView> {
    match trusted_tool(kind) {
        None => Seq::empty(),
        Some((tool, fix)) => legacy.map_values(|c: Seq<char>| ignored_legacy_warning(c, manifest, tool, fix)),
    }
}

/// The warnings for legacy Python manifests beside a trusted Poetry or uv
/// project (see `spec_preference_warnings`).
pub fn trusted_python_preference_warnings(spec: &ProjectInputSpec, legacy_manifests: &Vec<String>) -> (r: Vec<Issue>)
    ensures
        issue_views(r@) == spec_preference_warnings(
            spec.kind,
            spec.manifest_path@,
            legacy_manifests@.map_values(|s: String| s@),
        ),
{
    let mut out: Vec<Issue> = Vec::new();
    let (tool, fix): (&str, &str) = match spec.kind {
        ProjectInputKind::PyProjectPoetry => (
            "Poetry",
            "Remove or stop relying on the legacy Python manifest, and keep pyproject.toml + poetry.lock as the single trusted dependency source for this project.",
        ),
        ProjectInputKind::PyProjectUv => (
            "uv",
            "Remove or stop relying on the legacy Python manifest, and keep pyproject.toml + uv.lock as the single trusted dependency source for this project.",
        ),
        _ => {
            assert(issue_views(out@) =~= Seq::<IssueView>::empty());
            return out;
        },
    };
    let ghost legacy = legacy_manifests@.map_values(|s: String| s@);
    let mut i: usize = 0;
    while i < legacy_manifests.len()
        invariant
            i <= legacy_manifests@.len(),
            legacy == legacy_manifests@.map_values(|s: String| s@),
            trusted_tool(spec.kind) == Some((tool@, fix@)),
            issue_views(out@) == legacy.subrange(0, i as int).map_values(
                |c: Seq<char>| ignored_legacy_warning(c, spec.manifest_path@, tool@, fix@),
            ),
        decreases legacy_manifests.len() - i,
    {
        let candidate = legacy_manifests[i].as_str();
        let mut m = string_of_str("Ignoring legacy Python manifest '");
        push_str(&mut m, candidate);
        push_str(&mut m, "' because '");
        push_str(&mut m, spec.manifest_path.as_str());
        push_str(&mut m, "' is a ");
        push_str(&mut m, tool);
        push_str(&mut m, " project. sloppy-joe prefers the trusted ");
        push_str(&mut m, tool);
        push_str(&mut m, " workflow as the source of truth for this directory.");
        let issue = Issue::new(candidate, names::RESOLUTION_PYTHON_LEGACY_MANIFEST, Severity::Warning).message(
            m.as_str(),
        ).fix(fix);
        let ghost before = issue_views(out@);
        out.push(issue);
        assert(issue_views(out@) =~= before.push(
            ignored_legacy_warning(legacy[i as int], spec.manifest_path@, tool@, fix@),
        ));
        assert(legacy.subrange(0, i + 1).map_values(
            |c: Seq<char>| ignored_legacy_warning(c, spec.manifest_path@, tool@, fix@),
        ) =~= legacy.subrange(0, i as int).map_values(
            |c: Seq<char>| ignored_legacy_warning(c, spec.manifest_path@, tool@, fix@),
        ).push(ignored_legacy_warning(legacy[i as int], spec.manifest_path@, tool@, fix@)));
        i = i + 1;
    }
    assert(legacy.subrange(0, legacy.len() as int) == legacy);
    out
}

// ---- JavaScript managers ----
/// The files whose presence in a project root names its manager, in the
/// order they are looked for.
pub open spec fn spec_manager_markers() -> Seq<(Seq<char>, JsPackageManager)> {
    seq![
        ("pnpm-lock.yaml"@, JsPackageManager::Pnpm),
        ("pnpm-workspace.yaml"@, JsPackageManager::Pnpm),
        ("yarn.lock"@, JsPackageManager::Yarn),
        (".pnp.cjs"@, JsPackageManager::Yarn),
        ("bun.lock"@, JsPackageManager::Bun),
        ("bun.lockb"@, JsPackageManager::Bun),
        ("npm-shrinkwrap.json"@, JsPackageManager::Npm),
        ("package-lock.json"@, JsPackageManager::Npm),
    ]
}

/// The files whose presence names a project's manager (see
/// `spec_manager_markers`).
pub fn js_manager_markers() -> (r: Vec<(&'static str, JsPackageManager)>)
    ensures
        r@.map_values(|p: (&'static str, JsPackageManager)| (p.0@, p.1)) == spec_manager_markers(),
{
    let r = vec![
        ("pnpm-lock.yaml", JsPackageManager::Pnpm),
        ("pnpm-workspace.yaml", JsPackageManager::Pnpm),
        ("yarn.lock", JsPackageManager::Yarn),
        (".pnp.cjs", JsPackageManager::Yarn),
        ("bun.lock", JsPackageManager::Bun),
        ("bun.lockb", JsPackageManager::Bun),
        ("npm-shrinkwrap.json", JsPackageManager::Npm),
        ("package-lock.json", JsPackageManager::Npm),
    ];
    assert(r@.map_values(|p: (&'static str, JsPackageManager)| (p.0@, p.1)) =~= spec_manager_markers());
    r
}

/// The manager that a `packageManager` value (`name@version`) names.
pub open spec fn manager_named(name: Seq<char>) -> Option<JsPackageManager> {
    if name == "npm"@ {
        Some(JsPackageManager::Npm)
    } else if name == "pnpm"@ {
        Some(JsPackageManager::Pnpm)
    } else if name == "yarn"@ {
        Some(JsPackageManager::Yarn)
    } else if name == "bun"@ {
        Some(JsPackageManager::Bun)
    } else {
        None
    }
}

/// The name part of a `packageManager` value: what precedes the first `@`.
pub open spec fn manager_name_part(value: Seq<char>) -> Seq<char> {
    match split_once(value, '@') {
        Some((name, _)) => name,
        None => value,
    }
}

pub open spec fn signal_text(s: (JsPackageManager, Seq<char>)) -> Seq<char> {
    s.0.spec_name() + " via "@ + s.1
}

/// Some signal names another manager than the first.
pub open spec fn conflicting(signals: Seq<(JsPackageManager, Seq<char>)>) -> bool {
    exists|i: int| 0 <= i < signals.len() && #[trigger] signals[i].0 != signals[0].0
}

/// The manager of a JavaScript project root: every signal (its
/// `packageManager`, then the marker files present, each with where it was
/// seen) must name the same manager, npm where there is none; a
/// `packageManager` that names no known manager is refused.
pub open spec fn spec_detect_manager(
    manifest: Seq<char>,
    package_manager: Option<Seq<char>>,
    markers: Seq<(JsPackageManager, Seq<char>)>,
) -> Result<JsPackageManager, Seq<char>> {
    let declared = match package_manager {
        None => Ok(Seq::<(JsPackageManager, Seq<char>)>::empty()),
        Some(v) => match manager_named(manager_name_part(v)) {
            None => Err(
                "package.json '"@ + manifest + "' declares unsupported packageManager '"@ + manager_name_part(v)
                    + "'. sloppy-joe only understands npm, pnpm, yarn, and bun at the JS manager layer."@,
            ),
            Some(m) => Ok(seq![(m, "packageManager in '"@ + manifest + "'"@)]),
        },
    };
    match declared {
        Err(e) => Err(e),
        Ok(first) => {
            let signals = first + markers;
            if conflicting(signals) {
                Err(
                    "JS project rooted at '"@ + manifest + "' has conflicting package-manager signals: "@ + join(
                        signals.map_values(|s: (JsPackageManager, Seq<char>)| signal_text(s)),
                        ", "@,
                    ) + ". sloppy-joe requires one authoritative JS manager per root."@,
                )
            } else if signals.len() == 0 {
                Ok(JsPackageManager::Npm)
            } else {
                Ok(signals[0].0)
            }
        },
    }
}

pub open spec fn signals_view(s: Seq<(JsPackageManager, String)>) -> Seq<(JsPackageManager, Seq<char>)> {
    s.map_values(|p: (JsPackageManager, String)| (p.0, p.1@))
}

fn manager_from_name(name: &str) -> (r: Option<JsPackageManager>)
    ensures
        r == manager_named(name@),
{
    proof {
        reveal_strlit("npm");
        reveal_strlit("pnpm");
        reveal_strlit("yarn");
        reveal_strlit("bun");
    }
    if str_eq(name, "npm") {
        Some(JsPackageManager::Npm)
    } else if str_eq(name, "pnpm") {
        Some(JsPackageManager::Pnpm)
    } else if str_eq(name, "yarn") {
        Some(JsPackageManager::Yarn)
    } else if str_eq(name, "bun") {
        Some(JsPackageManager::Bun)
    } else {
        None
    }
}

fn has_conflict(signals: &Vec<(JsPackageManager, String)>) -> (b: bool)
    requires
        signals@.len() > 0,
    ensures
        b == conflicting(signals_view(signals@)),
{
    let ghost all = signals_view(signals@);
    let lead = signals[0].0;
    let mut j: usize = 0;
    while j < signals.len()
        invariant
            j <= signals@.len(),
            signals@.len() > 0,
            all == signals_view(signals@),
            lead == all[0].0,
            forall|k: int| 0 <= k < j ==> #[trigger] all[k].0 == all[0].0,
        decreases signals.len() - j,
    {
        if signals[j].0 != lead {
            assert(all[j as int].0 != all[0].0);
            return true;
        }
        j = j + 1;
    }
    false
}

/// The manager of a JavaScript project root (see `spec_detect_manager`).
/// `marker_signals` holds, in the order of `js_manager_markers`, the
/// manager of each marker file present and where it was found.
pub fn detect_js_manager(
    manifest_path: &str,
    package_manager: Option<&str>,
    marker_signals: &Vec<(JsPackageManager, String)>,
) -> (r: Result<JsPackageManager, String>)
    ensures
        match r {
            Ok(m) => spec_detect_manager(
                manifest_path@,
                match package_manager {
                    Some(v) => Some(v@),
                    None => None,
                },
                signals_view(marker_signals@),
            ) == Ok::<JsPackageManager, Seq<char>>(m),
            Err(e) => spec_detect_manager(
                manifest_path@,
                match package_manager {
                    Some(v) => Some(v@),
                    None => None,
                },
                signals_view(marker_signals@),
            ) == Err::<JsPackageManager, Seq<char>>(e@),
        },
{
    let ghost pm = match package_manager {
        Some(v) => Some(v@),
        None => None,
    };
    let mut signals: Vec<(JsPackageManager, String)> = Vec::new();
    assert(signals_view(signals@) =~= Seq::<(JsPackageManager, Seq<char>)>::empty());
    if let Some(value) = package_manager {
        let v = chars_of(value);
        let k = find_char(&v, 0, v.len(), '@');
        proof {
            assert(v@.subrange(0, v@.len() as int) == v@);
            lemma_index_of_bound(v@, '@');
        }
        let name = string_of_range(&v, 0, k);
        assert(name@ == manager_name_part(value@));
        match manager_from_name(name.as_str()) {
            None => {
                let mut m = string_of_str("package.json '");
                push_str(&mut m, manifest_path);
                push_str(&mut m, "' declares unsupported packageManager '");
                push_str(&mut m, name.as_str());
                push_str(
                    &mut m,
                    "'. sloppy-joe only understands npm, pnpm, yarn, and bun at the JS manager layer.",
                );
                return Err(m);
            },
            Some(mgr) => {
                let mut where_ = string_of_str("packageManager in '");
                push_str(&mut where_, manifest_path);
                push_str(&mut where_, "'");
                signals.push((mgr, where_));
                assert(signals_view(signals@) =~= seq![(mgr, "packageManager in '"@ + manifest_path@ + "'"@)]);
            },
        }
    }
    let ghost first = signals_view(signals@);
    assert(spec_detect_manager(manifest_path@, pm, signals_view(marker_signals@)) == {
        let signals = first + signals_view(marker_signals@);
        if conflicting(signals) {
            Err(
                "JS project rooted at '"@ + manifest_path@ + "' has conflicting package-manager signals: "@ + join(
                    signals.map_values(|s: (JsPackageManager, Seq<char>)| signal_text(s)),
                    ", "@,
                ) + ". sloppy-joe requires one authoritative JS manager per root."@,
            )
        } else if signals.len() == 0 {
            Ok(JsPackageManager::Npm)
        } else {
            Ok(signals[0].0)
        }
    });
    let mut i: usize = 0;
    while i < marker_signals.len()
        invariant
            i <= marker_signals@.len(),
            signals_view(signals@) == first + signals_view(marker_signals@).subrange(0, i as int),
        decreases marker_signals.len() - i,
    {
        let ghost before = signals_view(signals@);
        signals.push((marker_signals[i].0, marker_signals[i].1.clone()));
        assert(signals_view(signals@) =~= before.push((marker_signals@[i as int].0, marker_signals@[i as int].1@)));
        assert(signals_view(marker_signals@).subrange(0, i + 1) =~= signals_view(marker_signals@).subrange(
            0,
            i as int,
        ).push((marker_signals@[i as int].0, marker_signals@[i as int].1@)));
        i = i + 1;
    }
    assert(signals_view(marker_signals@).subrange(0, marker_signals@.len() as int) == signals_view(marker_signals@));
    let ghost all = signals_view(signals@);
    if signals.len() == 0 {
        return Ok(JsPackageManager::Npm);
    }
    let lead = signals[0].0;
    if !has_conflict(&signals) {
        return Ok(lead);
    }
    let mut details = String::new();
    let mut k: usize = 0;
    let ghost texts = all.map_values(|s: (JsPackageManager, Seq<char>)| signal_text(s));
    while k < signals.len()
        invariant
            k <= signals@.len(),
            all == signals_view(signals@),
            texts == all.map_values(|s: (JsPackageManager, Seq<char>)| signal_text(s)),
            details@ == join(texts.subrange(0, k as int), ", "@),
        decreases signals.len() - k,
    {
        let ghost pre = texts.subrange(0, k as int);
        assert(texts.subrange(0, k + 1).drop_last() == pre);
        if k > 0 {
            push_str(&mut details, ", ");
        } else {
            assert(details@ == Seq::<char>::empty());
        }
        push_str(&mut details, signals[k].0.as_str());
        push_str(&mut details, " via ");
        push_str(&mut details, signals[k].1.as_str());
        assert(texts[k as int] == signal_text(all[k as int]));
        k = k + 1;
    }
    assert(texts.subrange(0, texts.len() as int) == texts);
    let mut m = string_of_str("JS project rooted at '");
    push_str(&mut m, manifest_path);
    push_str(&mut m, "' has conflicting package-manager signals: ");
    push_str(&mut m, details.as_str());
    push_str(&mut m, ". sloppy-joe requires one authoritative JS manager per root.");
    Err(m)
}

// ---- npm workspace keys and aliases ----
/// A project's key among its npm root's packages: its directory's names
/// below the root's directory, joined with `/`. A project outside the
/// root, or the root itself, has none.
pub open spec fn spec_entry_key(root_dir: Seq<char>, project_dir: Seq<char>) -> Result<Seq<char>, Seq<char>> {
    match spec_relative_names(project_dir, root_dir) {
        None => Err("Path '"@ + project_dir + "' is outside npm root '"@ + root_dir + "'."@),
        Some(names) => if join(names, "/"@).len() == 0 {
            Err(
                "Could not derive npm workspace entry key for '"@ + project_dir + "' relative to '"@ + root_dir
                    + "'."@,
            )
        } else {
            Ok(join(names, "/"@))
        },
    }
}

/// A project's key among its npm root's packages (see `spec_entry_key`),
/// from the canonical directories of the root and the project.
pub fn relative_package_entry_key(root_dir: &str, canonical_project_dir: &str) -> (r: Result<String, String>)
    ensures
        match r {
            Ok(k) => spec_entry_key(root_dir@, canonical_project_dir@) == Ok::<Seq<char>, Seq<char>>(k@),
            Err(e) => spec_entry_key(root_dir@, canonical_project_dir@) == Err::<Seq<char>, Seq<char>>(e@),
        },
{
    match relative_names(canonical_project_dir, root_dir) {
        None => {
            let m = concat_parts(&["Path '", canonical_project_dir, "' is outside npm root '", root_dir, "'."]);
            proof {
                reveal_with_fuel(concat_all, 6);
            }
            Err(m)
        },
        Some(names) => {
            let key = join_strings(&names, "/");
            proof {
                reveal_strlit("/");
                assert(crate::lockfiles::strings_view(names@) == crate::workspace::strs(names@));
            }
            if key.unicode_len() == 0 {
                let m = concat_parts(
                    &[
                        "Could not derive npm workspace entry key for '",
                        canonical_project_dir,
                        "' relative to '",
                        root_dir,
                        "'.",
                    ],
                );
                proof {
                    reveal_with_fuel(concat_all, 6);
                }
                return Err(m);
            }
            Ok(key)
        },
    }
}

pub open spec fn strs(v: Seq<String>) -> Seq<Seq<char>> {
    v.map_values(|s: String| s@)
}

pub open spec fn pairs_view(v: Seq<(String, String)>) -> Seq<(Seq<char>, Seq<char>)> {
    v.map_values(|p: (String, String)| (p.0@, p.1@))
}

/// A manifest's declarations, section after section (`dependencies`,
/// `devDependencies`, `optionalDependencies`, `peerDependencies`).
pub open spec fn spec_npm_entries(m: NpmSections) -> Seq<(Seq<char>, Seq<char>)> {
    pairs_view(m.dependencies@) + pairs_view(m.dev_dependencies@) + pairs_view(m.optional_dependencies@)
        + pairs_view(m.peer_dependencies@)
}

fn append_pairs(out: &mut Vec<(String, String)>, v: &Vec<(String, String)>)
    ensures
        pairs_view(final(out)@) == pairs_view(old(out)@) + pairs_view(v@),
{
    let ghost start = pairs_view(out@);
    let mut i: usize = 0;
    while i < v.len()
        invariant
            i <= v@.len(),
            pairs_view(out@) == start + pairs_view(v@).subrange(0, i as int),
        decreases v.len() - i,
    {
        let ghost before = pairs_view(out@);
        out.push((v[i].0.clone(), v[i].1.clone()));
        assert(pairs_view(out@) =~= before.push((v@[i as int].0@, v@[i as int].1@)));
        assert(pairs_view(v@).subrange(0, i + 1) =~= pairs_view(v@).subrange(0, i as int).push(
            (v@[i as int].0@, v@[i as int].1@),
        ));
        i = i + 1;
    }
    assert(pairs_view(v@).subrange(0, v@.len() as int) == pairs_view(v@));
}

/// A manifest's declarations, section after section.
pub fn npm_dependency_entries(manifest: &NpmSections) -> (r: Vec<(String, String)>)
    ensures
        pairs_view(r@) == spec_npm_entries(*manifest),
{
    let mut out: Vec<(String, String)> = Vec::new();
    assert(pairs_view(out@) =~= Seq::<(Seq<char>, Seq<char>)>::empty());
    append_pairs(&mut out, &manifest.dependencies);
    append_pairs(&mut out, &manifest.dev_dependencies);
    append_pairs(&mut out, &manifest.optional_dependencies);
    append_pairs(&mut out, &manifest.peer_dependencies);
    assert(pairs_view(out@) =~= spec_npm_entries(*manifest));
    out
}

/// Binding a manifest's aliases (`npm:<package>@<version>` declarations)
/// under one lockfile, in order: every alias must name its package, and
/// each alias name must keep one package across the lockfile's manifests.
pub open spec fn alias_fold(
    bound: Map<Seq<char>, Seq<char>>,
    entries: Seq<(Seq<char>, Seq<char>)>,
    manifest: Seq<char>,
    lockfile: Seq<char>,
) -> Result<Map<Seq<char>, Seq<char>>, Seq<char>>
    decreases entries.len(),
{
    if entries.len() == 0 {
        Ok(bound)
    } else {
        let (alias, raw) = entries[0];
        match strip_prefix(raw, "npm:"@) {
            None => alias_fold(bound, entries.drop_first(), manifest, lockfile),
            Some(spec) => match rsplit_once_seq(spec, "@"@) {
                None => Err(
                    "Unsupported npm alias '"@ + sanitized(raw) + "' in "@ + manifest
                        + ": expected npm:<package>@<version>"@,
                ),
                Some((target, _)) => if bound.dom().contains(alias) && bound[alias] != target {
                    Err(
                        "Npm alias '"@ + alias + "' resolves to both '"@ + bound[alias] + "' and '"@ + target
                            + "' under authoritative lockfile '"@ + lockfile
                            + "'. sloppy-joe requires alias bindings to be unique per lockfile."@,
                    )
                } else {
                    alias_fold(bound.insert(alias, target), entries.drop_first(), manifest, lockfile)
                },
            },
        }
    }
}

/// Binds a manifest's npm aliases under its lockfile (see `alias_fold`);
/// on an error the table is left in some intermediate state.
pub fn collect_npm_alias_targets(
    aliases: &mut StringTable,
    entries: &Vec<(String, String)>,
    manifest_path: &str,
    lockfile_path: &str,
) -> (r: Result<(), String>)
    requires
        old(aliases).wf(),
    ensures
        final(aliases).wf(),
        match alias_fold(old(aliases)@, pairs_view(entries@), manifest_path@, lockfile_path@) {
            Ok(m) => r is Ok && final(aliases)@ == m,
            Err(e) => r matches Err(x) && x@ == e,
        },
{
    proof {
        reveal_strlit("npm:");
        reveal_strlit("@");
    }
    let ghost target = alias_fold(aliases@, pairs_view(entries@), manifest_path@, lockfile_path@);
    let ghost pv = pairs_view(entries@);
    let npm = chars_of("npm:");
    let at = chars_of("@");
    assert(npm@.len() == 4);
    let mut i: usize = 0;
    assert(pv.subrange(0, pv.len() as int) == pv);
    while i < entries.len()
        invariant
            i <= entries@.len(),
            aliases.wf(),
            pv == pairs_view(entries@),
            npm@ == "npm:"@,
            npm@.len() == 4,
            at@ == "@"@,
            target == alias_fold(old(aliases)@, pairs_view(entries@), manifest_path@, lockfile_path@),
            target == alias_fold(aliases@, pv.subrange(i as int, pv.len() as int), manifest_path@, lockfile_path@),
        decreases entries.len() - i,
    {
        let ghost rest = pv.subrange(i as int, pv.len() as int);
        assert(rest[0] == pv[i as int]);
        assert(rest.drop_first() == pv.subrange(i + 1, pv.len() as int));
        let alias = &entries[i].0;
        let raw = &entries[i].1;
        let v = chars_of(raw.as_str());
        assert(v@.subrange(0, v@.len() as int) == v@);
        if range_starts_with(&v, 0, v.len(), &npm) {
            assert(v@.len() >= 4);
            assert(v@.subrange(4, v@.len() as int) == strip_prefix(raw@, "npm:"@)->0);
            match rsplit_once_range(&v, 4, v.len(), &at) {
                None => {
                    let mut m = string_of_str("Unsupported npm alias '");
                    push_str(&mut m, sanitize_for_terminal(raw.as_str()).as_str());
                    push_str(&mut m, "' in ");
                    push_str(&mut m, manifest_path);
                    push_str(&mut m, ": expected npm:<package>@<version>");
                    return Err(m);
                },
                Some((a, _)) => {
                    let target_name = string_of_range(&v, 4, a);
                    match aliases.get(alias.as_str()) {
                        Some(existing) => {
                            if !str_eq(existing.as_str(), target_name.as_str()) {
                                let mut m = string_of_str("Npm alias '");
                                push_str(&mut m, alias.as_str());
                                push_str(&mut m, "' resolves to both '");
                                push_str(&mut m, existing.as_str());
                                push_str(&mut m, "' and '");
                                push_str(&mut m, target_name.as_str());
                                push_str(&mut m, "' under authoritative lockfile '");
                                push_str(&mut m, lockfile_path);
                                push_str(
                                    &mut m,
                                    "'. sloppy-joe requires alias bindings to be unique per lockfile.",
                                );
                                return Err(m);
                            }
                        },
                        None => {},
                    }
                    aliases.insert(alias.clone(), target_name);
                },
            }
        }
        i = i + 1;
    }
    Ok(())
}

// ---- workspace references ----
pub open spec fn manager_label(m: JsPackageManager) -> Seq<char> {
    match m {
        JsPackageManager::Npm => "npm"@,
        JsPackageManager::Pnpm => "pnpm"@,
        JsPackageManager::Yarn => "Yarn"@,
        JsPackageManager::Bun => "Bun"@,
    }
}

pub open spec fn no_root_text(m: JsPackageManager) -> Seq<char> {
    match m {
        JsPackageManager::Npm => "no ancestor package.json with a matching npm workspaces declaration"@,
        JsPackageManager::Pnpm => "no ancestor pnpm-workspace.yaml with a matching packages declaration"@,
        JsPackageManager::Yarn => "no ancestor Yarn workspace root with a matching workspaces declaration"@,
        JsPackageManager::Bun => "no ancestor Bun workspace root with a matching workspaces declaration"@,
    }
}

pub open spec fn none_text(m: JsPackageManager) -> Seq<char> {
    match m {
        JsPackageManager::Npm => "' does not resolve to any scanned package declared by the workspaces in '"@,
        _ => "' does not resolve to any workspace package declared by '"@,
    }
}

pub open spec fn none_fix(m: JsPackageManager) -> Seq<char> {
    match m {
        JsPackageManager::Npm => "'. Keep workspace targets inside the declared npm workspaces set, or remove the workspace reference."@,
        JsPackageManager::Pnpm => "'. Keep workspace targets inside pnpm-workspace.yaml, or remove the workspace reference."@,
        JsPackageManager::Yarn => "'. Keep workspace targets inside the Yarn workspaces set, or remove the workspace reference."@,
        JsPackageManager::Bun => "'. Keep workspace targets inside the Bun workspaces set, or remove the workspace reference."@,
    }
}

pub open spec fn many_text(m: JsPackageManager) -> Seq<char> {
    match m {
        JsPackageManager::Npm => "' resolves ambiguously to multiple scanned packages declared by the workspaces in '"@,
        _ => "' resolves ambiguously to multiple workspace packages declared by '"@,
    }
}

pub open spec fn many_fix(m: JsPackageManager) -> Seq<char> {
    match m {
        JsPackageManager::Npm => "'. Each workspace package name must be unique within the workspace root."@,
        JsPackageManager::Pnpm => "'. Each pnpm workspace package name must be unique."@,
        JsPackageManager::Yarn => "'. Each Yarn workspace package name must be unique within the workspace root."@,
        JsPackageManager::Bun => "'. Each Bun workspace package name must be unique within the workspace root."@,
    }
}

/// A `workspace:` dependency must bind to exactly one package of the
/// nearest workspace root: without a root it is refused, and with no
/// candidate or several it is refused, naming what declares the
/// workspace (`declared_by`).
pub open spec fn spec_workspace_target(
    manager: JsPackageManager,
    dep: Seq<char>,
    manifest: Seq<char>,
    declared_by: Option<Seq<char>>,
    matches: Seq<Seq<char>>,
) -> Result<Seq<char>, Seq<char>> {
    let lead = "Local "@ + manager_label(manager) + " dependency '"@ + dep + "' in '"@ + manifest;
    match declared_by {
        None => Err(
            lead + "' uses workspace:, but "@ + no_root_text(manager)
                + " was found. Scan the workspace root, or replace the workspace reference with a dependency source sloppy-joe can verify exactly."@,
        ),
        Some(root) => if matches.len() == 1 {
            Ok(matches[0])
        } else if matches.len() == 0 {
            Err(lead + none_text(manager) + root + none_fix(manager))
        } else {
            Err(lead + many_text(manager) + root + many_fix(manager))
        },
    }
}

pub(crate) fn manager_label_exec(m: JsPackageManager) -> (s: &'static str)
    ensures
        s@ == manager_label(m),
{
    match m {
        JsPackageManager::Npm => "npm",
        JsPackageManager::Pnpm => "pnpm",
        JsPackageManager::Yarn => "Yarn",
        JsPackageManager::Bun => "Bun",
    }
}

/// The package a `workspace:` dependency binds to (see
/// `spec_workspace_target`): `declared_by` is what declares the nearest
/// workspace root of the manager, if there is one, and `matches` the
/// canonical directories of the root's other packages with the
/// dependency's name.
pub fn workspace_dependency_target(
    manager: JsPackageManager,
    dep_name: &str,
    manifest_path: &str,
    declared_by: Option<&str>,
    matches: &Vec<String>,
) -> (r: Result<String, String>)
    ensures
        match r {
            Ok(t) => spec_workspace_target(
                manager,
                dep_name@,
                manifest_path@,
                match declared_by {
                    Some(d) => Some(d@),
                    None => None,
                },
                strs(matches@),
            ) == Ok::<Seq<char>, Seq<char>>(t@),
            Err(e) => spec_workspace_target(
                manager,
                dep_name@,
                manifest_path@,
                match declared_by {
                    Some(d) => Some(d@),
                    None => None,
                },
                strs(matches@),
            ) == Err::<Seq<char>, Seq<char>>(e@),
        },
{
    let mut m = string_of_str("Local ");
    push_str(&mut m, manager_label_exec(manager));
    push_str(&mut m, " dependency '");
    push_str(&mut m, dep_name);
    push_str(&mut m, "' in '");
    push_str(&mut m, manifest_path);
    let Some(root) = declared_by else {
        push_str(&mut m, "' uses workspace:, but ");
        push_str(
            &mut m,
            match manager {
                JsPackageManager::Npm => "no ancestor package.json with a matching npm workspaces declaration",
                JsPackageManager::Pnpm => "no ancestor pnpm-workspace.yaml with a matching packages declaration",
                JsPackageManager::Yarn => "no ancestor Yarn workspace root with a matching workspaces declaration",
                JsPackageManager::Bun => "no ancestor Bun workspace root with a matching workspaces declaration",
            },
        );
        push_str(
            &mut m,
            " was found. Scan the workspace root, or replace the workspace reference with a dependency source sloppy-joe can verify exactly.",
        );
        return Err(m);
    };
    if matches.len() == 1 {
        return Ok(matches[0].clone());
    }
    if matches.len() == 0 {
        push_str(
            &mut m,
            match manager {
                JsPackageManager::Npm => "' does not resolve to any scanned package declared by the workspaces in '",
                _ => "' does not resolve to any workspace package declared by '",
            },
        );
        push_str(&mut m, root);
        push_str(
            &mut m,
            match manager {
                JsPackageManager::Npm => "'. Keep workspace targets inside the declared npm workspaces set, or remove the workspace reference.",
                JsPackageManager::Pnpm => "'. Keep workspace targets inside pnpm-workspace.yaml, or remove the workspace reference.",
                JsPackageManager::Yarn => "'. Keep workspace targets inside the Yarn workspaces set, or remove the workspace reference.",
                JsPackageManager::Bun => "'. Keep workspace targets inside the Bun workspaces set, or remove the workspace reference.",
            },
        );
        return Err(m);
    }
    push_str(
        &mut m,
        match manager {
            JsPackageManager::Npm => "' resolves ambiguously to multiple scanned packages declared by the workspaces in '",
            _ => "' resolves ambiguously to multiple workspace packages declared by '",
        },
    );
    push_str(&mut m, root);
    push_str(
        &mut m,
        match manager {
            JsPackageManager::Npm => "'. Each workspace package name must be unique within the workspace root.",
            JsPackageManager::Pnpm => "'. Each pnpm workspace package name must be unique.",
            JsPackageManager::Yarn => "'. Each Yarn workspace package name must be unique within the workspace root.",
            JsPackageManager::Bun => "'. Each Bun workspace package name must be unique within the workspace root.",
        },
    );
    Err(m)
}

// ---- a JavaScript project's binding ----
/// The lockfile names each manager writes, in the order a scan looks for
/// them.
pub open spec fn manager_lockfile_names(m: JsPackageManager) -> Seq<Seq<char>> {
    match m {
        JsPackageManager::Npm => seq!["npm-shrinkwrap.json"@, "package-lock.json"@],
        JsPackageManager::Pnpm => seq!["pnpm-lock.yaml"@],
        JsPackageManager::Yarn => seq!["yarn.lock"@],
        JsPackageManager::Bun => seq!["bun.lock"@, "bun.lockb"@],
    }
}

pub open spec fn first_present(names: Seq<Seq<char>>, present: Seq<Seq<char>>) -> Option<Seq<char>>
    decreases names.len(),
{
    if names.len() == 0 {
        None
    } else if present.contains(names[0]) {
        Some(names[0])
    } else {
        first_present(names.drop_first(), present)
    }
}

/// The lockfile a JavaScript root is bound to: the first of its manager's
/// lockfile names that is present in the root's directory.
pub open spec fn spec_js_lockfile(m: JsPackageManager, root_dir: Seq<char>, present: Seq<Seq<char>>) -> Option<Seq<char>> {
    match first_present(manager_lockfile_names(m), present) {
        Some(n) => Some(spec_join(root_dir, n)),
        None => None,
    }
}

/// The lockfile a JavaScript root is bound to (see `spec_js_lockfile`);
/// `present` lists the file names found in `root_dir`.
pub fn js_manager_lockfile(manager: JsPackageManager, root_dir: &str, present: &Vec<String>) -> (r: Option<String>)
    ensures
        opt_text(r) == spec_js_lockfile(manager, root_dir@, strs(present@)),
{
    let names: Vec<&str> = match manager {
        JsPackageManager::Npm => vec!["npm-shrinkwrap.json", "package-lock.json"],
        JsPackageManager::Pnpm => vec!["pnpm-lock.yaml"],
        JsPackageManager::Yarn => vec!["yarn.lock"],
        JsPackageManager::Bun => vec!["bun.lock", "bun.lockb"],
    };
    let ghost nv = names@.map_values(|n: &str| n@);
    assert(nv =~= manager_lockfile_names(manager));
    let ghost pv = strs(present@);
    let mut i: usize = 0;
    assert(nv.subrange(0, nv.len() as int) == nv);
    while i < names.len()
        invariant
            i <= names@.len(),
            nv == names@.map_values(|n: &str| n@),
            nv == manager_lockfile_names(manager),
            pv == strs(present@),
            first_present(nv, pv) == first_present(nv.subrange(i as int, nv.len() as int), pv),
        decreases names.len() - i,
    {
        let ghost rest = nv.subrange(i as int, nv.len() as int);
        assert(rest[0] == names@[i as int]@);
        let mut found = false;
        let mut k: usize = 0;
        while k < present.len()
            invariant
                k <= present@.len(),
                i < names@.len(),
                pv == strs(present@),
                nv == names@.map_values(|n: &str| n@),
                first_present(nv, pv) == first_present(nv.subrange(i as int, nv.len() as int), pv),
                found <==> exists|q: int| 0 <= q < k && #[trigger] present@[q]@ == names@[i as int]@,
            decreases present.len() - k,
        {
            if str_eq(present[k].as_str(), names[i]) {
                found = true;
            }
            k = k + 1;
        }
        if found {
            proof {
                let q = choose|q: int| 0 <= q < present@.len() && #[trigger] present@[q]@ == names@[i as int]@;
                assert(pv[q] == rest[0]);
                assert(pv.contains(rest[0]));
                assert(first_present(rest, pv) == Some(rest[0]));
            }
            return Some(join_path(root_dir, names[i]));
        }
        proof {
            assert forall|q: int| 0 <= q < pv.len() implies pv[q] != rest[0] by {
                assert(pv[q] == present@[q]@);
            }
            assert(rest.drop_first() == nv.subrange(i + 1, nv.len() as int));
        }
        i = i + 1;
    }
    None
}

/// A JavaScript project's key in its root's lockfile: `.` (for pnpm) or
/// empty when it is the root itself; else its key among the root's
/// packages (see `spec_entry_key`).
pub open spec fn spec_binding_key(m: JsPackageManager, root_dir: Seq<char>, project_dir: Seq<char>) -> Result<
    Seq<char>,
    Seq<char>,
> {
    if spec_path_parts(project_dir) == spec_path_parts(root_dir) {
        Ok(
            if m == JsPackageManager::Pnpm {
                "."@
            } else {
                Seq::empty()
            },
        )
    } else {
        spec_entry_key(root_dir, project_dir)
    }
}

/// A JavaScript project's key in its root's lockfile (see
/// `spec_binding_key`), from the canonical directories of the root and the
/// project.
pub fn js_package_entry_key(manager: JsPackageManager, canonical_root_dir: &str, canonical_project_dir: &str) -> (r:
    Result<String, String>)
    ensures
        match r {
            Ok(k) => spec_binding_key(manager, canonical_root_dir@, canonical_project_dir@) == Ok::<
                Seq<char>,
                Seq<char>,
            >(k@),
            Err(e) => spec_binding_key(manager, canonical_root_dir@, canonical_project_dir@) == Err::<
                Seq<char>,
                Seq<char>,
            >(e@),
        },
{
    if same_path(canonical_project_dir, canonical_root_dir) {
        proof {
            reveal_strlit(".");
            reveal_strlit("");
        }
        if manager == JsPackageManager::Pnpm {
            return Ok(string_of_str("."));
        }
        let e = string_of_str("");
        assert(e@ =~= Seq::<char>::empty());
        return Ok(e);
    }
    relative_package_entry_key(canonical_root_dir, canonical_project_dir)
}

/// npm `overrides` rewrite the resolved graph, which no check here can
/// verify: a manifest that uses them is refused.
pub open spec fn spec_manifest_security_policy(manifest_path: Seq<char>, has_overrides: bool) -> Result<(), Seq<char>> {
    if has_overrides {
        Err(
            "package.json '"@ + manifest_path
                + "' uses npm overrides. Overrides change the resolved dependency graph, and sloppy-joe does not yet have strict override verification. Remove overrides or review this project with another control until strict support exists."@,
        )
    } else {
        Ok(())
    }
}

/// Refuses a manifest with npm `overrides` (see
/// `spec_manifest_security_policy`); `has_overrides` says whether the
/// manifest has the key.
pub fn validate_npm_manifest_security_policy(manifest_path: &str, has_overrides: bool) -> (r: Result<(), String>)
    ensures
        match spec_manifest_security_policy(manifest_path@, has_overrides) {
            Ok(()) => r is Ok,
            Err(e) => r matches Err(x) && x@ == e,
        },
{
    if has_overrides {
        let m = concat_parts(
            &[
                "package.json '",
                manifest_path,
                "' uses npm overrides. Overrides change the resolved dependency graph, and sloppy-joe does not yet have strict override verification. Remove overrides or review this project with another control until strict support exists.",
            ],
        );
        proof {
            reveal_with_fuel(concat_all, 4);
        }
        return Err(m);
    }
    Ok(())
}

/// Every project kind that has a lockfile to create (its
/// `missing_lockfile_help`) is held to a lockfile by its first-pass step:
/// the step, where it succeeds, names one that must be read (for Go,
/// whenever `go.mod` requires a module).
pub proof fn lemma_lockfile_kinds_need_their_lockfile(
    kind: ProjectInputKind,
    manifest: Seq<char>,
    enforcement: PythonEnforcement,
)
    requires
        kind.spec_missing_lockfile_help() is Some,
        spec_preflight_step(kind, manifest, enforcement) is Ok,
    ensures
        spec_lockfile_needed(spec_preflight_step(kind, manifest, enforcement)->Ok_0.0, true),
        kind != ProjectInputKind::Go ==> spec_lockfile_needed(
            spec_preflight_step(kind, manifest, enforcement)->Ok_0.0,
            false,
        ),
        spec_preflight_step(kind, manifest, enforcement)->Ok_0.0 != RequiredView::NoLockfile,
{
}

/// `n` occurs in `h` at position `i`.
pub open spec fn occurs_at(h: Seq<char>, n: Seq<char>, i: int) -> bool {
    0 <= i && i + n.len() <= h.len() && h.subrange(i, i + n.len()) == n
}

/// A lockfile that the first pass looks for beside the manifest is the
/// one that the kind's missing-lockfile help tells the user to create: the
/// help names it.
pub proof fn lemma_required_lockfile_named_by_help(
    kind: ProjectInputKind,
    manifest: Seq<char>,
    enforcement: PythonEnforcement,
    name: Seq<char>,
)
    requires
        spec_preflight_step(kind, manifest, enforcement) is Ok,
        spec_preflight_step(kind, manifest, enforcement)->Ok_0.0 == RequiredView::InProjectDir(name),
    ensures
        kind.spec_missing_lockfile_help() is Some,
        exists|i: int| #[trigger] occurs_at(kind.spec_missing_lockfile_help()->0, name, i),
{
    let h = kind.spec_missing_lockfile_help()->0;
    if kind == ProjectInputKind::Ruby {
        reveal_strlit("Run `bundle lock` or `bundle install`, then commit Gemfile.lock.");
        reveal_strlit("Gemfile.lock");
        assert(h.subrange(51int, 63int) =~= "Gemfile.lock"@);
        assert(occurs_at(h, name, 51int));
    }
    if kind == ProjectInputKind::Php {
        reveal_strlit("Run `composer update` or `composer install`, then commit composer.lock.");
        reveal_strlit("composer.lock");
        assert(h.subrange(57int, 70int) =~= "composer.lock"@);
        assert(occurs_at(h, name, 57int));
    }
    if kind == ProjectInputKind::Gradle {
        reveal_strlit("Enable Gradle dependency locking and run `./gradlew dependencies --write-locks`, then commit gradle.lockfile.");
        reveal_strlit("gradle.lockfile");
        assert(h.subrange(93int, 108int) =~= "gradle.lockfile"@);
        assert(occurs_at(h, name, 93int));
    }
    if kind == ProjectInputKind::Dotnet {
        reveal_strlit("Run `dotnet restore --use-lock-file` and commit packages.lock.json.");
        reveal_strlit("packages.lock.json");
        assert(h.subrange(48int, 66int) =~= "packages.lock.json"@);
        assert(occurs_at(h, name, 48int));
    }
    if kind == ProjectInputKind::PyProjectPoetry {
        reveal_strlit("Run `poetry lock` and commit poetry.lock alongside pyproject.toml.");
        reveal_strlit("poetry.lock");
        assert(h.subrange(29int, 40int) =~= "poetry.lock"@);
        assert(occurs_at(h, name, 29int));
    }
    if kind == ProjectInputKind::PyProjectUv {
        reveal_strlit("Run `uv lock` and commit uv.lock alongside pyproject.toml.");
        reveal_strlit("uv.lock");
        assert(h.subrange(25int, 32int) =~= "uv.lock"@);
        assert(occurs_at(h, name, 25int));
    }
}

} // verus!
