use sloppy_joe::checks::names;
use sloppy_joe::project::{
    JsPackageManager, JsProjectBinding, ProjectInputKind, ProjectInputSpec, PyprojectKind, js_lockfile_help,
    prefer_trusted_python_project_inputs, project_input_kind_from_path, promote_trusted_pip_tools_specs,
    prune_included_requirement_specs, python_legacy_warning, validate_supported_js_manager,
};
use sloppy_joe::report::Severity;
use sloppy_joe::workspace::{
    wildcard_segment_matches, workspace_pattern_matches_parts, workspace_pattern_parts_match, workspace_patterns_match,
};

fn parts(path: &str) -> Vec<String> {
    path.split('/').filter(|p| !p.is_empty()).map(|p| p.to_string()).collect()
}

fn spec(kind: ProjectInputKind, manager: Option<JsPackageManager>) -> ProjectInputSpec {
    ProjectInputSpec {
        kind,
        manifest_path: "/repo/app/requirements.txt".to_string(),
        lockfile_path_override: None,
        js_binding: manager.map(|manager| JsProjectBinding {
            manager,
            root_manifest_path: "/repo/package.json".to_string(),
            lockfile_path: None,
            package_entry_key: "app".to_string(),
        }),
    }
}

#[test]
fn wildcard_segments_match_prefix_and_suffix() {
    assert!(wildcard_segment_matches("*", "anything"));
    assert!(wildcard_segment_matches("app-*", "app-web"));
    assert!(wildcard_segment_matches("*-web", "app-web"));
    assert!(wildcard_segment_matches("a*a", "aa"));
    assert!(!wildcard_segment_matches("a*a", "a"));
    assert!(!wildcard_segment_matches("app-*", "lib-web"));
    assert!(wildcard_segment_matches("exact", "exact"));
    assert!(!wildcard_segment_matches("exact", "exactly"));
}

#[test]
fn double_star_matches_any_depth() {
    assert!(workspace_pattern_parts_match(&parts("packages/*"), &parts("packages/web")));
    assert!(!workspace_pattern_parts_match(&parts("packages/*"), &parts("packages/web/ui")));
    assert!(workspace_pattern_parts_match(&parts("packages/**"), &parts("packages/web/ui")));
    assert!(workspace_pattern_parts_match(&parts("packages/**"), &parts("packages")));
    assert!(workspace_pattern_parts_match(&parts("**/ui"), &parts("a/b/c/ui")));
    assert!(!workspace_pattern_parts_match(&parts("**/ui"), &parts("a/b/c/api")));
    assert!(workspace_pattern_matches_parts(" ./apps/* ", &parts("apps/site")));
    assert!(workspace_pattern_matches_parts("./././apps//*/", &parts("apps/site")));
}

#[test]
fn a_project_matches_when_some_pattern_names_it() {
    let patterns = vec!["packages/*".to_string(), "apps/**".to_string()];
    let site = parts("apps/marketing/site");
    assert!(workspace_patterns_match(Some(&site), &patterns));
    let tool = parts("tools/cli");
    assert!(!workspace_patterns_match(Some(&tool), &patterns));
    let root: Vec<String> = Vec::new();
    assert!(!workspace_patterns_match(Some(&root), &patterns));
    assert!(!workspace_patterns_match(None, &patterns));
}

#[test]
fn lockfile_help_depends_on_the_manager() {
    assert_eq!(
        js_lockfile_help(&spec(ProjectInputKind::Npm, Some(JsPackageManager::Pnpm))),
        "Run `pnpm install --lockfile-only` and commit pnpm-lock.yaml."
    );
    assert_eq!(
        js_lockfile_help(&spec(ProjectInputKind::Npm, None)),
        "Run `npm install --package-lock-only` or `npm shrinkwrap`, then commit the lockfile."
    );
    assert_eq!(
        js_lockfile_help(&spec(ProjectInputKind::PyRequirements, None)),
        "Commit the authoritative lockfile for this project."
    );
    assert_eq!(ProjectInputKind::Cargo.missing_lockfile_help(), Some("Run `cargo generate-lockfile` and commit Cargo.lock."));
    assert_eq!(ProjectInputKind::PySetupPy.missing_lockfile_help(), None);
    assert!(validate_supported_js_manager(&spec(ProjectInputKind::Npm, Some(JsPackageManager::Yarn))).is_ok());
}

#[test]
fn legacy_python_manifests_warn() {
    let issue = python_legacy_warning(&spec(ProjectInputKind::PyRequirements, None));
    assert_eq!(issue.package, "/repo/app/requirements.txt");
    assert_eq!(issue.check, names::RESOLUTION_PYTHON_LEGACY_MANIFEST);
    assert_eq!(issue.severity, Severity::Warning);
    assert!(issue.message.starts_with("Python manifest '/repo/app/requirements.txt' uses the legacy "));
}

fn at(kind: ProjectInputKind, manifest: &str) -> ProjectInputSpec {
    ProjectInputSpec { kind, manifest_path: manifest.to_string(), lockfile_path_override: None, js_binding: None }
}

fn kinds_and_paths(specs: &[ProjectInputSpec]) -> Vec<(ProjectInputKind, String)> {
    specs.iter().map(|s| (s.kind, s.manifest_path.clone())).collect()
}

#[test]
fn manifests_are_recognized_by_file_name() {
    assert_eq!(project_input_kind_from_path("package.json", None), Some(ProjectInputKind::Npm));
    assert_eq!(project_input_kind_from_path("pyproject.toml", Some(PyprojectKind::Uv)), Some(ProjectInputKind::PyProjectUv));
    assert_eq!(project_input_kind_from_path("requirements-dev.txt", None), Some(ProjectInputKind::PyRequirements));
    assert_eq!(project_input_kind_from_path("build.gradle.kts", None), Some(ProjectInputKind::Gradle));
    assert_eq!(project_input_kind_from_path("App.csproj", None), Some(ProjectInputKind::Dotnet));
    assert_eq!(project_input_kind_from_path(".csproj", None), None);
    assert_eq!(project_input_kind_from_path("README.md", None), None);
}

#[test]
fn trusted_pyproject_shadows_same_directory_python_inputs() {
    let mut specs = vec![
        at(ProjectInputKind::PyRequirements, "/repo/api/requirements.txt"),
        at(ProjectInputKind::PyProjectPoetry, "/repo/api/pyproject.toml"),
        at(ProjectInputKind::PySetupPy, "/repo/tools/setup.py"),
        at(ProjectInputKind::Npm, "/repo/api/package.json"),
    ];
    prefer_trusted_python_project_inputs(&mut specs);
    assert_eq!(
        kinds_and_paths(&specs),
        vec![
            (ProjectInputKind::PyProjectPoetry, "/repo/api/pyproject.toml".to_string()),
            (ProjectInputKind::PySetupPy, "/repo/tools/setup.py".to_string()),
            (ProjectInputKind::Npm, "/repo/api/package.json".to_string()),
        ]
    );
}

#[test]
fn hash_locked_requirements_become_trusted() {
    let mut specs = vec![
        at(ProjectInputKind::PyRequirements, "/repo/requirements.txt"),
        at(ProjectInputKind::PyRequirements, "/repo/dev/requirements.txt"),
        at(ProjectInputKind::Npm, "/repo/package.json"),
    ];
    promote_trusted_pip_tools_specs(&mut specs, &vec![true, false, true]);
    assert_eq!(specs[0].kind, ProjectInputKind::PyRequirementsTrusted);
    assert_eq!(specs[1].kind, ProjectInputKind::PyRequirements);
    assert_eq!(specs[2].kind, ProjectInputKind::Npm);
}

#[test]
fn included_requirement_files_are_pruned() {
    let mut specs = vec![
        at(ProjectInputKind::PyRequirements, "/repo/requirements.txt"),
        at(ProjectInputKind::PyRequirements, "/repo/base.txt"),
        at(ProjectInputKind::PyRequirementsTrusted, "/repo/broken.txt"),
    ];
    let canonical = vec![Some("/repo/requirements.txt".to_string()), Some("/repo/base.txt".to_string()), None];
    prune_included_requirement_specs(&mut specs, &canonical, &vec!["/repo/base.txt".to_string()]);
    assert_eq!(
        kinds_and_paths(&specs),
        vec![
            (ProjectInputKind::PyRequirements, "/repo/requirements.txt".to_string()),
            (ProjectInputKind::PyRequirementsTrusted, "/repo/broken.txt".to_string()),
        ]
    );
}
