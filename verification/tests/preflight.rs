use sloppy_joe::assoc::StringTable;
use sloppy_joe::checks::names;
use sloppy_joe::config::{PythonEnforcement, SloppyJoeConfig};
use sloppy_joe::lockfiles::npm::NpmSections;
use sloppy_joe::preflight::{
    RequiredLockfile, collect_npm_alias_targets, detect_js_manager, js_manager_lockfile, js_manager_markers,
    js_package_entry_key, npm_dependency_entries, validate_npm_manifest_security_policy,
    preflight_project_step, relative_package_entry_key, trusted_python_preference_warnings,
    workspace_dependency_target,
};
use sloppy_joe::project::{JsPackageManager, ProjectInputKind, ProjectInputSpec};

fn spec(kind: ProjectInputKind, manifest: &str) -> ProjectInputSpec {
    ProjectInputSpec { kind, manifest_path: manifest.to_string(), lockfile_path_override: None, js_binding: None }
}

fn strings(v: &[&str]) -> Vec<String> {
    v.iter().map(|s| s.to_string()).collect()
}

fn pairs(v: &[(&str, &str)]) -> Vec<(String, String)> {
    v.iter().map(|(a, b)| (a.to_string(), b.to_string())).collect()
}

#[test]
fn each_kind_needs_its_lockfile() {
    let config = SloppyJoeConfig::default();
    let poetry = preflight_project_step(&spec(ProjectInputKind::PyProjectPoetry, "/p/pyproject.toml"), &config).unwrap();
    assert!(matches!(poetry.lockfile, RequiredLockfile::InProjectDir("poetry.lock")));
    assert!(poetry.warnings.is_empty());
    let dotnet = preflight_project_step(&spec(ProjectInputKind::Dotnet, "/p/app.csproj"), &config).unwrap();
    assert!(matches!(dotnet.lockfile, RequiredLockfile::InProjectDir("packages.lock.json")));
    assert!(matches!(
        preflight_project_step(&spec(ProjectInputKind::Cargo, "/p/Cargo.toml"), &config).unwrap().lockfile,
        RequiredLockfile::CargoAuthoritative
    ));
    let legacy = preflight_project_step(&spec(ProjectInputKind::PySetupPy, "/p/setup.py"), &config).unwrap();
    assert!(matches!(legacy.lockfile, RequiredLockfile::NoLockfile));
    assert_eq!(legacy.warnings.len(), 1);
    assert_eq!(legacy.warnings[0].check, names::RESOLUTION_PYTHON_LEGACY_MANIFEST);
    let maven = preflight_project_step(&spec(ProjectInputKind::Maven, "/p/pom.xml"), &config).unwrap();
    assert_eq!(maven.warnings[0].package, "<lockfile>");
    assert!(maven.warnings[0].message.starts_with("Maven manifest '/p/pom.xml' has no trusted lockfile-backed"));
}

#[test]
fn poetry_only_mode_refuses_other_python_workflows() {
    let config = SloppyJoeConfig { python_enforcement: PythonEnforcement::PoetryOnly, ..SloppyJoeConfig::default() };
    assert_eq!(
        preflight_project_step(&spec(ProjectInputKind::PyProjectUv, "/p/pyproject.toml"), &config).unwrap_err(),
        "Python manifest '/p/pyproject.toml' uses the uv workflow, which is not allowed in poetry_only mode. Use Poetry with pyproject.toml + poetry.lock, or relax python_enforcement to prefer_poetry."
    );
    assert!(preflight_project_step(&spec(ProjectInputKind::PyRequirementsTrusted, "/p/requirements.txt"), &config)
        .unwrap_err()
        .contains("trusted pip-tools requirements"));
    assert!(preflight_project_step(&spec(ProjectInputKind::PyPipfile, "/p/Pipfile"), &config)
        .unwrap_err()
        .starts_with("Legacy Python manifest '/p/Pipfile' is not allowed in poetry_only mode."));
    assert!(preflight_project_step(&spec(ProjectInputKind::PyProjectPoetry, "/p/pyproject.toml"), &config).is_ok());
}

#[test]
fn trusted_python_projects_warn_about_legacy_neighbours() {
    let legacy = strings(&["/p/requirements.txt", "/p/setup.py"]);
    let warnings = trusted_python_preference_warnings(&spec(ProjectInputKind::PyProjectUv, "/p/pyproject.toml"), &legacy);
    assert_eq!(warnings.len(), 2);
    assert_eq!(warnings[1].package, "/p/setup.py");
    assert_eq!(
        warnings[0].message,
        "Ignoring legacy Python manifest '/p/requirements.txt' because '/p/pyproject.toml' is a uv project. sloppy-joe prefers the trusted uv workflow as the source of truth for this directory."
    );
    assert!(trusted_python_preference_warnings(&spec(ProjectInputKind::Npm, "/p/package.json"), &legacy).is_empty());
}

#[test]
fn js_manager_signals_must_agree() {
    assert_eq!(js_manager_markers().len(), 8);
    assert_eq!(detect_js_manager("/r/package.json", None, &vec![]), Ok(JsPackageManager::Npm));
    assert_eq!(detect_js_manager("/r/package.json", Some("pnpm@9.1.0"), &vec![]), Ok(JsPackageManager::Pnpm));
    let markers = vec![(JsPackageManager::Yarn, "/r/yarn.lock".to_string())];
    assert_eq!(detect_js_manager("/r/package.json", Some("yarn@4"), &markers), Ok(JsPackageManager::Yarn));
    assert_eq!(
        detect_js_manager("/r/package.json", Some("pnpm@9"), &markers).unwrap_err(),
        "JS project rooted at '/r/package.json' has conflicting package-manager signals: pnpm via packageManager in '/r/package.json', yarn via /r/yarn.lock. sloppy-joe requires one authoritative JS manager per root."
    );
    assert_eq!(
        detect_js_manager("/r/package.json", Some("deno@2"), &markers).unwrap_err(),
        "package.json '/r/package.json' declares unsupported packageManager 'deno'. sloppy-joe only understands npm, pnpm, yarn, and bun at the JS manager layer."
    );
}

#[test]
fn entry_keys_are_paths_below_the_root() {
    assert_eq!(relative_package_entry_key("/repo", "/repo/packages/a"), Ok("packages/a".to_string()));
    assert_eq!(
        relative_package_entry_key("/repo", "/repo").unwrap_err(),
        "Could not derive npm workspace entry key for '/repo' relative to '/repo'."
    );
    assert_eq!(
        relative_package_entry_key("/repo", "/other/x").unwrap_err(),
        "Path '/other/x' is outside npm root '/repo'."
    );
}

#[test]
fn npm_aliases_bind_uniquely_per_lockfile() {
    let manifest = NpmSections {
        dependencies: pairs(&[("react", "^18"), ("my-lodash", "npm:lodash@4.17.21")]),
        dev_dependencies: pairs(&[("@t/x", "npm:@types/x@1.0.0")]),
        optional_dependencies: Vec::new(),
        peer_dependencies: Vec::new(),
    };
    let entries = npm_dependency_entries(&manifest);
    assert_eq!(entries.len(), 3);
    let mut aliases = StringTable::new();
    assert_eq!(collect_npm_alias_targets(&mut aliases, &entries, "/r/package.json", "/r/package-lock.json"), Ok(()));
    assert_eq!(aliases.get("my-lodash").map(|s| s.as_str()), Some("lodash"));
    assert_eq!(aliases.get("@t/x").map(|s| s.as_str()), Some("@types/x"));
    assert!(aliases.get("react").is_none());
    let other = pairs(&[("my-lodash", "npm:underscore@1.13.0")]);
    assert_eq!(
        collect_npm_alias_targets(&mut aliases, &other, "/r/b/package.json", "/r/package-lock.json").unwrap_err(),
        "Npm alias 'my-lodash' resolves to both 'lodash' and 'underscore' under authoritative lockfile '/r/package-lock.json'. sloppy-joe requires alias bindings to be unique per lockfile."
    );
    let broken = pairs(&[("x", "npm:lodash")]);
    assert_eq!(
        collect_npm_alias_targets(&mut StringTable::new(), &broken, "/r/package.json", "/r/package-lock.json").unwrap_err(),
        "Unsupported npm alias 'npm:lodash' in /r/package.json: expected npm:<package>@<version>"
    );
}

#[test]
fn workspace_references_bind_to_exactly_one_package() {
    let one = strings(&["/r/packages/ui"]);
    assert_eq!(
        workspace_dependency_target(JsPackageManager::Pnpm, "ui", "/r/apps/web/package.json", Some("/r/pnpm-workspace.yaml"), &one),
        Ok("/r/packages/ui".to_string())
    );
    assert_eq!(
        workspace_dependency_target(JsPackageManager::Pnpm, "ui", "/r/apps/web/package.json", Some("/r/pnpm-workspace.yaml"), &vec![]).unwrap_err(),
        "Local pnpm dependency 'ui' in '/r/apps/web/package.json' does not resolve to any workspace package declared by '/r/pnpm-workspace.yaml'. Keep workspace targets inside pnpm-workspace.yaml, or remove the workspace reference."
    );
    let two = strings(&["/r/a", "/r/b"]);
    assert!(workspace_dependency_target(JsPackageManager::Npm, "ui", "/r/x/package.json", Some("/r/package.json"), &two)
        .unwrap_err()
        .ends_with("Each workspace package name must be unique within the workspace root."));
    assert_eq!(
        workspace_dependency_target(JsPackageManager::Bun, "ui", "/r/x/package.json", None, &one).unwrap_err(),
        "Local Bun dependency 'ui' in '/r/x/package.json' uses workspace:, but no ancestor Bun workspace root with a matching workspaces declaration was found. Scan the workspace root, or replace the workspace reference with a dependency source sloppy-joe can verify exactly."
    );
}

#[test]
fn js_roots_bind_to_their_managers_lockfile() {
    let present = vec!["package-lock.json".to_string(), "npm-shrinkwrap.json".to_string(), "bun.lockb".to_string()];
    assert_eq!(js_manager_lockfile(JsPackageManager::Npm, "/repo", &present).as_deref(), Some("/repo/npm-shrinkwrap.json"));
    assert_eq!(js_manager_lockfile(JsPackageManager::Bun, "/repo", &present).as_deref(), Some("/repo/bun.lockb"));
    assert_eq!(js_manager_lockfile(JsPackageManager::Pnpm, "/repo", &present), None);
}

#[test]
fn js_entry_keys_are_paths_below_the_root() {
    assert_eq!(js_package_entry_key(JsPackageManager::Pnpm, "/repo", "/repo").unwrap(), ".");
    assert_eq!(js_package_entry_key(JsPackageManager::Npm, "/repo", "/repo").unwrap(), "");
    assert_eq!(js_package_entry_key(JsPackageManager::Npm, "/repo", "/repo/packages/app").unwrap(), "packages/app");
    assert_eq!(
        js_package_entry_key(JsPackageManager::Yarn, "/repo", "/other").unwrap_err(),
        "Path '/other' is outside npm root '/repo'."
    );
}

#[test]
fn npm_overrides_are_refused() {
    assert!(validate_npm_manifest_security_policy("/repo/package.json", false).is_ok());
    assert!(validate_npm_manifest_security_policy("/repo/package.json", true)
        .unwrap_err()
        .starts_with("package.json '/repo/package.json' uses npm overrides."));
}
