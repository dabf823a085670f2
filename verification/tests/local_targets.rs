use sloppy_joe::cargo_scope::{
    authoritative_cargo_lockfile_path, cargo_allowlisted_local_target, cargo_trusted_scope_root,
    cargo_workspace_contains_manifest,
};
use sloppy_joe::local_targets::{
    LocalTargetCandidate, bun_lockfile_local_target, check_local_target_identity, check_yarn_local_spec,
    index_npm_projects, local_dependency_entries, local_npm_target_candidate, npm_lockfile_local_target,
    npm_workspace_matches, pnpm_lockfile_local_target, resolve_local_npm_target, validate_local_bun_lockfile_target,
    validate_local_npm_lockfile_target, validate_local_pnpm_lockfile_target, yarn_relative_target,
};
use sloppy_joe::lockfiles::bun::BunLockfile;
use sloppy_joe::lockfiles::npm::{NpmEntry, NpmLockfile, NpmSections};
use sloppy_joe::lockfiles::pnpm::{PnpmImporter, PnpmImporterEntry, PnpmLockfile, PnpmSection};
use sloppy_joe::paths::{
    ancestor_dirs_inclusive, join_path, normalize_filesystem_path, parent_path, path_starts_with, relative_names,
    same_path,
};
use sloppy_joe::project::{JsPackageManager, JsProjectBinding, ProjectInputKind, ProjectInputSpec, selected_lockfile_path};

fn pairs(v: &[(&str, &str)]) -> Vec<(String, String)> {
    v.iter().map(|(a, b)| (a.to_string(), b.to_string())).collect()
}

fn sections(deps: &[(&str, &str)], dev: &[(&str, &str)]) -> NpmSections {
    NpmSections {
        dependencies: pairs(deps),
        dev_dependencies: pairs(dev),
        optional_dependencies: Vec::new(),
        peer_dependencies: Vec::new(),
    }
}

#[test]
fn normalization_resolves_dots_lexically() {
    assert_eq!(normalize_filesystem_path("/repo/app/../lib/./x"), "/repo/lib/x");
    assert_eq!(normalize_filesystem_path("/../a"), "/a");
    assert_eq!(normalize_filesystem_path("a/../../b"), "b");
    assert_eq!(normalize_filesystem_path("a//b/"), "a/b");
    assert_eq!(normalize_filesystem_path("/"), "/");
}

#[test]
fn joins_and_parents_follow_path_rules() {
    assert_eq!(join_path("/repo", "lib"), "/repo/lib");
    assert_eq!(join_path("/repo/", "lib"), "/repo/lib");
    assert_eq!(join_path("/repo", "/abs"), "/abs");
    assert_eq!(join_path("", "Cargo.lock"), "Cargo.lock");
    assert_eq!(parent_path("/repo/package.json").as_deref(), Some("/repo"));
    assert_eq!(parent_path("/package.json").as_deref(), Some("/"));
    assert_eq!(parent_path("package.json").as_deref(), Some(""));
    assert_eq!(parent_path("/"), None);
}

#[test]
fn prefixes_compare_whole_components() {
    assert!(path_starts_with("/repo/lib", "/repo"));
    assert!(!path_starts_with("/repository", "/repo"));
    assert!(same_path("/repo/lib/", "/repo//lib"));
    assert_eq!(relative_names("/repo/packages/a", "/repo"), Some(vec!["packages".to_string(), "a".to_string()]));
    assert_eq!(relative_names("/other", "/repo"), None);
}

#[test]
fn ancestors_run_from_start_up_to_root() {
    assert_eq!(
        ancestor_dirs_inclusive("/repo/a/b", "/repo").unwrap(),
        vec!["/repo/a/b".to_string(), "/repo/a".to_string(), "/repo".to_string()]
    );
    assert_eq!(ancestor_dirs_inclusive("/repo", "/repo").unwrap(), vec!["/repo".to_string()]);
    assert_eq!(
        ancestor_dirs_inclusive("/elsewhere", "/repo").unwrap_err(),
        "Path '/elsewhere' is outside scan root '/repo'."
    );
}

#[test]
fn local_entries_keep_only_local_requirements() {
    let m = sections(&[("a", "workspace:*"), ("b", "^1.0.0"), ("c", "file:../c")], &[("d", "link:../d")]);
    assert_eq!(
        local_dependency_entries(&m),
        pairs(&[("a", "workspace:*"), ("c", "file:../c"), ("d", "link:../d")])
    );
}

#[test]
fn file_targets_resolve_inside_the_scan_root() {
    let c = local_npm_target_candidate("lib", "/repo/app/package.json", "file: ../lib ", "/repo/app").unwrap();
    assert_eq!(c.raw_target, "../lib");
    assert_eq!(c.normalized, "/repo/lib");
    let t = resolve_local_npm_target(
        "lib",
        "/repo/app/package.json",
        "file: ../lib ",
        &c,
        "/repo",
        Ok(("/repo/lib".to_string(), true)),
    )
    .unwrap();
    assert_eq!(t, "/repo/lib");
}

#[test]
fn file_targets_outside_or_missing_are_refused() {
    assert_eq!(
        local_npm_target_candidate("lib", "/repo/app/package.json", "link:", "/repo/app").unwrap_err(),
        "Local npm dependency 'lib' in '/repo/app/package.json' has an empty target."
    );
    let c = LocalTargetCandidate { raw_target: "../../x".to_string(), normalized: "/x".to_string() };
    assert_eq!(
        resolve_local_npm_target("x", "/repo/app/package.json", "file:../../x", &c, "/repo", Err("gone".to_string()))
            .unwrap_err(),
        "Local npm dependency 'x' in '/repo/app/package.json' resolves outside the scan root via 'file:../../x'."
    );
    let inside = LocalTargetCandidate { raw_target: "../lib".to_string(), normalized: "/repo/lib".to_string() };
    assert_eq!(
        resolve_local_npm_target("lib", "/repo/app/package.json", "file:../lib", &inside, "/repo", Err("No such file".to_string()))
            .unwrap_err(),
        "Local npm dependency 'lib' in '/repo/app/package.json' points to '../lib' but that target is missing or unreadable: No such file."
    );
    assert!(resolve_local_npm_target(
        "lib",
        "/repo/app/package.json",
        "file:../lib",
        &inside,
        "/repo",
        Ok(("/repo/lib/index.js".to_string(), false)),
    )
    .unwrap_err()
    .ends_with("which is not a project directory."));
}

#[test]
fn file_target_must_be_the_named_scanned_project() {
    let index = index_npm_projects(&vec![
        ("/repo/lib".to_string(), Some("lib".to_string())),
        ("/repo/other".to_string(), None),
    ]);
    assert!(check_local_target_identity(JsPackageManager::Npm, "lib", "/repo/app/package.json", "file:../lib", "/repo/lib", &index).is_ok());
    assert_eq!(
        check_local_target_identity(JsPackageManager::Pnpm, "x", "/repo/app/package.json", "file:../x", "/repo/x", &index)
            .unwrap_err(),
        "Local pnpm dependency 'x' in '/repo/app/package.json' resolves to 'file:../x' inside the scan root, but no scanned package.json was found there."
    );
    assert_eq!(
        check_local_target_identity(JsPackageManager::Npm, "other", "/repo/app/package.json", "file:../other", "/repo/other", &index)
            .unwrap_err(),
        "Local npm dependency 'other' in '/repo/app/package.json' resolves to '/repo/other', but that project declares package name '<missing package name>'. Local file:/link: targets must match the dependency package identity exactly."
    );
}

#[test]
fn npm_workspace_matches_exclude_the_depending_project() {
    let index = index_npm_projects(&vec![
        ("/repo/packages/lib".to_string(), Some("lib".to_string())),
        ("/repo/tools/lib".to_string(), Some("lib".to_string())),
        ("/repo/packages/app".to_string(), Some("app".to_string())),
    ]);
    let patterns = vec!["packages/*".to_string()];
    assert_eq!(
        npm_workspace_matches(&index, "lib", "/repo/packages/app", "/repo", &patterns),
        vec!["/repo/packages/lib".to_string()]
    );
    assert!(npm_workspace_matches(&index, "app", "/repo/packages/app", "/repo", &patterns).is_empty());
}

fn npm_link_entry(link: bool, resolved: Option<&str>) -> Option<NpmEntry> {
    Some(NpmEntry {
        name: None,
        version: None,
        resolved: resolved.map(|r| r.to_string()),
        integrity: None,
        link,
        in_bundle: false,
        bundled: false,
        sections: NpmSections::empty(),
    })
}

#[test]
fn npm_lockfile_binds_local_links() {
    let lock = NpmLockfile {
        lockfile_version: 3,
        packages: Some(vec![
            ("node_modules/lib".to_string(), npm_link_entry(true, Some("packages/../lib"))),
            ("node_modules/plain".to_string(), npm_link_entry(false, Some("x"))),
        ]),
        dependencies: None,
    };
    let t = npm_lockfile_local_target(&lock, "/repo/package-lock.json", "lib", "file:lib").unwrap();
    assert_eq!(t.recorded, "packages/../lib");
    assert_eq!(t.lookup, "/repo/lib");
    assert!(validate_local_npm_lockfile_target("/repo/package-lock.json", "lib", "file:lib", &t, Ok("/repo/lib".to_string()), "/repo/lib").is_ok());
    assert!(validate_local_npm_lockfile_target("/repo/package-lock.json", "lib", "file:lib", &t, Ok("/repo/other".to_string()), "/repo/lib")
        .unwrap_err()
        .contains("but the manifest-verified local target is '/repo/lib'"));
    assert_eq!(
        npm_lockfile_local_target(&lock, "/repo/package-lock.json", "plain", "file:plain").unwrap_err(),
        "Required lockfile '/repo/package-lock.json' entry 'plain' must be a local link for 'file:plain', but link=true was not present."
    );
    assert_eq!(
        npm_lockfile_local_target(&lock, "/repo/package-lock.json", "gone", "file:gone").unwrap_err(),
        "Required lockfile '/repo/package-lock.json' is out of sync with package.json: local npm dependency 'gone' is missing its lockfile entry."
    );
}

fn importer(entries: Vec<(&str, &str)>) -> PnpmImporter {
    PnpmImporter {
        dependencies: PnpmSection::Entries(
            entries
                .into_iter()
                .map(|(n, v)| PnpmImporterEntry {
                    name: Some(n.to_string()),
                    version: Some(v.to_string()),
                    specifier: None,
                    inline_reference: None,
                })
                .collect(),
        ),
        dev_dependencies: PnpmSection::Entries(Vec::new()),
        optional_dependencies: PnpmSection::Entries(Vec::new()),
        peer_dependencies: PnpmSection::Entries(Vec::new()),
    }
}

#[test]
fn pnpm_lockfile_binds_links_from_the_importer_directory() {
    let lock = PnpmLockfile {
        importers: Some(vec![(
            "apps/web".to_string(),
            importer(vec![("lib", "link:../../packages/lib"), ("react", "18.3.1")]),
        )]),
        packages: None,
        snapshots: None,
    };
    let t = pnpm_lockfile_local_target(&lock, "/repo/pnpm-lock.yaml", "apps/web", "lib").unwrap();
    assert_eq!(t.recorded, "../../packages/lib");
    assert_eq!(t.lookup, "/repo/packages/lib");
    assert!(validate_local_pnpm_lockfile_target(
        "/repo/pnpm-lock.yaml",
        "apps/web",
        "lib",
        "workspace:*",
        &t,
        Err("denied".to_string()),
        "/repo/packages/lib",
    )
    .unwrap_err()
    .ends_with("but that target is missing or unreadable: denied."));
    assert!(pnpm_lockfile_local_target(&lock, "/repo/pnpm-lock.yaml", "apps/web", "react")
        .unwrap_err()
        .contains("but local pnpm dependencies must resolve through link:/file: entries."));
    assert_eq!(
        pnpm_lockfile_local_target(&lock, "/repo/pnpm-lock.yaml", ".", "lib").unwrap_err(),
        "Required lockfile '/repo/pnpm-lock.yaml' is out of sync: importer '.' is missing."
    );
}

#[test]
fn bun_lockfile_binds_by_descriptor() {
    let lock = BunLockfile {
        workspaces: None,
        packages: Some(vec![
            ("lib".to_string(), Some("lib@workspace:packages/lib".to_string())),
            ("react".to_string(), Some("react@18.3.1".to_string())),
        ]),
    };
    let t = bun_lockfile_local_target(&lock, "/repo/bun.lock", "/repo/app/package.json", "lib", "workspace:*").unwrap();
    assert_eq!(t.recorded, "packages/lib");
    assert_eq!(t.lookup, "/repo/packages/lib");
    assert!(validate_local_bun_lockfile_target("/repo/bun.lock", "lib", &t, Ok("/repo/packages/lib".to_string()), "/repo/packages/lib").is_ok());
    assert_eq!(
        bun_lockfile_local_target(&lock, "/repo/bun.lock", "/repo/app/package.json", "react", "file:../react").unwrap_err(),
        "Required lockfile '/repo/bun.lock' is out of sync with package.json: local Bun dependency 'react' should resolve via file:, but the lockfile recorded 'react@18.3.1'."
    );
}

#[test]
fn yarn_accepts_only_workspace_targets() {
    assert!(check_yarn_local_spec("lib", "/repo/package.json", "workspace:^").is_ok());
    assert!(check_yarn_local_spec("lib", "/repo/package.json", "file:../lib").unwrap_err().contains("uses unsupported spec 'file:../lib'"));
    assert_eq!(yarn_relative_target("lib", "/repo/package.json", "/repo", "/repo").unwrap(), ".");
    assert_eq!(yarn_relative_target("lib", "/repo/package.json", "/repo", "/repo/packages/lib").unwrap(), "packages/lib");
    assert_eq!(
        yarn_relative_target("lib", "/repo/package.json", "/repo", "/elsewhere").unwrap_err(),
        "Local Yarn dependency 'lib' in '/repo/package.json' resolved outside the trusted Yarn root '/repo'."
    );
}

#[test]
fn cargo_workspace_ownership_follows_members_and_exclude() {
    let members = vec!["crates/*".to_string()];
    let exclude = vec!["crates/legacy".to_string()];
    assert!(cargo_workspace_contains_manifest("/repo", "/repo", &vec![], &vec![]));
    assert!(cargo_workspace_contains_manifest("/repo", "/repo/crates/core", &members, &exclude));
    assert!(!cargo_workspace_contains_manifest("/repo", "/repo/crates/legacy", &members, &exclude));
    assert!(!cargo_workspace_contains_manifest("/repo", "/repo/tools/x", &members, &exclude));
    assert!(!cargo_workspace_contains_manifest("/repo", "/repo/crates/core", &vec![], &exclude));
    assert!(!cargo_workspace_contains_manifest("/repo", "/other", &members, &exclude));
}

#[test]
fn cargo_scope_stays_in_root_or_allowlist() {
    assert!(cargo_allowlisted_local_target("/repo/vendor/x", "/repo", &vec![]));
    assert!(cargo_allowlisted_local_target("/shared", "/repo", &vec!["/shared".to_string()]));
    assert!(!cargo_allowlisted_local_target("/shared/sub", "/repo", &vec!["/shared".to_string()]));
    assert_eq!(cargo_trusted_scope_root("/repo", "/repo/app", false).unwrap(), "/repo");
    assert_eq!(cargo_trusted_scope_root("/repo", "/shared", true).unwrap(), "/shared");
    assert_eq!(
        cargo_trusted_scope_root("/repo", "/shared", false).unwrap_err(),
        "Path '/shared' is outside scan root '/repo' and not exactly allowlisted for Cargo local provenance."
    );
    assert_eq!(authoritative_cargo_lockfile_path(Some("/repo"), "/repo/crates/core"), "/repo/Cargo.lock");
    assert_eq!(authoritative_cargo_lockfile_path(None, "/repo/crates/core"), "/repo/crates/core/Cargo.lock");
}

fn spec(kind: ProjectInputKind, manifest: &str) -> ProjectInputSpec {
    ProjectInputSpec { kind, manifest_path: manifest.to_string(), lockfile_path_override: None, js_binding: None }
}

#[test]
fn selected_lockfile_follows_the_project_kind() {
    assert_eq!(selected_lockfile_path(&spec(ProjectInputKind::Cargo, "/repo/Cargo.toml"), false, false).as_deref(), Some("/repo/Cargo.lock"));
    assert_eq!(selected_lockfile_path(&spec(ProjectInputKind::Dotnet, "/repo/app.csproj"), false, false).as_deref(), Some("/repo/packages.lock.json"));
    assert_eq!(
        selected_lockfile_path(&spec(ProjectInputKind::PyRequirementsTrusted, "/repo/requirements.txt"), false, false).as_deref(),
        Some("/repo/requirements.txt")
    );
    assert_eq!(selected_lockfile_path(&spec(ProjectInputKind::Maven, "/repo/pom.xml"), false, false), None);
    assert_eq!(selected_lockfile_path(&spec(ProjectInputKind::Npm, "/repo/package.json"), true, true).as_deref(), Some("/repo/npm-shrinkwrap.json"));
    assert_eq!(selected_lockfile_path(&spec(ProjectInputKind::Npm, "/repo/package.json"), false, true).as_deref(), Some("/repo/package-lock.json"));
    assert_eq!(selected_lockfile_path(&spec(ProjectInputKind::Npm, "/repo/package.json"), false, false), None);
    let mut bound = spec(ProjectInputKind::Npm, "/repo/app/package.json");
    bound.js_binding = Some(JsProjectBinding {
        manager: JsPackageManager::Pnpm,
        root_manifest_path: "/repo/package.json".to_string(),
        lockfile_path: Some("/repo/pnpm-lock.yaml".to_string()),
        package_entry_key: "app".to_string(),
    });
    assert_eq!(selected_lockfile_path(&bound, false, false).as_deref(), Some("/repo/pnpm-lock.yaml"));
    let mut chosen = spec(ProjectInputKind::Go, "/repo/go.mod");
    chosen.lockfile_path_override = Some("/elsewhere/go.sum".to_string());
    assert_eq!(selected_lockfile_path(&chosen, false, false).as_deref(), Some("/elsewhere/go.sum"));
}
