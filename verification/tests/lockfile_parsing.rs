use sloppy_joe::lockfiles::cargo::{CargoLockPackage, CargoLockfile};
use sloppy_joe::lockfiles::npm::{self, NpmEntry, NpmLockfile, NpmSections, NpmV1Entry};
use sloppy_joe::lockfiles::ResolutionSource;
use sloppy_joe::{Dependency, Ecosystem};

fn version_only(version: &str) -> Option<NpmEntry> {
    Some(NpmEntry {
        name: None,
        version: Some(version.to_string()),
        resolved: None,
        integrity: None,
        link: false,
        in_bundle: false,
        bundled: false,
        sections: NpmSections::empty(),
    })
}

fn root(name: &str) -> Option<NpmEntry> {
    Some(NpmEntry {
        name: Some(name.to_string()),
        version: None,
        resolved: None,
        integrity: None,
        link: false,
        in_bundle: false,
        bundled: false,
        sections: NpmSections::empty(),
    })
}

fn packages(entries: Vec<(&str, Option<NpmEntry>)>) -> NpmLockfile {
    NpmLockfile {
        lockfile_version: 3,
        packages: Some(entries.into_iter().map(|(k, e)| (k.to_string(), e)).collect()),
        dependencies: None,
    }
}

fn npm_dep(name: &str, version: &str) -> Dependency {
    Dependency {
        name: name.to_string(),
        version: Some(version.to_string()),
        ecosystem: Ecosystem::Npm,
        actual_name: None,
    }
}

#[test]
fn parse_all_skips_invalid_package_names() {
    let lockfile = packages(vec![
        ("", root("root")),
        ("node_modules/react", version_only("18.2.0")),
        ("node_modules/../etc/passwd", version_only("1.0.0")),
        ("node_modules/evil\u{0000}pkg", version_only("1.0.0")),
        ("node_modules/good-pkg", version_only("2.0.0")),
    ]);
    let deps = npm::parse_all_from_value(&lockfile).unwrap();
    let names: Vec<&str> = deps.iter().map(|d| d.name.as_str()).collect();
    assert!(names.contains(&"react"));
    assert!(names.contains(&"good-pkg"));
    assert!(!names.iter().any(|n| n.contains("..")), "path traversal name should be filtered");
    assert!(!names.iter().any(|n| n.contains('\0')), "null byte name should be filtered");
    assert_eq!(deps.len(), 2);
}

#[test]
fn parse_all_npm_succeeds_on_valid_lockfile() {
    let content = r#"{"name":"demo","lockfileVersion":3,"packages":{"":{"name":"demo"},"node_modules/react":{"version":"18.3.1"},"node_modules/lodash":{"version":"4.17.21"}}}"#;
    let deps = sloppy_joe::lockfiles::reading::parse_all_npm_text(content).unwrap();
    assert_eq!(deps.len(), 2);
    assert!(deps.iter().any(|d| d.name == "react"));
    assert!(deps.iter().any(|d| d.name == "lodash"));
}

#[test]
fn parse_all_skips_workspace_root_package_without_source() {
    let lockfile = CargoLockfile {
        packages: Some(vec![
            Some(CargoLockPackage {
                name: Some("demo-app".to_string()),
                version: Some("0.1.0".to_string()),
                source: None,
            }),
            Some(CargoLockPackage {
                name: Some("serde".to_string()),
                version: Some("1.0.228".to_string()),
                source: Some("registry+https://github.com/rust-lang/crates.io-index".to_string()),
            }),
        ]),
    };
    let deps = sloppy_joe::lockfiles::cargo::parse_all_from_value(&lockfile).unwrap();
    assert_eq!(deps.len(), 1);
    assert_eq!(deps[0].name, "serde");
}

#[test]
fn parse_all_cargo_reads_registry_packages_from_text() {
    let content = "[[package]]\nname = \"serde\"\nversion = \"1.0.203\"\nsource = \"registry+https://github.com/rust-lang/crates.io-index\"\n\n[[package]]\nname = \"tokio\"\nversion = \"1.42.0\"\nsource = \"registry+https://github.com/rust-lang/crates.io-index\"\n";
    let deps = sloppy_joe::lockfiles::reading::parse_all_cargo_text(content).unwrap();
    assert_eq!(deps.len(), 2);
    assert!(deps.iter().any(|d| d.name == "serde"));
    assert!(deps.iter().any(|d| d.name == "tokio"));
}

#[test]
fn npm_package_lock_v3_resolves_direct_dependency() {
    let lockfile = packages(vec![("", root("demo")), ("node_modules/react", version_only("18.3.1"))]);
    let deps = vec![npm_dep("react", "^18.2.0")];
    let result = npm::resolve_from_value(&lockfile, &deps, "package-lock.json");
    let resolved = result.resolved_version(&deps[0]).unwrap();
    assert_eq!(resolved.version, "18.3.1");
    assert_eq!(resolved.source, ResolutionSource::Lockfile);
    assert!(result.issues.is_empty());
}

#[test]
fn npm_package_lock_v1_resolves_direct_dependency() {
    let lockfile = NpmLockfile {
        lockfile_version: 1,
        packages: None,
        dependencies: Some(vec![
            NpmV1Entry { depth: 0, name: "react".to_string(), entry: version_only("18.3.1") },
            NpmV1Entry { depth: 1, name: "loose-envify".to_string(), entry: version_only("1.4.0") },
        ]),
    };
    let deps = vec![npm_dep("react", "^18.2.0")];
    let result = npm::resolve_from_value(&lockfile, &deps, "package-lock.json");
    assert_eq!(result.exact_version(&deps[0]), Some("18.3.1"));
    let transitive = npm::parse_transitive_from_value(&lockfile, &deps).unwrap();
    assert_eq!(transitive.len(), 1);
    assert_eq!(transitive[0].name, "loose-envify");
}

#[test]
fn npm_exact_pin_out_of_sync_emits_resolution_issue() {
    let lockfile = packages(vec![("node_modules/react", version_only("18.3.1"))]);
    let deps = vec![npm_dep("react", "18.2.0")];
    let result = npm::resolve_from_value(&lockfile, &deps, "package-lock.json");
    let resolved = result.resolved_version(&deps[0]).unwrap();
    assert_eq!(resolved.version, "18.2.0");
    assert_eq!(resolved.source, ResolutionSource::ManifestExact);
    assert_eq!(result.issues.len(), 1);
    assert_eq!(result.issues[0].check, "resolution/lockfile-out-of-sync");
}

#[test]
fn npm_missing_or_renamed_entries_emit_resolution_issues() {
    let mut renamed = version_only("4.17.21");
    renamed.as_mut().unwrap().name = Some("lodash".to_string());
    let lockfile = packages(vec![("node_modules/react", renamed)]);
    let deps = vec![npm_dep("react", "^18.0.0"), npm_dep("vue", "^3.0.0")];
    let result = npm::resolve_from_value(&lockfile, &deps, "package-lock.json");
    assert!(result.resolved_version(&deps[0]).is_none());
    assert_eq!(result.issues.len(), 2);
    assert!(result.issues.iter().all(|i| i.check == "resolution/missing-lockfile-entry"));
    assert_eq!(
        result.issues[1].message,
        "'vue' is declared in the manifest but was not found in 'package-lock.json'. Exact version-sensitive checks cannot trust this lockfile state."
    );
}

#[test]
fn npm_lockfile_without_sections_falls_back_to_manifest_pins() {
    let lockfile = NpmLockfile { lockfile_version: 3, packages: None, dependencies: None };
    let deps = vec![npm_dep("react", "18.2.0")];
    let result = npm::resolve_from_value(&lockfile, &deps, "package-lock.json");
    assert_eq!(result.issues[0].check, "resolution/parse-failed");
    assert_eq!(result.resolved_version(&deps[0]).unwrap().source, ResolutionSource::ManifestExact);
    assert_eq!(
        npm::parse_all_from_value(&lockfile).unwrap_err(),
        "npm lockfile has no packages or dependencies section"
    );
}
