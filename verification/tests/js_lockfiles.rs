use sloppy_joe::js_consistency::{validate_bun_lockfile_consistency, validate_pnpm_lockfile_consistency};
use sloppy_joe::lockfiles::bun::{self, BunLockfile, BunSectionShape, BunSectionShapes, BunWorkspace};
use sloppy_joe::lockfiles::js_names::{bun_descriptor_parts, pnpm_package_key_parts, split_npm_package_and_spec};
use sloppy_joe::lockfiles::npm::NpmSections;
use sloppy_joe::lockfiles::pnpm::{
    self, PnpmImporter, PnpmImporterEntry, PnpmLockfile, PnpmPackage, PnpmResolution, PnpmSection,
    normalized_pnpm_reference, pnpm_tarball_path,
};
use sloppy_joe::lockfiles::ResolutionSource;
use sloppy_joe::lockfiles::pnpm_graph;
use sloppy_joe::project::{JsPackageManager, JsProjectBinding, ProjectInputKind, ProjectInputSpec};
use sloppy_joe::{Dependency, Ecosystem};

fn pair(a: &str, b: &str) -> Option<(String, String)> {
    Some((a.to_string(), b.to_string()))
}

fn npm_dep(name: &str, version: Option<&str>) -> Dependency {
    Dependency {
        name: name.to_string(),
        version: version.map(|v| v.to_string()),
        ecosystem: Ecosystem::Npm,
        actual_name: None,
    }
}

fn pkg(key: Option<&str>, resolution: Option<PnpmResolution>) -> PnpmPackage {
    PnpmPackage {
        key: key.map(|k| k.to_string()),
        resolution,
        dependencies: PnpmSection::Entries(Vec::new()),
        optional_dependencies: PnpmSection::Entries(Vec::new()),
        peer_dependencies: PnpmSection::Entries(Vec::new()),
    }
}

fn with_deps(key: &str, deps: &[(&str, &str)]) -> PnpmPackage {
    PnpmPackage {
        dependencies: PnpmSection::Entries(
            deps.iter()
                .map(|(n, v)| PnpmImporterEntry {
                    name: Some(n.to_string()),
                    version: None,
                    specifier: None,
                    inline_reference: Some(v.to_string()),
                })
                .collect(),
        ),
        ..pkg(Some(key), None)
    }
}

#[test]
fn pnpm_importer_reaches_its_transitive_packages_once() {
    let parsed = PnpmLockfile {
        importers: Some(vec![(
            ".".to_string(),
            importer(&[("react", Some("18.3.1(react-dom@18.3.1)")), ("alias", Some("npm:lodash@4.17.21")), ("local", Some("link:../x"))]),
        )]),
        packages: Some(vec![
            with_deps("react@18.3.1", &[("loose-envify", "1.4.0")]),
            with_deps("lodash@4.17.21", &[]),
            with_deps("loose-envify@1.4.0", &[("js-tokens", "4.0.0"), ("react", "18.3.1")]),
        ]),
        snapshots: Some(vec![with_deps("js-tokens@4.0.0", &[("loose-envify", "1.4.0")])]),
    };
    let deps = pnpm_graph::parse_all_from_value_for_importer(&parsed, ".");
    let got = deps.iter().map(|d| (d.name.as_str(), d.version.as_deref().unwrap())).collect::<Vec<_>>();
    assert_eq!(got, vec![("react", "18.3.1"), ("lodash", "4.17.21"), ("loose-envify", "1.4.0"), ("js-tokens", "4.0.0")]);
    assert!(pnpm_graph::parse_all_from_value_for_importer(&parsed, "missing").is_empty());
    assert_eq!(pnpm_graph::normalized_pnpm_dependency("alias", " npm:@scope/pkg@1.0.0 "), pair("@scope/pkg", "1.0.0"));
    assert_eq!(pnpm_graph::normalized_pnpm_dependency("x", "workspace:*"), None);
    assert_eq!(pnpm_graph::normalized_pnpm_dependency("x", "2.0.0(peer@1)"), pair("x", "2.0.0"));
}

fn resolution(integrity: &str, tarball: Option<&str>) -> Option<PnpmResolution> {
    Some(PnpmResolution { integrity: Some(integrity.to_string()), tarball: tarball.map(|t| t.to_string()) })
}

#[test]
fn parse_all_reads_scoped_and_unscoped_packages() {
    let parsed = PnpmLockfile {
        importers: None,
        packages: Some(vec![
            pkg(Some("react@18.3.1"), resolution("sha512-react", None)),
            pkg(Some("@scope/pkg@1.2.3"), resolution("sha512-scope", None)),
            pkg(Some("react-dom@19.0.0(react@19.0.0)"), resolution("sha512-dom", None)),
        ]),
        snapshots: None,
    };
    let deps = pnpm::parse_all_from_value(&parsed);
    let names = deps.iter().map(|dep| dep.name.as_str()).collect::<Vec<_>>();
    assert!(names.contains(&"react"));
    assert!(names.contains(&"@scope/pkg"));
    assert!(names.contains(&"react-dom"));
}

#[test]
fn bun_parse_all_reads_scoped_and_unscoped_packages() {
    let parsed = BunLockfile {
        workspaces: None,
        packages: Some(vec![
            ("react".to_string(), Some("react@18.3.1".to_string())),
            ("@scope/pkg".to_string(), Some("@scope/pkg@1.2.3".to_string())),
            ("web".to_string(), Some("web@workspace:apps/web".to_string())),
        ]),
    };
    let deps = bun::parse_all_from_value(&parsed);
    let names = deps.iter().map(|dep| dep.name.as_str()).collect::<Vec<_>>();
    assert!(names.contains(&"react"));
    assert!(names.contains(&"@scope/pkg"));
    assert!(!names.contains(&"web"));
}

#[test]
fn descriptors_split_at_the_version_separator() {
    assert_eq!(split_npm_package_and_spec("react@18.3.1"), pair("react", "18.3.1"));
    assert_eq!(split_npm_package_and_spec("@types/node@20.1.0"), pair("@types/node", "20.1.0"));
    assert_eq!(split_npm_package_and_spec("@types/node"), None);
    assert_eq!(split_npm_package_and_spec("@scope"), None);
    assert_eq!(pnpm_package_key_parts(" react-dom@19.0.0(react@19.0.0) "), pair("react-dom", "19.0.0"));
    assert_eq!(pnpm_package_key_parts("link:../lib"), None);
    assert_eq!(bun_descriptor_parts("web@workspace:apps/web"), None);
    assert_eq!(bun_descriptor_parts(" lodash@4.17.21 "), pair("lodash", "4.17.21"));
}

#[test]
fn pnpm_references_normalize_to_versions() {
    assert_eq!(normalized_pnpm_reference("18.3.1(react-dom@18.3.1)", "react"), Some("18.3.1".to_string()));
    assert_eq!(normalized_pnpm_reference("npm:react@18.3.1", "react"), Some("18.3.1".to_string()));
    assert_eq!(normalized_pnpm_reference("npm:preact@10.0.0", "react"), None);
    assert_eq!(normalized_pnpm_reference("react@18.3.1", "react"), Some("18.3.1".to_string()));
    assert_eq!(normalized_pnpm_reference("link:../lib", "lib"), None);
    assert_eq!(normalized_pnpm_reference("  ", "lib"), None);
}

fn importer_entry(name: &str, version: Option<&str>, specifier: Option<&str>) -> PnpmImporterEntry {
    PnpmImporterEntry {
        name: Some(name.to_string()),
        version: version.map(|v| v.to_string()),
        specifier: specifier.map(|v| v.to_string()),
        inline_reference: None,
    }
}

fn importer(deps: &[(&str, Option<&str>)]) -> PnpmImporter {
    PnpmImporter {
        dependencies: PnpmSection::Entries(deps.iter().map(|(n, v)| importer_entry(n, *v, None)).collect()),
        dev_dependencies: PnpmSection::Entries(Vec::new()),
        optional_dependencies: PnpmSection::Entries(Vec::new()),
        peer_dependencies: PnpmSection::Entries(Vec::new()),
    }
}

#[test]
fn pnpm_resolves_importer_references() {
    let parsed = PnpmLockfile {
        importers: Some(vec![(".".to_string(), importer(&[("react", Some("18.3.1")), ("lib", Some("link:../lib"))]))]),
        packages: None,
        snapshots: None,
    };
    let deps = vec![npm_dep("react", Some("^18.2.0")), npm_dep("lib", None), npm_dep("vue", None)];
    let result = pnpm::resolve_from_value(&parsed, &deps, ".");
    assert_eq!(result.exact_version(&deps[0]), Some("18.3.1"));
    assert!(result.exact_version(&deps[1]).is_none());
    assert_eq!(result.issues.len(), 2);
    assert!(result.issues.iter().all(|i| i.check == "resolution/missing-lockfile-entry"));

    let missing = pnpm::resolve_from_value(&parsed, &deps, "packages/app");
    assert_eq!(
        missing.issues[0].message,
        "Could not parse 'pnpm-lock.yaml'. Exact lockfile resolution is unavailable, so version-sensitive checks cannot trust this project state. lockfile did not contain importer 'packages/app'"
    );
}

#[test]
fn pnpm_provenance_checks_integrity_and_tarballs() {
    let path = "/repo/pnpm-lock.yaml";
    let ok = PnpmLockfile {
        importers: None,
        packages: Some(vec![
            pkg(Some("react@18.3.1"), resolution("sha512-x", Some("https://registry.npmjs.org/react/-/react-18.3.1.tgz"))),
            pkg(Some("link:../lib"), None),
        ]),
        snapshots: None,
    };
    assert_eq!(pnpm::validate_provenance(&ok, path), Ok(()));
    let wrong = PnpmLockfile {
        importers: None,
        packages: Some(vec![pkg(
            Some("react@18.3.1"),
            resolution("sha512-x", Some("https://registry.npmjs.org/react/-/react-99.0.0.tgz")),
        )]),
        snapshots: None,
    };
    let err = pnpm::validate_provenance(&wrong, path).unwrap_err();
    assert!(err.contains("18.3.1") && err.contains("99.0.0"));
    let no_integrity = PnpmLockfile {
        importers: None,
        packages: Some(vec![pkg(Some("react@18.3.1"), resolution(" ", None))]),
        snapshots: None,
    };
    assert!(pnpm::validate_provenance(&no_integrity, path).unwrap_err().contains("missing integrity metadata"));
    let bad_key = PnpmLockfile { importers: None, packages: Some(vec![pkg(None, None)]), snapshots: None };
    assert_eq!(
        pnpm::validate_provenance(&bad_key, path),
        Err("Broken lockfile '/repo/pnpm-lock.yaml': pnpm package keys must be strings.".to_string())
    );
    assert_eq!(pnpm_tarball_path("https://registry.yarnpkg.com/a/-/a-1.tgz#sha"), Some("a/-/a-1.tgz".to_string()));
    assert_eq!(pnpm_tarball_path("/a/-/a-1.tgz"), Some("a/-/a-1.tgz".to_string()));
    assert_eq!(pnpm_tarball_path("https://example.com/a-1.tgz"), None);
}

fn sections(deps: &[(&str, &str)]) -> NpmSections {
    NpmSections {
        dependencies: deps.iter().map(|(n, v)| (n.to_string(), v.to_string())).collect(),
        dev_dependencies: Vec::new(),
        optional_dependencies: Vec::new(),
        peer_dependencies: Vec::new(),
    }
}

fn object_shapes() -> BunSectionShapes {
    BunSectionShapes {
        dependencies: BunSectionShape::Object,
        dev_dependencies: BunSectionShape::Object,
        optional_dependencies: BunSectionShape::Object,
        peer_dependencies: BunSectionShape::Object,
    }
}

fn workspace(deps: &[(&str, &str)]) -> BunWorkspace {
    BunWorkspace { sections: sections(deps), shapes: object_shapes() }
}

fn project(binding_key: Option<&str>) -> ProjectInputSpec {
    ProjectInputSpec {
        kind: ProjectInputKind::Npm,
        manifest_path: "/repo/package.json".to_string(),
        lockfile_path_override: None,
        js_binding: binding_key.map(|key| JsProjectBinding {
            manager: JsPackageManager::Pnpm,
            root_manifest_path: "/repo/package.json".to_string(),
            lockfile_path: None,
            package_entry_key: key.to_string(),
        }),
    }
}

fn declared(deps: &[(&str, &str)]) -> PnpmImporter {
    PnpmImporter {
        dependencies: PnpmSection::Entries(deps.iter().map(|(n, v)| importer_entry(n, Some("1.0.0"), Some(v))).collect()),
        dev_dependencies: PnpmSection::Entries(Vec::new()),
        optional_dependencies: PnpmSection::Entries(Vec::new()),
        peer_dependencies: PnpmSection::Entries(Vec::new()),
    }
}

#[test]
fn pnpm_importer_must_declare_the_manifest_exactly() {
    let manifest = sections(&[("react", "^18.2.0"), ("lodash", "4.17.21")]);
    let path = "/repo/pnpm-lock.yaml";
    let lock = PnpmLockfile {
        importers: Some(vec![(".".to_string(), declared(&[("lodash", "4.17.21"), ("react", "^18.2.0")]))]),
        packages: None,
        snapshots: None,
    };
    assert_eq!(validate_pnpm_lockfile_consistency(&project(None), &manifest, &lock, path), Ok(()));

    let drifted = PnpmLockfile {
        importers: Some(vec![(".".to_string(), declared(&[("react", "^18.0.0"), ("lodash", "4.17.21")]))]),
        packages: None,
        snapshots: None,
    };
    assert_eq!(
        validate_pnpm_lockfile_consistency(&project(None), &manifest, &drifted, path),
        Err("Required lockfile '/repo/pnpm-lock.yaml' is out of sync with package.json: importer '.' does not match its 'dependencies' declarations. Regenerate pnpm-lock.yaml so it matches the manifest exactly.".to_string())
    );
    assert_eq!(
        validate_pnpm_lockfile_consistency(&project(Some("packages/app")), &manifest, &lock, path),
        Err("Required lockfile '/repo/pnpm-lock.yaml' is missing importer 'packages/app'. Regenerate pnpm-lock.yaml from the workspace root so it records this project explicitly.".to_string())
    );

    let mut broken = declared(&[("react", "^18.2.0")]);
    broken.dev_dependencies = PnpmSection::NotMapping;
    let lock = PnpmLockfile { importers: Some(vec![(".".to_string(), broken)]), packages: None, snapshots: None };
    let manifest_one = sections(&[("react", "^18.2.0")]);
    assert_eq!(
        validate_pnpm_lockfile_consistency(&project(None), &manifest_one, &lock, path),
        Err("Broken lockfile importer section 'devDependencies': expected a mapping of dependencies.".to_string())
    );

    let mut no_specifier = declared(&[]);
    no_specifier.dependencies = PnpmSection::Entries(vec![importer_entry("react", Some("18.3.1"), None)]);
    let lock = PnpmLockfile { importers: Some(vec![(".".to_string(), no_specifier)]), packages: None, snapshots: None };
    assert_eq!(
        validate_pnpm_lockfile_consistency(&project(None), &manifest_one, &lock, path),
        Err("Broken lockfile importer section 'dependencies': dependency 'react' is missing its specifier.".to_string())
    );

    let mut unnamed = declared(&[]);
    unnamed.peer_dependencies = PnpmSection::Entries(vec![PnpmImporterEntry {
        name: None,
        version: None,
        specifier: Some("1".to_string()),
        inline_reference: None,
    }]);
    let lock = PnpmLockfile { importers: Some(vec![(".".to_string(), unnamed)]), packages: None, snapshots: None };
    assert_eq!(
        validate_pnpm_lockfile_consistency(&project(None), &sections(&[]), &lock, path),
        Err("Broken lockfile importer section 'peerDependencies': dependency names must be strings.".to_string())
    );
}

#[test]
fn bun_workspace_must_declare_the_manifest_exactly() {
    let manifest = sections(&[("react", "^18.2.0")]);
    let path = "/repo/bun.lock";
    let lock = BunLockfile { workspaces: Some(vec![("".to_string(), workspace(&[("react", "^18.2.0")]))]), packages: None };
    assert_eq!(validate_bun_lockfile_consistency(&project(None), &manifest, &lock, path), Ok(()));
    assert_eq!(
        validate_bun_lockfile_consistency(&project(None), &sections(&[("react", "^18.3.0")]), &lock, path),
        Err("Required lockfile '/repo/bun.lock' is out of sync with package.json: workspace '<root>' does not match its 'dependencies' declarations. Regenerate bun.lock so it matches the manifest exactly.".to_string())
    );
    assert_eq!(
        validate_bun_lockfile_consistency(&project(Some("apps/web")), &manifest, &lock, path),
        Err("Required lockfile '/repo/bun.lock' is missing workspace 'apps/web'. Regenerate bun.lock from the workspace root so it records this project explicitly.".to_string())
    );
    let mut odd = workspace(&[("react", "^18.2.0")]);
    odd.shapes.optional_dependencies = BunSectionShape::NonStringValue("fsevents".to_string());
    let lock = BunLockfile { workspaces: Some(vec![("".to_string(), odd)]), packages: None };
    assert_eq!(
        validate_bun_lockfile_consistency(&project(None), &manifest, &lock, path),
        Err("Broken lockfile workspace section 'optionalDependencies': dependency 'fsevents' must have a string specifier.".to_string())
    );
    let mut flat = workspace(&[("react", "^18.2.0")]);
    flat.shapes.peer_dependencies = BunSectionShape::NotObject;
    let lock = BunLockfile { workspaces: Some(vec![("".to_string(), flat)]), packages: None };
    assert_eq!(
        validate_bun_lockfile_consistency(&project(None), &manifest, &lock, path),
        Err("Broken lockfile workspace section 'peerDependencies': expected a mapping of dependencies.".to_string())
    );
}

#[test]
fn bun_resolves_declared_packages_once() {
    let parsed = BunLockfile {
        workspaces: Some(vec![("".to_string(), workspace(&[("react", "^18.2.0"), ("dup", "1.0.0")]))]),
        packages: Some(vec![
            ("react".to_string(), Some("react@18.3.1".to_string())),
            ("dup".to_string(), Some("dup@1.0.0".to_string())),
            ("x/dup".to_string(), Some("dup@2.0.0".to_string())),
        ]),
    };
    let deps = vec![npm_dep("react", Some("^18.2.0")), npm_dep("dup", Some("1.0.0"))];
    let result = bun::resolve_from_value(&parsed, &deps, "");
    let r = result.resolved_version(&deps[0]).unwrap();
    assert_eq!((r.version.as_str(), r.source), ("18.3.1", ResolutionSource::Lockfile));
    assert_eq!(result.resolved_version(&deps[1]).unwrap().source, ResolutionSource::ManifestExact);
    assert_eq!(result.issues.len(), 1);
    assert!(result.issues[0].message.ends_with("lockfile contained multiple package entries for 'dup'"));

    let changed = vec![npm_dep("react", Some("^18.0.0"))];
    let result = bun::resolve_from_value(&parsed, &changed, "");
    assert_eq!(result.issues[0].check, "resolution/lockfile-out-of-sync");
}
