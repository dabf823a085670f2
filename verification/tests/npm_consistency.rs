use sloppy_joe::lockfiles::npm::{NpmEntry, NpmLockfile, NpmSections, NpmV1Entry};
use sloppy_joe::lockfiles::{LockfileData, ParsedLockfile};
use sloppy_joe::npm_consistency::validate_npm_lockfile_consistency;
use sloppy_joe::{Dependency, Ecosystem};

const LOCKFILE: &str = "/repo/package-lock.json";

fn pairs(items: &[(&str, &str)]) -> Vec<(String, String)> {
    items.iter().map(|(n, v)| (n.to_string(), v.to_string())).collect()
}

fn sections(deps: &[(&str, &str)], dev: &[(&str, &str)]) -> NpmSections {
    NpmSections {
        dependencies: pairs(deps),
        dev_dependencies: pairs(dev),
        optional_dependencies: Vec::new(),
        peer_dependencies: Vec::new(),
    }
}

fn entry(name: Option<&str>, version: Option<&str>, sections: NpmSections) -> NpmEntry {
    NpmEntry {
        name: name.map(|n| n.to_string()),
        version: version.map(|v| v.to_string()),
        resolved: None,
        integrity: None,
        link: false,
        in_bundle: false,
        bundled: false,
        sections,
    }
}

fn lock(entries: Vec<(&str, NpmEntry)>) -> NpmLockfile {
    NpmLockfile {
        lockfile_version: 3,
        packages: Some(entries.into_iter().map(|(k, e)| (k.to_string(), Some(e))).collect()),
        dependencies: None,
    }
}

#[test]
fn consistency_accepts_matching_root_entry_in_any_order() {
    let manifest = sections(&[("react", "^18.2.0"), ("lodash", "^4.0.0")], &[("jest", "^29.0.0")]);
    let l = lock(vec![
        ("", entry(Some("demo"), None, sections(&[("lodash", "^4.0.0"), ("react", "^18.2.0")], &[("jest", "^29.0.0")]))),
        ("node_modules/react", entry(None, Some("18.3.1"), NpmSections::empty())),
    ]);
    assert_eq!(validate_npm_lockfile_consistency(&manifest, &l, LOCKFILE, ""), Ok(()));
}

#[test]
fn consistency_reports_the_first_differing_section() {
    let manifest = sections(&[("react", "^18.2.0")], &[("jest", "^29.0.0")]);
    let l = lock(vec![("", entry(None, None, sections(&[("react", "^18.2.0")], &[("jest", "^28.0.0")])))]);
    assert_eq!(
        validate_npm_lockfile_consistency(&manifest, &l, LOCKFILE, ""),
        Err("Required lockfile '/repo/package-lock.json' is out of sync with package.json: package entry '<root>' does not match its 'devDependencies' declarations. Regenerate the lockfile so it matches the manifest exactly.".to_string())
    );
}

#[test]
fn consistency_requires_the_workspace_entry() {
    let manifest = sections(&[("react", "^18.2.0")], &[]);
    let l = lock(vec![("", entry(None, None, sections(&[], &[])))]);
    let err = validate_npm_lockfile_consistency(&manifest, &l, LOCKFILE, "packages/app").unwrap_err();
    assert!(err.contains("is missing workspace package entry 'packages/app'"));
}

#[test]
fn consistency_compares_v1_top_level_names() {
    let manifest = sections(&[("react", "^16.0.0")], &[("jest", "^20.0.0")]);
    let v1 = |names: &[(usize, &str)]| NpmLockfile {
        lockfile_version: 1,
        packages: None,
        dependencies: Some(
            names
                .iter()
                .map(|(d, n)| NpmV1Entry { depth: *d, name: n.to_string(), entry: None })
                .collect(),
        ),
    };
    let same = v1(&[(0, "jest"), (0, "react"), (1, "loose-envify")]);
    assert_eq!(validate_npm_lockfile_consistency(&manifest, &same, LOCKFILE, ""), Ok(()));
    let extra = v1(&[(0, "jest"), (0, "react"), (0, "left-pad")]);
    assert!(validate_npm_lockfile_consistency(&manifest, &extra, LOCKFILE, "")
        .unwrap_err()
        .contains("direct dependency entries do not match"));
    let nested_only = v1(&[(0, "react"), (1, "jest")]);
    assert!(validate_npm_lockfile_consistency(&manifest, &nested_only, LOCKFILE, "").is_err());
}

#[test]
fn consistency_checks_npm_alias_targets() {
    let manifest = sections(&[("my-react", "npm:react@18.3.1")], &[]);
    let root = entry(None, None, sections(&[("my-react", "npm:react@18.3.1")], &[]));
    let good = lock(vec![
        ("", root),
        ("node_modules/my-react", entry(Some("react"), Some("18.3.1"), NpmSections::empty())),
    ]);
    assert_eq!(validate_npm_lockfile_consistency(&manifest, &good, LOCKFILE, ""), Ok(()));

    let root = entry(None, None, sections(&[("my-react", "npm:react@18.3.1")], &[]));
    let wrong = lock(vec![
        ("", root),
        ("node_modules/my-react", entry(Some("preact"), Some("10.0.0"), NpmSections::empty())),
    ]);
    assert_eq!(
        validate_npm_lockfile_consistency(&manifest, &wrong, LOCKFILE, ""),
        Err("Required lockfile '/repo/package-lock.json' is out of sync with package.json: npm alias 'my-react' targets 'react' in the manifest but 'preact' in the lockfile.".to_string())
    );

    let bad_spec = sections(&[("x", "npm:react")], &[]);
    let root = entry(None, None, sections(&[("x", "npm:react")], &[]));
    let l = lock(vec![("", root)]);
    assert_eq!(
        validate_npm_lockfile_consistency(&bad_spec, &l, LOCKFILE, ""),
        Err("Unsupported npm alias 'npm:react' in package.json: expected npm:<package>@<version>".to_string())
    );

    let scoped = sections(&[("t", "npm:@types/node@20.0.0")], &[]);
    let root = entry(None, None, sections(&[("t", "npm:@types/node@20.0.0")], &[]));
    let l = lock(vec![("", root), ("node_modules/t", entry(Some("@types/node"), None, NpmSections::empty()))]);
    assert_eq!(validate_npm_lockfile_consistency(&scoped, &l, LOCKFILE, ""), Ok(()));
}

fn npm_dep(name: &str, version: &str) -> Dependency {
    Dependency {
        name: name.to_string(),
        version: Some(version.to_string()),
        ecosystem: Ecosystem::Npm,
        actual_name: None,
    }
}

#[test]
fn lockfile_data_separates_direct_and_transitive_dependencies() {
    let l = lock(vec![
        ("", entry(Some("demo"), None, NpmSections::empty())),
        ("node_modules/react", entry(None, Some("18.3.1"), NpmSections::empty())),
        ("node_modules/loose-envify", entry(None, Some("1.4.0"), NpmSections::empty())),
        ("node_modules/a/node_modules/loose-envify", entry(None, Some("1.4.0"), NpmSections::empty())),
        ("node_modules/b/node_modules/loose-envify", entry(None, Some("1.3.0"), NpmSections::empty())),
    ]);
    let direct = vec![npm_dep("react", "^18.2.0")];
    let parsed = ParsedLockfile::Npm { value: l, file_name: "package-lock.json".to_string() };
    let data = LockfileData::from_parsed(parsed, &direct).unwrap();
    assert_eq!(data.resolution.exact_version(&direct[0]), Some("18.3.1"));
    let got: Vec<(String, Option<String>)> =
        data.transitive_deps.iter().map(|d| (d.name.clone(), d.version.clone())).collect();
    assert_eq!(
        got,
        vec![
            ("loose-envify".to_string(), Some("1.4.0".to_string())),
            ("loose-envify".to_string(), Some("1.3.0".to_string())),
        ]
    );
    let transitive = vec![npm_dep("loose-envify", "1.4.0")];
    assert_eq!(data.resolve_transitive(&transitive).exact_version(&transitive[0]), Some("1.4.0"));
}

#[test]
fn lockfile_data_without_lockfile_has_no_transitive_dependencies() {
    let direct = vec![npm_dep("react", "18.3.1")];
    let data = LockfileData::from_parsed(ParsedLockfile::NoLockfile, &direct).unwrap();
    assert!(data.transitive_deps.is_empty());
    assert_eq!(data.resolution.exact_version(&direct[0]), Some("18.3.1"));
    let broken = ParsedLockfile::Npm {
        value: NpmLockfile { lockfile_version: 3, packages: None, dependencies: None },
        file_name: "package-lock.json".to_string(),
    };
    assert!(LockfileData::from_parsed(broken, &direct).is_err());
}
