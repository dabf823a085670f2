use sloppy_joe::assoc::StringTable;
use sloppy_joe::lockfiles::npm::{NpmEntry, NpmLockfile, NpmSections, NpmV1Entry};
use sloppy_joe::local_targets::{npm_lockfile_local_target, validate_local_npm_lockfile_target};
use sloppy_joe::npm_provenance::validate_npm_lockfile_provenance;

const LOCKFILE: &str = "/repo/package-lock.json";

fn entry(name: Option<&str>, version: &str, resolved: &str) -> NpmEntry {
    NpmEntry {
        name: name.map(|n| n.to_string()),
        version: Some(version.to_string()),
        resolved: Some(resolved.to_string()),
        integrity: Some("sha512-abc".to_string()),
        link: false,
        in_bundle: false,
        bundled: false,
        sections: NpmSections::empty(),
    }
}

fn link(resolved: &str) -> NpmEntry {
    NpmEntry {
        name: None,
        version: None,
        resolved: Some(resolved.to_string()),
        integrity: None,
        link: true,
        in_bundle: false,
        bundled: false,
        sections: NpmSections::empty(),
    }
}

fn lock(entries: Vec<(&str, NpmEntry)>) -> NpmLockfile {
    let mut packages = vec![("".to_string(), None)];
    for (key, e) in entries {
        packages.push((key.to_string(), Some(e)));
    }
    NpmLockfile { lockfile_version: 3, packages: Some(packages), dependencies: None }
}

fn provenance_error(l: &NpmLockfile) -> String {
    validate_npm_lockfile_provenance(l, LOCKFILE, &StringTable::new())
        .expect_err("the lockfile must be refused")
}

fn local_target_error(dep: &str, local_spec: &str, lockfile_target: &str, expected: &str) -> String {
    let l = lock(vec![(&format!("node_modules/{dep}"), link(&format!("../{}", lockfile_target.rsplit('/').next().unwrap())))]);
    let target = npm_lockfile_local_target(&l, LOCKFILE, dep, local_spec).expect("link entry");
    validate_local_npm_lockfile_target(LOCKFILE, dep, local_spec, &target, Ok(lockfile_target.to_string()), expected)
        .expect_err("mismatched local targets must be refused")
}

#[test]
fn npm_fixture_workspace_lock_target_mismatch_blocks() {
    let msg = local_target_error(
        "workspace-lib",
        "workspace:*",
        "/repo/packages/other-lib",
        "/repo/packages/workspace-lib",
    );
    assert!(msg.contains("workspace-lib"));
    assert!(msg.contains("other-lib"));
}

#[test]
fn npm_fixture_file_lock_target_mismatch_blocks() {
    let msg = local_target_error("local-lib", "file:../local-lib", "/repo/other-lib", "/repo/local-lib");
    assert!(msg.contains("local-lib"));
    assert!(msg.contains("other-lib"));
}

#[test]
fn npm_fixture_wrong_package_identity_blocks() {
    let l = lock(vec![(
        "node_modules/react",
        entry(Some("lodash"), "4.17.21", "https://registry.npmjs.org/lodash/-/lodash-4.17.21.tgz"),
    )]);
    let msg = provenance_error(&l);
    assert!(msg.contains("react"));
    assert!(msg.contains("lodash"));
}

#[test]
fn npm_fixture_registry_url_wrong_package_blocks() {
    let l = lock(vec![(
        "node_modules/react",
        entry(None, "18.3.1", "https://registry.npmjs.org/lodash/-/lodash-18.3.1.tgz"),
    )]);
    let msg = provenance_error(&l);
    assert!(msg.contains("react"));
    assert!(msg.contains("lodash"));
}

#[test]
fn npm_fixture_registry_url_wrong_version_blocks() {
    let l = lock(vec![(
        "node_modules/react",
        entry(None, "18.3.1", "https://registry.npmjs.org/react/-/react-99.0.0.tgz"),
    )]);
    let msg = provenance_error(&l);
    assert!(msg.contains("18.3.1"));
    assert!(msg.contains("99.0.0"));
}

#[test]
fn npm_fixture_bundled_entry_blocks() {
    let mut e = entry(None, "18.3.1", "https://registry.npmjs.org/react/-/react-18.3.1.tgz");
    e.in_bundle = true;
    let l = lock(vec![("node_modules/react", e)]);
    let msg = provenance_error(&l);
    assert!(msg.contains("bundled"));
    assert!(msg.contains("react"));
}

#[test]
fn npm_provenance_accepts_registry_tarballs() {
    let l = lock(vec![
        (
            "node_modules/react",
            entry(None, "18.3.1", "https://registry.npmjs.org/react/-/react-18.3.1.tgz"),
        ),
        (
            "node_modules/@types/node",
            entry(None, "20.1.0", "https://registry.npmjs.org/@types/node/-/node-20.1.0.tgz"),
        ),
        (
            "node_modules/@babel/core",
            entry(None, "7.0.0", " registry.npmjs.org/%40babel%2fcore/-/core-7.0.0.tgz "),
        ),
        ("node_modules/local", link("../local")),
    ]);
    assert_eq!(validate_npm_lockfile_provenance(&l, LOCKFILE, &StringTable::new()), Ok(()));
}

#[test]
fn npm_provenance_reports_untrusted_sources_sanitized() {
    let l = lock(vec![(
        "node_modules/react",
        entry(None, "18.3.1", "git+https://github.com/x/react\u{1b}[2J.git"),
    )]);
    let msg = provenance_error(&l);
    assert_eq!(
        msg,
        "Required lockfile '/repo/package-lock.json' entry 'react' has untrusted resolved source 'git+https://github.com/x/react[2J.git'. sloppy-joe only trusts npm registry tarball URLs in package-lock.json and npm-shrinkwrap.json."
    );
}

#[test]
fn npm_provenance_requires_resolved_and_integrity() {
    let mut e = entry(None, "18.3.1", "https://registry.npmjs.org/react/-/react-18.3.1.tgz");
    e.resolved = None;
    assert!(provenance_error(&lock(vec![("node_modules/react", e)])).contains("missing a resolved source URL"));

    let mut e = entry(None, "18.3.1", "https://registry.npmjs.org/react/-/react-18.3.1.tgz");
    e.integrity = Some("   ".to_string());
    assert!(provenance_error(&lock(vec![("node_modules/react", e)])).contains("missing integrity metadata"));

    let mut e = entry(None, "18.3.1", "https://registry.npmjs.org/react/-/react-18.3.1.tgz");
    e.integrity = Some(" sha512abc ".to_string());
    assert!(provenance_error(&lock(vec![("node_modules/react", e)]))
        .ends_with("has malformed integrity metadata 'sha512abc'."));
}

#[test]
fn npm_provenance_accepts_recorded_alias_targets() {
    let l = lock(vec![(
        "node_modules/my-react",
        entry(Some("react"), "18.3.1", "https://registry.npmjs.org/react/-/react-18.3.1.tgz"),
    )]);
    let mut aliases = StringTable::new();
    aliases.insert("my-react".to_string(), "react".to_string());
    assert_eq!(validate_npm_lockfile_provenance(&l, LOCKFILE, &aliases), Ok(()));
    assert!(validate_npm_lockfile_provenance(&l, LOCKFILE, &StringTable::new()).is_err());
}

#[test]
fn npm_provenance_walks_nested_v1_entries() {
    let l = NpmLockfile {
        lockfile_version: 1,
        packages: None,
        dependencies: Some(vec![
            NpmV1Entry {
                depth: 0,
                name: "react".to_string(),
                entry: Some(entry(None, "16.0.0", "https://registry.npmjs.org/react/-/react-16.0.0.tgz")),
            },
            NpmV1Entry {
                depth: 1,
                name: "loose-envify".to_string(),
                entry: Some(entry(None, "1.4.0", "https://example.com/loose-envify-1.4.0.tgz")),
            },
        ]),
    };
    assert!(provenance_error(&l).contains("entry 'loose-envify' has untrusted resolved source"));
    let broken = NpmLockfile {
        lockfile_version: 1,
        packages: None,
        dependencies: Some(vec![NpmV1Entry { depth: 0, name: "react".to_string(), entry: None }]),
    };
    assert_eq!(
        provenance_error(&broken),
        "Broken lockfile '/repo/package-lock.json': dependency entry 'react' was not an object."
    );
}

#[test]
fn npm_lockfile_local_target_requires_a_link_entry() {
    let l = lock(vec![(
        "node_modules/local-lib",
        entry(None, "1.0.0", "https://registry.npmjs.org/local-lib/-/local-lib-1.0.0.tgz"),
    )]);
    let err = npm_lockfile_local_target(&l, LOCKFILE, "local-lib", "file:../local-lib").unwrap_err();
    assert!(err.contains("must be a local link for 'file:../local-lib'"));
    let err = npm_lockfile_local_target(&l, LOCKFILE, "absent", "file:../absent").unwrap_err();
    assert!(err.contains("local npm dependency 'absent' is missing its lockfile entry"));
    let l = lock(vec![("node_modules/local-lib", link("../local-lib"))]);
    let target = npm_lockfile_local_target(&l, LOCKFILE, "local-lib", "file:../local-lib").unwrap();
    assert_eq!(target.recorded, "../local-lib");
    assert_eq!(target.lookup, "/local-lib");
    assert_eq!(
        validate_local_npm_lockfile_target(LOCKFILE, "local-lib", "file:../local-lib", &target, Ok("/local-lib".to_string()), "/local-lib"),
        Ok(())
    );
}
