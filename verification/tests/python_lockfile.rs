use sloppy_joe::lockfiles::python::{
    PoetryLock, PoetryPackage, extract_packages, parse_all_from_value, resolve_from_value,
    resolve_from_value_with_mode,
};
use sloppy_joe::lockfiles::ResolutionMode;
use sloppy_joe::{Dependency, Ecosystem};

fn package(name: &str, version: &str) -> Option<PoetryPackage> {
    Some(PoetryPackage { name: Some(name.to_string()), version: Some(version.to_string()), source: None, files: None })
}

/// The `[[package]]` tables of a `poetry.lock` holding requests 2.31.0,
/// urllib3 2.1.0 and certifi 2023.11.17.
fn poetry_lock() -> PoetryLock {
    PoetryLock {
        packages: Some(vec![
            package("requests", "2.31.0"),
            package("urllib3", "2.1.0"),
            package("certifi", "2023.11.17"),
        ]),
        metadata: None,
    }
}

fn dep(name: &str, version: Option<&str>) -> Dependency {
    Dependency {
        name: name.to_string(),
        version: version.map(|v| v.to_string()),
        ecosystem: Ecosystem::PyPI,
        actual_name: None,
    }
}

#[test]
fn extract_packages_works() {
    let parsed = poetry_lock();
    let packages = extract_packages(&parsed);
    assert_eq!(packages.len(), 3);
    assert!(packages.iter().any(|(n, v)| n == "requests" && v == "2.31.0"));
    assert!(packages.iter().any(|(n, v)| n == "urllib3" && v == "2.1.0"));
    assert!(packages.iter().any(|(n, v)| n == "certifi" && v == "2023.11.17"));
}

#[test]
fn resolve_finds_version() {
    let parsed = poetry_lock();
    let deps = vec![dep("requests", Some("==2.31.0")), dep("urllib3", None)];
    let result = resolve_from_value(&parsed, &deps);
    assert_eq!(result.exact_version(&deps[0]), Some("2.31.0"));
    assert_eq!(result.exact_version(&deps[1]), Some("2.1.0"));
    assert!(result.issues.is_empty());
}

#[test]
fn resolve_pep503_normalized() {
    let parsed = poetry_lock();
    let deps = vec![dep("Requests", None)];
    let result = resolve_from_value(&parsed, &deps);
    assert_eq!(result.exact_version(&deps[0]), Some("2.31.0"));
}

#[test]
fn resolve_chooses_exact_poetry_version_when_multiple_same_name_packages_exist() {
    let parsed = PoetryLock { packages: Some(vec![package("widget", "1.0.0"), package("widget", "2.0.0")]), metadata: None };
    let deps = vec![dep("widget", Some("==2.0.0"))];
    let result = resolve_from_value_with_mode(&parsed, &deps, ResolutionMode::Direct);
    assert_eq!(result.exact_version(&deps[0]), Some("2.0.0"));
    assert!(result.issues.is_empty());
}

#[test]
fn resolve_missing_dep_reports_issue() {
    let parsed = poetry_lock();
    let deps = vec![dep("nonexistent-pkg", None)];
    let result = resolve_from_value(&parsed, &deps);
    assert!(result.exact_version(&deps[0]).is_none());
    assert!(!result.issues.is_empty());
    assert!(result.issues[0].check.contains("missing"));
}

#[test]
fn parse_all_extracts_transitive() {
    let parsed = poetry_lock();
    let all = parse_all_from_value(&parsed);
    assert_eq!(all.len(), 3);
    let names: Vec<&str> = all.iter().map(|d| d.name.as_str()).collect();
    assert!(names.contains(&"requests"));
    assert!(names.contains(&"urllib3"));
    assert!(names.contains(&"certifi"));
}

#[test]
fn resolve_requirement_without_pin_needs_lockfile_sync_in_direct_mode() {
    let parsed = poetry_lock();
    let deps = vec![dep("requests", Some(">=2.0"))];
    let direct = resolve_from_value(&parsed, &deps);
    assert!(direct.exact_version(&deps[0]).is_none());
    assert_eq!(direct.issues[0].check, "resolution/no-trusted-lockfile-sync");
    let transitive = resolve_from_value_with_mode(&parsed, &deps, ResolutionMode::Transitive);
    assert_eq!(transitive.exact_version(&deps[0]), Some("2.31.0"));
}
