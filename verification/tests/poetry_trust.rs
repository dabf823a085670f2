use sloppy_joe::config::PoetryLockPolicy;
use sloppy_joe::lockfiles::poetry_hash::{TomlValue, canonical_json_from_toml, integer_text, poetry_content_hash};
use sloppy_joe::lockfiles::poetry_trust::{
    handle_poetry_missing_proof, poetry_file_entry_has_identity, poetry_package_has_artifact_identity,
    resolve_root_request_version, validate_poetry_lock_proofs, validate_provenance,
};
use sloppy_joe::{Dependency, Ecosystem};
use sloppy_joe::lockfiles::python::{PoetryFileEntry, PoetryLock, PoetryMetadata, PoetryPackage};
use sloppy_joe::lockfiles::python_sources::PythonPackageIdentity;
use sloppy_joe::report::Issue;

fn s(v: &str) -> TomlValue {
    TomlValue::String(v.to_string())
}

fn table(entries: Vec<(&str, TomlValue)>) -> TomlValue {
    TomlValue::Table(entries.into_iter().map(|(k, v)| (k.to_string(), v)).collect())
}

/// `[tool.poetry.dependencies]` with python ^3.11 and requests 2.31.0.
fn poetry_pyproject() -> TomlValue {
    table(vec![(
        "tool",
        table(vec![(
            "poetry",
            table(vec![
                ("name", s("demo")),
                ("dependencies", table(vec![("requests", s("2.31.0")), ("python", s("^3.11"))])),
            ]),
        )]),
    )])
}

const POETRY_HASH: &str = "a2bc317d8861d66a7774092d6797ba6ee5daaddd501c46bf86524f04aa57d234";

fn file(name: &str, hash: &str) -> Option<PoetryFileEntry> {
    Some(PoetryFileEntry { file: Some(name.to_string()), hash: Some(hash.to_string()) })
}

fn package(name: &str, version: &str, files: Option<Vec<Option<PoetryFileEntry>>>) -> Option<PoetryPackage> {
    Some(PoetryPackage { name: Some(name.to_string()), version: Some(version.to_string()), source: None, files })
}

fn identity(name: &str, version: &str) -> PythonPackageIdentity {
    PythonPackageIdentity { normalized_name: name.to_string(), version: version.to_string() }
}

fn lock(content_hash: Option<&str>, lock_version: Option<&str>, packages: Vec<Option<PoetryPackage>>) -> PoetryLock {
    PoetryLock {
        packages: Some(packages),
        metadata: Some(PoetryMetadata {
            lock_version: lock_version.map(|v| v.to_string()),
            content_hash: content_hash.map(|v| v.to_string()),
            files: None,
        }),
    }
}

fn hashed_requests() -> Option<PoetryPackage> {
    package("requests", "2.31.0", Some(vec![file("requests-2.31.0-py3-none-any.whl", "sha256:abc")]))
}

#[test]
fn canonical_json_sorts_keys_and_renders_scalars() {
    let value = table(vec![
        ("b", TomlValue::Array(vec![TomlValue::Integer(-12), TomlValue::Boolean(true)])),
        ("a", s("x\"y")),
        ("c", TomlValue::Float("1.5".to_string())),
        ("d", TomlValue::Datetime("1979-05-27T07:32:00Z".to_string())),
    ]);
    assert_eq!(
        canonical_json_from_toml(&value).unwrap(),
        "{\"a\": \"x\\\"y\", \"b\": [-12, true], \"c\": 1.5, \"d\": \"1979-05-27T07:32:00Z\"}"
    );
    assert_eq!(canonical_json_from_toml(&table(vec![])).unwrap(), "{}");
    assert_eq!(canonical_json_from_toml(&TomlValue::Array(vec![])).unwrap(), "[]");
}

#[test]
fn integer_text_matches_display() {
    assert_eq!(integer_text(0), "0");
    assert_eq!(integer_text(1234), "1234");
    assert_eq!(integer_text(i64::MIN), i64::MIN.to_string());
    assert_eq!(integer_text(i64::MAX), i64::MAX.to_string());
}

#[test]
fn content_hash_of_poetry_dependencies() {
    assert_eq!(poetry_content_hash(&poetry_pyproject(), true).unwrap(), POETRY_HASH);
    assert_eq!(poetry_content_hash(&poetry_pyproject(), false).unwrap(), POETRY_HASH);
}

#[test]
fn content_hash_of_pep621_project_nests_tool_poetry() {
    let pyproject = table(vec![(
        "project",
        table(vec![
            ("name", s("demo")),
            ("requires-python", s(">=3.11")),
            ("dependencies", TomlValue::Array(vec![s("requests>=2.31")])),
        ]),
    )]);
    assert_eq!(
        poetry_content_hash(&pyproject, true).unwrap(),
        "15a42caad4008f07bdde45accf27f2dcb19539d25160ff2ea02aebed7b3646d0"
    );
}

#[test]
fn missing_proof_is_refused_under_strict_policy() {
    let mut warnings: Vec<Issue> = Vec::new();
    let mut trusted = true;
    let err = handle_poetry_missing_proof(
        &mut warnings,
        &mut trusted,
        PoetryLockPolicy::Strict,
        "poetry.lock",
        "metadata section is missing",
        "fix it",
    )
    .unwrap_err();
    assert_eq!(
        err,
        "Broken lockfile 'poetry.lock': trusted Poetry mode requires stronger proof because metadata section is missing"
    );
    assert!(warnings.is_empty());
    assert!(!trusted);
}

#[test]
fn missing_proof_warns_under_lenient_policy() {
    let mut warnings: Vec<Issue> = Vec::new();
    let mut trusted = true;
    handle_poetry_missing_proof(
        &mut warnings,
        &mut trusted,
        PoetryLockPolicy::WarnMissingProofs,
        "poetry.lock",
        "content-hash metadata is missing",
        "fix it",
    )
    .unwrap();
    assert_eq!(warnings.len(), 1);
    assert_eq!(warnings[0].check, "resolution/no-trusted-lockfile");
    assert_eq!(
        warnings[0].message,
        "Poetry lockfile 'poetry.lock' is being used in reduced-confidence mode because content-hash metadata is missing."
    );
    assert_eq!(warnings[0].fix, "fix it");
    assert!(!trusted);
}

#[test]
fn file_entries_need_file_and_hash() {
    assert!(poetry_file_entry_has_identity(&file("a.whl", "sha256:1")));
    assert!(!poetry_file_entry_has_identity(&file("a.whl", "  ")));
    assert!(!poetry_file_entry_has_identity(&Some(PoetryFileEntry { file: None, hash: Some("h".to_string()) })));
    assert!(!poetry_file_entry_has_identity(&None));
}

#[test]
fn artifact_identity_falls_back_to_metadata_files() {
    let pkg = PoetryPackage { name: Some("requests".to_string()), version: Some("2.31.0".to_string()), source: None, files: None };
    let metadata = Some(PoetryMetadata {
        lock_version: Some("2.1".to_string()),
        content_hash: None,
        files: Some(vec![(
            "requests".to_string(),
            Some(vec![file("requests-2.31.0.tar.gz", "sha256:abc")]),
        )]),
    });
    assert!(poetry_package_has_artifact_identity(&pkg, &metadata, "requests", "2.31.0"));
    assert!(!poetry_package_has_artifact_identity(&pkg, &metadata, "requests", "2.32.0"));
    assert!(!poetry_package_has_artifact_identity(&pkg, &None, "requests", "2.31.0"));
}

#[test]
fn provenance_only_checks_reachable_packages() {
    let parsed = lock(Some(POETRY_HASH), Some("2.1"), vec![hashed_requests(), package("idna", "3.6", None)]);
    let mut warnings: Vec<Issue> = Vec::new();
    let mut trusted = true;
    validate_provenance(
        &parsed,
        "poetry.lock",
        &vec![identity("requests", "2.31.0")],
        PoetryLockPolicy::Strict,
        &mut warnings,
        &mut trusted,
    )
    .unwrap();
    assert!(trusted);
    let err = validate_provenance(
        &parsed,
        "poetry.lock",
        &vec![identity("idna", "3.6")],
        PoetryLockPolicy::Strict,
        &mut warnings,
        &mut trusted,
    )
    .unwrap_err();
    assert!(err.contains("package 'idna' is missing trusted artifact identity"));
}

#[test]
fn provenance_refuses_package_without_version() {
    let parsed = PoetryLock {
        packages: Some(vec![Some(PoetryPackage { name: Some("requests".to_string()), version: None, source: None, files: None })]),
        metadata: None,
    };
    let mut warnings: Vec<Issue> = Vec::new();
    let mut trusted = true;
    let err = validate_provenance(&parsed, "poetry.lock", &vec![], PoetryLockPolicy::Strict, &mut warnings, &mut trusted)
        .unwrap_err();
    assert_eq!(err, "Broken lockfile 'poetry.lock': package 'requests' entry missing version");
}

#[test]
fn trusted_poetry_lock_with_all_proofs_is_fully_trusted() {
    let parsed = lock(Some(POETRY_HASH), Some("2.1"), vec![hashed_requests()]);
    let v = validate_poetry_lock_proofs(
        &parsed,
        "# This file is automatically @generated by Poetry 2.1.1 and should not be changed by hand.\n",
        &poetry_pyproject(),
        "poetry.lock",
        &vec![identity("requests", "2.31.0")],
        PoetryLockPolicy::Strict,
    )
    .unwrap();
    assert!(v.fully_trusted);
    assert!(v.warnings.is_empty());
}

#[test]
fn stale_content_hash_is_refused() {
    let parsed = lock(Some("deadbeef"), Some("2.1"), vec![hashed_requests()]);
    let err = validate_poetry_lock_proofs(
        &parsed,
        "",
        &poetry_pyproject(),
        "poetry.lock",
        &vec![],
        PoetryLockPolicy::WarnMissingProofs,
    )
    .unwrap_err();
    assert_eq!(err, "Broken lockfile 'poetry.lock': poetry.lock content-hash is stale or contradictory to pyproject.toml");
}

#[test]
fn missing_metadata_is_a_warning_under_lenient_policy() {
    let parsed = PoetryLock { packages: Some(vec![hashed_requests()]), metadata: None };
    let v = validate_poetry_lock_proofs(
        &parsed,
        "",
        &poetry_pyproject(),
        "poetry.lock",
        &vec![],
        PoetryLockPolicy::WarnMissingProofs,
    )
    .unwrap();
    assert!(!v.fully_trusted);
    assert_eq!(v.warnings.len(), 1);
    assert!(v.warnings[0].message.contains("metadata section is missing"));
}

#[test]
fn missing_content_hash_and_artifacts_accumulate_warnings() {
    let parsed = lock(None, Some("2.1"), vec![package("requests", "2.31.0", None)]);
    let v = validate_poetry_lock_proofs(
        &parsed,
        "",
        &poetry_pyproject(),
        "poetry.lock",
        &vec![identity("requests", "2.31.0")],
        PoetryLockPolicy::WarnMissingProofs,
    )
    .unwrap();
    assert!(!v.fully_trusted);
    assert_eq!(v.warnings.len(), 2);
    assert!(v.warnings[0].message.contains("content-hash metadata is missing"));
    assert!(v.warnings[1].message.contains("package 'requests' is missing trusted artifact identity"));
}

fn pypi_dep(name: &str, version: Option<&str>) -> Dependency {
    Dependency { name: name.to_string(), version: version.map(|v| v.to_string()), ecosystem: Ecosystem::PyPI, actual_name: None }
}

fn nodes(v: &[(&str, &str)]) -> Vec<(String, String)> {
    v.iter().map(|(a, b)| (a.to_string(), b.to_string())).collect()
}

#[test]
fn root_requests_take_the_pin_or_the_single_locked_version() {
    let locked = nodes(&[("widget", "1.0.0"), ("other", "2.0.0"), ("widget", "1.0.0"), ("dup", "1"), ("dup", "2")]);
    assert_eq!(resolve_root_request_version(&pypi_dep("widget", Some("==3.0.0")), "widget", &locked).unwrap().as_deref(), Some("3.0.0"));
    assert_eq!(resolve_root_request_version(&pypi_dep("widget", Some(">=1")), "widget", &locked).unwrap().as_deref(), Some("1.0.0"));
    assert_eq!(resolve_root_request_version(&pypi_dep("absent", None), "absent", &locked).unwrap(), None);
    assert_eq!(
        resolve_root_request_version(&pypi_dep("dup", None), "dup", &locked).unwrap_err(),
        "Dependency 'dup' resolves ambiguously in poetry.lock and cannot be trusted exactly"
    );
}
