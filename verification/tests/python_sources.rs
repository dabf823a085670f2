use sloppy_joe::config::{SloppyJoeConfig, normalize_python_index_url};
use sloppy_joe::lockfiles::python::{PoetryLock, PoetryPackage, PoetrySource};
use sloppy_joe::lockfiles::python_sources::{
    PythonDependencySourceIntent, PythonPackageIdentity, PythonSourceDecl, validate_source_policy,
};

fn explicit(name: &str, version: &str, url: &str, reference: &str) -> Option<PoetryPackage> {
    Some(PoetryPackage {
        name: Some(name.to_string()),
        version: Some(version.to_string()),
        source: Some(Some(PoetrySource {
            source_type: Some("explicit".to_string()),
            url: Some(url.to_string()),
            reference: Some(reference.to_string()),
        })),
        files: None,
    })
}

fn pypi(name: &str, version: &str) -> Option<PoetryPackage> {
    Some(PoetryPackage { name: Some(name.to_string()), version: Some(version.to_string()), source: None, files: None })
}

/// A `poetry.lock` whose one package, torch 2.6.0, comes from the explicit
/// source `pytorch`.
fn poetry_lock_alt_source() -> PoetryLock {
    PoetryLock { packages: Some(vec![explicit("torch", "2.6.0", "https://download.pytorch.org/whl/cu124", "pytorch")]), metadata: None }
}

fn trusted_python_index_config(urls: &[&str]) -> SloppyJoeConfig {
    SloppyJoeConfig {
        trusted_indexes: vec![("pypi".to_string(), urls.iter().map(|url| normalize_python_index_url(url)).collect())],
        ..SloppyJoeConfig::default()
    }
}

fn decl(name: &str, url: &str) -> PythonSourceDecl {
    PythonSourceDecl { name: name.to_string(), normalized_url: url.to_string() }
}

fn intent(package: &str, source: &str, url: &str) -> PythonDependencySourceIntent {
    PythonDependencySourceIntent {
        package: package.to_string(),
        source_name: source.to_string(),
        normalized_url: url.to_string(),
    }
}

fn two_torch_sources() -> PoetryLock {
    PoetryLock {
        packages: Some(vec![
            explicit("torch", "2.6.0", "https://download.pytorch.org/whl/cu124", "pytorch"),
            explicit("torch", "2.6.0", "https://packages.example.com/simple", "mirror"),
        ]),
        metadata: None,
    }
}

#[test]
fn source_policy_blocks_when_declared_source_has_no_resolved_package() {
    let parsed = poetry_lock_alt_source();
    let declared_sources = vec![decl("pytorch", "https://download.pytorch.org/whl/cu124/")];
    let intents = vec![intent("private-lib", "pytorch", "https://download.pytorch.org/whl/cu124/")];
    let config = trusted_python_index_config(&["https://download.pytorch.org/whl/cu124"]);
    let err = validate_source_policy(&parsed, &declared_sources, &intents, &config, "poetry.lock", None, None)
        .expect_err("missing resolved package must fail closed");
    assert!(err.contains("missing a resolved package entry"));
}

#[test]
fn source_policy_blocks_when_same_package_resolves_from_multiple_sources() {
    let parsed = two_torch_sources();
    let declared_sources = vec![
        decl("pytorch", "https://download.pytorch.org/whl/cu124/"),
        decl("mirror", "https://packages.example.com/simple/"),
    ];
    let intents = vec![intent("torch", "pytorch", "https://download.pytorch.org/whl/cu124/")];
    let config = trusted_python_index_config(&["https://download.pytorch.org/whl/cu124", "https://packages.example.com/simple"]);
    let err = validate_source_policy(&parsed, &declared_sources, &intents, &config, "poetry.lock", None, None)
        .expect_err("ambiguous source resolution must fail closed");
    assert!(err.contains("resolves from multiple sources"));
}

#[test]
fn source_policy_rejects_reachable_duplicate_same_version_across_sources() {
    let parsed = two_torch_sources();
    let declared_sources = vec![
        decl("pytorch", "https://download.pytorch.org/whl/cu124/"),
        decl("mirror", "https://packages.example.com/simple/"),
    ];
    let config = trusted_python_index_config(&["https://download.pytorch.org/whl/cu124", "https://packages.example.com/simple"]);
    let reachable = vec![PythonPackageIdentity { normalized_name: "torch".to_string(), version: "2.6.0".to_string() }];
    let err = validate_source_policy(&parsed, &declared_sources, &[], &config, "poetry.lock", Some(&reachable), None)
        .expect_err("duplicate same-version packages across sources must fail closed");
    assert!(err.contains("multiple sources"));
}

#[test]
fn source_policy_blocks_when_non_pypi_lock_source_is_not_declared() {
    let parsed = poetry_lock_alt_source();
    let config = trusted_python_index_config(&["https://download.pytorch.org/whl/cu124"]);
    let err = validate_source_policy(&parsed, &[], &[], &config, "poetry.lock", None, None)
        .expect_err("undeclared non-PyPI lock source must fail closed");
    assert!(err.contains("not declared"));
}

#[test]
fn source_policy_reports_the_sources_it_used() {
    let parsed = PoetryLock {
        packages: Some(vec![
            pypi("requests", "2.31.0"),
            explicit("torch", "2.6.0", " https://download.pytorch.org/whl/cu124// ", "PyTorch"),
        ]),
        metadata: None,
    };
    let declared_sources = vec![decl("pytorch", "https://download.pytorch.org/whl/cu124/")];
    let intents = vec![intent("torch", "PYTORCH", "https://download.pytorch.org/whl/cu124/")];
    let config = trusted_python_index_config(&["https://download.pytorch.org/whl/cu124"]);
    let (urls, names) =
        validate_source_policy(&parsed, &declared_sources, &intents, &config, "poetry.lock", None, None).unwrap();
    assert_eq!(urls, vec!["https://pypi.org/simple/".to_string(), "https://download.pytorch.org/whl/cu124/".to_string()]);
    assert_eq!(names, vec!["pytorch".to_string()]);
}

#[test]
fn source_policy_rejects_untrusted_and_unauthorized_indexes() {
    let parsed = poetry_lock_alt_source();
    let declared_sources = vec![decl("pytorch", "https://download.pytorch.org/whl/cu124/")];
    let err = validate_source_policy(&parsed, &declared_sources, &[], &SloppyJoeConfig::default(), "a/poetry.lock", None, None)
        .unwrap_err();
    assert_eq!(
        err,
        "Broken lockfile 'a/poetry.lock': package 'torch' resolves from untrusted Python index 'https://download.pytorch.org/whl/cu124/'"
    );
    let config = trusted_python_index_config(&["https://download.pytorch.org/whl/cu124"]);
    let authorized = vec![(
        PythonPackageIdentity { normalized_name: "torch".to_string(), version: "2.6.0".to_string() },
        vec!["https://pypi.org/simple/".to_string()],
    )];
    let err = validate_source_policy(&parsed, &declared_sources, &[], &config, "a/poetry.lock", None, Some(&authorized))
        .unwrap_err();
    assert!(err.ends_with("but that source is not authorized by the in-scope root dependency graph"));
    let unreachable = vec![PythonPackageIdentity { normalized_name: "numpy".to_string(), version: "1.0.0".to_string() }];
    assert_eq!(
        validate_source_policy(&parsed, &[], &[], &SloppyJoeConfig::default(), "a/poetry.lock", Some(&unreachable), None),
        Ok((vec![], vec![]))
    );
}

#[test]
fn python_index_urls_normalize_to_one_trailing_slash() {
    assert_eq!(normalize_python_index_url(" https://x.org/simple// "), "https://x.org/simple/");
    assert_eq!(normalize_python_index_url("https://x.org/simple/"), "https://x.org/simple/");
}
