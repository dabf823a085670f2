use sloppy_joe::assoc::StringTable;
use sloppy_joe::cargo_policy::{
    CargoConfigDocument, CargoConfigPath, CargoConfigRewrites, CargoConfigSource, CargoConfigSourceDefinition,
    CargoDependencySpec, CargoManifest, CargoPatchScope,
    CargoRewriteDecl, CargoSourceSpec, CargoSourceVerdict, EffectiveCargoRewrite, LocalCratePackage,
    LocalCrateTarget, apply_cargo_config_source_rewrite, cargo_dependency_source_id, cargo_fail,
    cargo_git_source_id, cargo_issue_message_prefix, cargo_normalize_registry_source,
    cargo_patch_scope_matches, cargo_patch_scope_matches_lockfile_source, cargo_registry_versions_match,
    cargo_rewrite_matches, cargo_rewrite_matches_lockfile_scope, collect_effective_cargo_rewrites,
    ensure_additive_cargo_config_rewrites, merge_cargo_config_rewrites, parse_cargo_config_rewrites,
    push_effective_cargo_rewrite,
    resolve_cargo_effective_dependencies, strip_cargo_build_metadata, validate_cargo_dependency_spec,
    validate_cargo_effective_rewrite, validate_cargo_git_source, validate_cargo_local_target,
    validate_cargo_registry_source,
};
use sloppy_joe::checks::names;
use sloppy_joe::config::{CargoGitPolicy, SloppyJoeConfig, TrustedRegistry};
use sloppy_joe::lockfiles::cargo::{CargoLockPackage, CargoLockfile};
use sloppy_joe::report::Severity;

const CRATES_IO: &str = "registry+https://github.com/rust-lang/crates.io-index";
const REV: &str = "0123456789abcdef0123456789abcdef01234567";

fn dep(name: &str, version: Option<&str>, source: CargoSourceSpec) -> CargoDependencySpec {
    CargoDependencySpec {
        package_name: name.to_string(),
        version: version.map(|v| v.to_string()),
        source,
        workspace_member_invalid_keys: Vec::new(),
    }
}

fn locked(name: &str, version: &str, source: Option<&str>) -> Option<CargoLockPackage> {
    Some(CargoLockPackage {
        name: Some(name.to_string()),
        version: Some(version.to_string()),
        source: source.map(|s| s.to_string()),
    })
}

fn lock(packages: Vec<Option<CargoLockPackage>>) -> CargoLockfile {
    CargoLockfile { packages: Some(packages) }
}

fn registry(name: &str, source: &str) -> TrustedRegistry {
    TrustedRegistry { name: name.to_string(), source: source.to_string() }
}

fn config_with_registry() -> SloppyJoeConfig {
    SloppyJoeConfig {
        trusted_cargo_registries: vec![registry("corp", "sparse+https://cargo.corp.example/index/")],
        ..SloppyJoeConfig::default()
    }
}

fn git(url: &str, rev: Option<&str>) -> CargoSourceSpec {
    CargoSourceSpec::Git { url: url.to_string(), rev: rev.map(|r| r.to_string()), branch: None, tag: None }
}

fn empty_rewrites() -> CargoConfigRewrites {
    CargoConfigRewrites {
        local_paths: StringTable::new(),
        source_replace_with: StringTable::new(),
        source_definitions: Vec::new(),
        rewrite_targets: Vec::new(),
    }
}

fn rewrite(name: &str, scope: Option<CargoPatchScope>, spec: CargoDependencySpec, base: &str) -> EffectiveCargoRewrite {
    EffectiveCargoRewrite {
        package_name: name.to_string(),
        patch_scope: scope,
        replace_source: None,
        replace_version: None,
        spec,
        base_dir: base.to_string(),
    }
}

fn manifest(deps: Vec<CargoDependencySpec>) -> CargoManifest {
    CargoManifest {
        manifest_path: "/repo/Cargo.toml".to_string(),
        manifest_dir: "/repo".to_string(),
        dependencies: deps,
        patches: Vec::new(),
        replaces: Vec::new(),
        workspace_dependencies: Vec::new(),
    }
}

#[test]
fn cargo_errors_carry_their_check_prefix() {
    assert_eq!(cargo_issue_message_prefix(names::RESOLUTION_UNTRUSTED_GIT_SOURCE), "Cargo git source");
    assert_eq!(cargo_issue_message_prefix(names::RESOLUTION_PARSE_FAILED), "Cargo dependency source");
    assert_eq!(
        cargo_fail(names::RESOLUTION_LOCAL_DEPENDENCY_SOURCE, "boom"),
        "Cargo local dependency source: boom"
    );
}

#[test]
fn source_ids_follow_cargo_lock_spelling() {
    assert_eq!(cargo_normalize_registry_source("  https://r.example/index "), "registry+https://r.example/index");
    assert_eq!(cargo_normalize_registry_source("sparse+https://r.example/"), "sparse+https://r.example/");
    assert_eq!(cargo_git_source_id("https://g.example/x", Some("abc"), Some("main"), None), "git+https://g.example/x?rev=abc#abc");
    assert_eq!(cargo_git_source_id("https://g.example/x", None, Some("main"), Some("v1")), "git+https://g.example/x?branch=main");
    assert_eq!(cargo_git_source_id("https://g.example/x", None, None, Some("v1")), "git+https://g.example/x?tag=v1");
    assert_eq!(cargo_git_source_id("https://g.example/x", None, None, None), "git+https://g.example/x");
    let config = config_with_registry();
    assert_eq!(
        cargo_dependency_source_id(&dep("serde", None, CargoSourceSpec::CratesIo), &config),
        Some(CRATES_IO.to_string())
    );
    assert_eq!(
        cargo_dependency_source_id(&dep("x", None, CargoSourceSpec::RegistryAlias("corp".to_string())), &config),
        Some("sparse+https://cargo.corp.example/index/".to_string())
    );
    assert_eq!(cargo_dependency_source_id(&dep("x", None, CargoSourceSpec::RegistryAlias("other".to_string())), &config), None);
    assert_eq!(cargo_dependency_source_id(&dep("x", None, CargoSourceSpec::Path("../x".to_string())), &config), None);
}

#[test]
fn build_metadata_is_ignored_when_matching_registry_versions() {
    assert_eq!(strip_cargo_build_metadata("1.2.3+build.7"), "1.2.3");
    assert_eq!(strip_cargo_build_metadata("1.2.3"), "1.2.3");
    assert!(cargo_registry_versions_match("1.2.3+a", "1.2.3+b"));
    assert!(!cargo_registry_versions_match("1.2.3", "1.2.4"));
}

#[test]
fn patch_scopes_match_sources() {
    let config = config_with_registry();
    assert!(cargo_patch_scope_matches(&CargoPatchScope::CratesIo, &CargoSourceSpec::CratesIo, &config));
    assert!(!cargo_patch_scope_matches(&CargoPatchScope::CratesIo, &CargoSourceSpec::Workspace, &config));
    assert!(cargo_patch_scope_matches(
        &CargoPatchScope::SourceUrl("https://r.example/index".to_string()),
        &CargoSourceSpec::RegistryIndex("registry+https://r.example/index".to_string()),
        &config
    ));
    assert!(cargo_patch_scope_matches(
        &CargoPatchScope::SourceUrl("sparse+https://cargo.corp.example/index/".to_string()),
        &CargoSourceSpec::RegistryAlias("corp".to_string()),
        &config
    ));
    assert!(cargo_patch_scope_matches_lockfile_source(&CargoPatchScope::CratesIo, CRATES_IO, &config));
    assert!(cargo_patch_scope_matches_lockfile_source(
        &CargoPatchScope::SourceUrl("https://g.example/x".to_string()),
        "git+https://g.example/x?rev=1#1",
        &config
    ));
    assert!(!cargo_patch_scope_matches_lockfile_source(
        &CargoPatchScope::RegistryName("nope".to_string()),
        CRATES_IO,
        &config
    ));
}

#[test]
fn rewrites_match_by_name_source_version_and_scope() {
    let config = SloppyJoeConfig::default();
    let mut rw = rewrite("serde", Some(CargoPatchScope::CratesIo), dep("serde", None, CargoSourceSpec::Path("../serde".to_string())), "/repo");
    assert!(cargo_rewrite_matches(&rw, &dep("serde", Some("=1.0.1"), CargoSourceSpec::CratesIo), &config));
    assert!(!cargo_rewrite_matches(&rw, &dep("serde_json", None, CargoSourceSpec::CratesIo), &config));
    rw.replace_version = Some("1.0.1".to_string());
    assert!(cargo_rewrite_matches(&rw, &dep("serde", Some("=1.0.1"), CargoSourceSpec::CratesIo), &config));
    assert!(!cargo_rewrite_matches(&rw, &dep("serde", Some("1.0.1"), CargoSourceSpec::CratesIo), &config));

    let in_lock = lock(vec![locked("serde", "1.0.1", Some(CRATES_IO))]);
    assert!(cargo_rewrite_matches_lockfile_scope(&rw, &in_lock, &config));
    let elsewhere = lock(vec![locked("serde", "1.0.1", Some("registry+https://other"))]);
    assert!(!cargo_rewrite_matches_lockfile_scope(&rw, &elsewhere, &config));
    // A locked package without a source is in any patch's scope.
    let localized = lock(vec![locked("serde", "1.0.1", None)]);
    assert!(cargo_rewrite_matches_lockfile_scope(&rw, &localized, &config));
    assert!(!cargo_rewrite_matches_lockfile_scope(&rw, &lock(vec![]), &config));

    // A path replacement of a registry source is in scope when the package
    // is locked only as a local package.
    rw.replace_source = Some(CRATES_IO.to_string());
    assert!(cargo_rewrite_matches_lockfile_scope(&rw, &localized, &config));
    let both = lock(vec![locked("serde", "1.0.1", None), locked("serde", "1.0.1", Some("registry+https://other"))]);
    assert!(!cargo_rewrite_matches_lockfile_scope(&rw, &both, &config));
}

#[test]
fn registry_sources_must_be_trusted_and_locked() {
    let config = config_with_registry();
    let d = dep("serde", Some("=1.0.200"), CargoSourceSpec::CratesIo);
    let ok = lock(vec![locked("serde", "1.0.200", Some(CRATES_IO))]);
    assert_eq!(validate_cargo_registry_source(&d, None, None, CRATES_IO, &ok, &config), Ok(()));
    let stale = lock(vec![locked("serde", "1.0.199", Some(CRATES_IO))]);
    assert_eq!(
        validate_cargo_registry_source(&d, None, None, CRATES_IO, &stale, &config),
        Err("Cargo dependency source: Cargo.lock did not prove a trusted registry entry for 'serde' with source 'registry+https://github.com/rust-lang/crates.io-index'.".to_string())
    );
    assert_eq!(
        validate_cargo_registry_source(&d, None, None, "registry+https://evil.example", &ok, &config),
        Err("Cargo registry source: 'serde' uses registry source 'registry+https://evil.example' which is not trusted by config.".to_string())
    );
    assert_eq!(
        validate_cargo_registry_source(&d, None, Some("corp"), CRATES_IO, &ok, &config).unwrap_err(),
        "Cargo registry source: 'serde' uses registry source 'registry+https://github.com/rust-lang/crates.io-index' which is not trusted by config."
    );
}

#[test]
fn git_dependencies_need_policy_pin_allowlist_and_lock() {
    let url = "https://github.com/acme/widget";
    let d = dep("widget", None, git(url, Some(REV)));
    let source = format!("git+{url}?rev={REV}#{REV}");
    let lockfile = lock(vec![locked("widget", "0.3.0", Some(&source))]);
    let blocked = SloppyJoeConfig::default();
    assert_eq!(
        validate_cargo_git_source(&d, None, &d.source, &lockfile, &blocked).unwrap_err(),
        "Cargo git source: 'widget' uses git source 'https://github.com/acme/widget' but cargo_git_policy blocks git dependencies by default."
    );
    let config = SloppyJoeConfig {
        cargo_git_policy: CargoGitPolicy::WarnPinned,
        trusted_cargo_git_sources: vec![format!(" {url} ")],
        ..SloppyJoeConfig::default()
    };
    let warning = validate_cargo_git_source(&d, Some("0.3.0"), &d.source, &lockfile, &config).unwrap();
    assert_eq!(warning.check, names::RESOLUTION_REDUCED_CONFIDENCE_GIT);
    assert_eq!(warning.severity, Severity::Warning);
    assert_eq!(
        warning.message,
        format!("'widget' uses an allowlisted git dependency pinned to exact rev {REV} from '{url}'. sloppy-joe continues in reduced-confidence mode because git provenance is outside normal registry trust.")
    );
    let short = dep("widget", None, git(url, Some("abc123")));
    assert!(validate_cargo_git_source(&short, None, &short.source, &lockfile, &config)
        .unwrap_err()
        .contains("which is not a full lowercase 40-character commit SHA"));
    let branch = dep(
        "widget",
        None,
        CargoSourceSpec::Git { url: url.to_string(), rev: Some(REV.to_string()), branch: Some("main".to_string()), tag: None },
    );
    assert!(validate_cargo_git_source(&branch, None, &branch.source, &lockfile, &config)
        .unwrap_err()
        .contains("must pin git dependencies to an exact rev"));
    let elsewhere = dep("widget", None, git("https://github.com/other/widget", Some(REV)));
    assert!(validate_cargo_git_source(&elsewhere, None, &elsewhere.source, &lockfile, &config)
        .unwrap_err()
        .ends_with("which is not allowlisted."));
    assert!(validate_cargo_git_source(&d, Some("0.4.0"), &d.source, &lockfile, &config)
        .unwrap_err()
        .starts_with("Cargo git source: Cargo.lock did not prove the exact git repo and commit for 'widget'"));
}

#[test]
fn dependency_specs_dispatch_on_their_source() {
    let config = config_with_registry();
    let lockfile = lock(vec![locked("internal", "2.0.0", Some("sparse+https://cargo.corp.example/index/"))]);
    let aliased = dep("internal", Some("=2.0.0"), CargoSourceSpec::RegistryAlias("corp".to_string()));
    match validate_cargo_dependency_spec(&aliased, None, &config, &lockfile) {
        Ok(CargoSourceVerdict::Accepted(warnings)) => assert!(warnings.is_empty()),
        other => panic!("unexpected {:?}", other),
    }
    let unknown = dep("internal", None, CargoSourceSpec::RegistryAlias("nope".to_string()));
    assert_eq!(
        validate_cargo_dependency_spec(&unknown, None, &config, &lockfile).unwrap_err(),
        "Cargo registry source: 'internal' uses registry alias 'nope' which is not trusted by config."
    );
    let local = dep("helper", None, CargoSourceSpec::Path("../helper".to_string()));
    match validate_cargo_dependency_spec(&local, None, &config, &lockfile) {
        Ok(CargoSourceVerdict::CheckLocalTarget(path)) => assert_eq!(path, "../helper"),
        other => panic!("unexpected {:?}", other),
    }
    let ws = dep("helper", None, CargoSourceSpec::Workspace);
    assert_eq!(
        validate_cargo_dependency_spec(&ws, None, &config, &lockfile).unwrap_err(),
        "Cargo local dependency source: 'helper' uses workspace = true but no in-scope workspace dependency was resolved."
    );
    let rw = EffectiveCargoRewrite {
        package_name: "internal".to_string(),
        patch_scope: None,
        replace_source: None,
        replace_version: Some("2.0.0".to_string()),
        spec: dep("internal", None, CargoSourceSpec::RegistryAlias("corp".to_string())),
        base_dir: "/repo".to_string(),
    };
    assert!(matches!(validate_cargo_effective_rewrite(&rw, &config, &lockfile), Ok(CargoSourceVerdict::Accepted(_))));
    let wrong_version = EffectiveCargoRewrite { replace_version: Some("3.0.0".to_string()), ..rw };
    assert!(validate_cargo_effective_rewrite(&wrong_version, &config, &lockfile).is_err());
}

#[test]
fn local_targets_must_be_the_named_crate() {
    let good = LocalCrateTarget::Crate {
        canonical: "/repo/helper".to_string(),
        package: Some(LocalCratePackage { name: Some("helper".to_string()), version: Some("0.1.0".to_string()) }),
    };
    assert_eq!(validate_cargo_local_target("helper", &good, Some("0.1.0")), Ok(()));
    assert_eq!(
        validate_cargo_local_target("helper", &good, Some("0.2.0")).unwrap_err(),
        "Cargo local dependency source: 'helper' points to '/repo/helper' but that target declares version '0.1.0' instead of '0.2.0'."
    );
    assert_eq!(
        validate_cargo_local_target("other", &good, None).unwrap_err(),
        "Cargo local dependency source: 'other' points to '/repo/helper' but that target declares package 'helper' instead of 'other'."
    );
    let outside = LocalCrateTarget::NotAllowlisted { candidate: "/elsewhere/x".to_string() };
    assert_eq!(
        validate_cargo_local_target("x", &outside, None).unwrap_err(),
        "Cargo local dependency source: 'x' resolves to '/elsewhere/x' which is outside the scan root and not exactly allowlisted."
    );
    let broken = LocalCrateTarget::Unparsable { manifest_path: "/repo/x/Cargo.toml".to_string(), error: "bad".to_string() };
    assert_eq!(
        validate_cargo_local_target("x", &broken, None).unwrap_err(),
        "Cargo dependency source: Failed to parse local Cargo target '/repo/x/Cargo.toml': bad."
    );
    let virtual_manifest = LocalCrateTarget::Crate { canonical: "/repo/x".to_string(), package: None };
    assert!(validate_cargo_local_target("x", &virtual_manifest, None).unwrap_err().ends_with("does not declare a [package] crate."));
}

#[test]
fn config_source_replacement_follows_chains_and_detects_cycles() {
    let config = config_with_registry();
    let mut rewrites = empty_rewrites();
    rewrites.source_replace_with.insert("crates-io".to_string(), "mirror".to_string());
    rewrites.source_replace_with.insert("mirror".to_string(), "corp".to_string());
    rewrites.source_definitions.push((
        "corp".to_string(),
        CargoConfigSourceDefinition::Registry("https://cargo.corp.example/index/".to_string()),
    ));
    let serde = dep("serde", None, CargoSourceSpec::CratesIo);
    // `corp` is trusted only as `sparse+...`, so the registry definition is not.
    assert_eq!(
        apply_cargo_config_source_rewrite(&serde, &rewrites, &config).unwrap_err(),
        "Cargo registry source: Cargo source 'corp' resolves to registry 'registry+https://cargo.corp.example/index/' but that alias/source pair is not trusted by config."
    );
    let trusted = SloppyJoeConfig {
        trusted_cargo_registries: vec![registry("corp", "registry+https://cargo.corp.example/index/")],
        ..SloppyJoeConfig::default()
    };
    match apply_cargo_config_source_rewrite(&serde, &rewrites, &trusted) {
        Ok(Some(CargoSourceSpec::RegistryAlias(alias))) => assert_eq!(alias, "corp"),
        other => panic!("unexpected {:?}", other),
    }
    let mut cyclic = empty_rewrites();
    cyclic.source_replace_with.insert("crates-io".to_string(), "a".to_string());
    cyclic.source_replace_with.insert("a".to_string(), "crates-io".to_string());
    assert_eq!(
        apply_cargo_config_source_rewrite(&serde, &cyclic, &trusted).unwrap_err(),
        "Cargo provenance rewrite: Cargo source replacement cycle detected at source 'crates-io'."
    );
    let path = dep("p", None, CargoSourceSpec::Path("../p".to_string()));
    assert!(matches!(apply_cargo_config_source_rewrite(&path, &cyclic, &trusted), Ok(None)));
}

#[test]
fn host_local_config_may_only_add() {
    let mut base = empty_rewrites();
    base.local_paths.insert("serde".to_string(), "/vendor/serde".to_string());
    let mut overlay = empty_rewrites();
    overlay.local_paths.insert("rand".to_string(), "/vendor/rand".to_string());
    assert_eq!(ensure_additive_cargo_config_rewrites(&base, &overlay, "/home/u/.cargo/config.toml"), Ok(()));
    overlay.local_paths.insert("serde".to_string(), "/elsewhere/serde".to_string());
    assert_eq!(
        ensure_additive_cargo_config_rewrites(&base, &overlay, "/home/u/.cargo/config.toml").unwrap_err(),
        "Cargo provenance rewrite: Host-local Cargo config '/home/u/.cargo/config.toml' conflicts with repo-visible local path trust for crate 'serde'. sloppy-joe only allows additive host-local Cargo relaxations."
    );
    merge_cargo_config_rewrites(&mut base, &overlay);
    assert_eq!(base.local_paths.get("serde").map(|s| s.as_str()), Some("/elsewhere/serde"));
    assert_eq!(base.local_paths.get("rand").map(|s| s.as_str()), Some("/vendor/rand"));
}

#[test]
fn conflicting_rewrites_are_refused() {
    let mut rewrites = Vec::new();
    let first = rewrite("serde", Some(CargoPatchScope::CratesIo), dep("serde", None, CargoSourceSpec::Path("a".to_string())), "/repo");
    let same = rewrite("serde", Some(CargoPatchScope::CratesIo), dep("serde", None, CargoSourceSpec::Path("a".to_string())), "/repo");
    let other = rewrite("serde", Some(CargoPatchScope::CratesIo), dep("serde", None, CargoSourceSpec::Path("b".to_string())), "/repo");
    assert_eq!(push_effective_cargo_rewrite(&mut rewrites, first), Ok(()));
    assert_eq!(push_effective_cargo_rewrite(&mut rewrites, same), Ok(()));
    assert_eq!(rewrites.len(), 1);
    assert_eq!(
        push_effective_cargo_rewrite(&mut rewrites, other).unwrap_err(),
        "Cargo provenance rewrite: Conflicting Cargo rewrite for package 'serde' and scope 'Some(CratesIo)'. sloppy-joe refuses to guess rewrite precedence across multiple provenance sources."
    );
    let named = rewrite("x", Some(CargoPatchScope::RegistryName("corp".to_string())), dep("x", None, CargoSourceSpec::Path("a".to_string())), "/repo");
    let named2 = rewrite("x", Some(CargoPatchScope::RegistryName("corp".to_string())), dep("x", None, CargoSourceSpec::Path("b".to_string())), "/repo");
    assert_eq!(push_effective_cargo_rewrite(&mut rewrites, named), Ok(()));
    assert!(push_effective_cargo_rewrite(&mut rewrites, named2)
        .unwrap_err()
        .contains("scope 'Some(RegistryName(\"corp\"))'"));
}

#[test]
fn effective_dependencies_apply_patches_paths_and_workspace_inheritance() {
    let config = SloppyJoeConfig::default();
    let mut m = manifest(vec![
        dep("serde", Some("=1.0.0"), CargoSourceSpec::CratesIo),
        dep("rand", None, CargoSourceSpec::CratesIo),
        dep("shared", None, CargoSourceSpec::Workspace),
    ]);
    m.patches.push(CargoRewriteDecl {
        package_name: "serde".to_string(),
        patch_scope: Some(CargoPatchScope::CratesIo),
        replace_source: None,
        replace_version: None,
        dependency: dep("serde", None, CargoSourceSpec::Path("vendor/serde".to_string())),
    });
    let mut root = manifest(vec![]);
    root.manifest_path = "/ws/Cargo.toml".to_string();
    root.manifest_dir = "/ws".to_string();
    root.workspace_dependencies.push(("shared".to_string(), dep("shared", Some("=0.2.0"), CargoSourceSpec::CratesIo)));
    let mut rewrites = empty_rewrites();
    rewrites.local_paths.insert("rand".to_string(), "/vendor/rand".to_string());

    let rws = collect_effective_cargo_rewrites(&m, None, &rewrites).unwrap();
    assert_eq!(rws.len(), 1);
    let effective = resolve_cargo_effective_dependencies(&m, Some(&root), &config, &rewrites).unwrap();
    assert_eq!(effective.len(), 3);
    assert!(matches!(&effective[0].spec.source, CargoSourceSpec::CratesIo));
    assert_eq!(effective[0].expected_exact_version.as_deref(), Some("1.0.0"));
    assert!(matches!(&effective[1].spec.source, CargoSourceSpec::Path(p) if p == "/vendor/rand"));
    assert!(matches!(&effective[2].spec.source, CargoSourceSpec::CratesIo));
    assert_eq!(effective[2].base_dir, "/ws");
    assert_eq!(effective[2].expected_exact_version.as_deref(), Some("0.2.0"));

    // The workspace root's patches apply to its members.
    let mut root_with_patch = manifest(vec![]);
    root_with_patch.manifest_path = "/ws/Cargo.toml".to_string();
    root_with_patch.manifest_dir = "/ws".to_string();
    root_with_patch.patches = m.patches.drain(..).collect();
    root_with_patch.workspace_dependencies.push(("shared".to_string(), dep("shared", None, CargoSourceSpec::CratesIo)));
    let effective = resolve_cargo_effective_dependencies(&m, Some(&root_with_patch), &config, &rewrites).unwrap();
    assert!(matches!(&effective[0].spec.source, CargoSourceSpec::Path(p) if p == "vendor/serde"));
    assert_eq!(effective[0].base_dir, "/ws");
    assert_eq!(effective[0].expected_exact_version.as_deref(), Some("1.0.0"));

    let orphan = manifest(vec![dep("shared", None, CargoSourceSpec::Workspace)]);
    assert_eq!(
        resolve_cargo_effective_dependencies(&orphan, None, &config, &rewrites).unwrap_err(),
        "Cargo local dependency source: 'shared' uses workspace = true but no in-scope workspace root was found."
    );
    let mut bad_keys = dep("shared", None, CargoSourceSpec::Workspace);
    bad_keys.workspace_member_invalid_keys = vec!["version".to_string(), "git".to_string()];
    let bad = manifest(vec![bad_keys]);
    assert_eq!(
        resolve_cargo_effective_dependencies(&bad, Some(&root), &config, &rewrites).unwrap_err(),
        "Cargo local dependency source: 'shared' uses workspace = true with unsupported member-local keys: version, git."
    );
    let mut looping = manifest(vec![]);
    looping.workspace_dependencies.push(("shared".to_string(), dep("shared", None, CargoSourceSpec::Workspace)));
    let member = manifest(vec![dep("shared", None, CargoSourceSpec::Workspace)]);
    assert_eq!(
        resolve_cargo_effective_dependencies(&member, Some(&looping), &config, &rewrites).unwrap_err(),
        "Cargo local dependency source: 'shared' exceeded Cargo workspace inheritance resolution depth."
    );
}


fn source_table(replace_with: Option<&str>, registry: Option<&str>, directory: Option<&str>) -> CargoConfigSource {
    CargoConfigSource {
        replace_with: replace_with.map(|s| s.to_string()),
        registry: registry.map(|s| s.to_string()),
        directory: directory.map(|s| s.to_string()),
        local_registry: None,
        git: None,
    }
}

#[test]
fn cargo_config_reads_paths_sources_and_patches() {
    let doc = CargoConfigDocument {
        paths: Some(vec![
            CargoConfigPath::Skipped,
            CargoConfigPath::Crate { candidate: "/repo/vendor/serde".to_string(), package_name: "serde".to_string() },
            CargoConfigPath::Crate { candidate: "/repo/vendor/serde".to_string(), package_name: "serde".to_string() },
        ]),
        sources: Some(vec![
            ("crates-io".to_string(), Some(source_table(Some("mirror"), None, None))),
            ("mirror".to_string(), Some(source_table(None, Some("sparse+https://mirror.example/index/"), None))),
            ("vendored".to_string(), Some(source_table(None, None, Some("vendor")))),
            ("broken".to_string(), None),
        ]),
        patches: vec![CargoRewriteDecl {
            package_name: "log".to_string(),
            patch_scope: Some(CargoPatchScope::CratesIo),
            replace_source: None,
            replace_version: None,
            dependency: dep("log", None, CargoSourceSpec::Path("patched/log".to_string())),
        }],
        replaces: Vec::new(),
    };
    let rw = parse_cargo_config_rewrites(&doc, "/repo/.cargo/config.toml", "/repo").unwrap();
    assert_eq!(rw.local_paths.get("serde").map(|s| s.as_str()), Some("/repo/vendor/serde"));
    assert_eq!(rw.local_paths.len(), 1);
    assert_eq!(rw.source_replace_with.get("crates-io").map(|s| s.as_str()), Some("mirror"));
    assert_eq!(rw.source_replace_with.len(), 1);
    assert_eq!(rw.source_definitions.len(), 2);
    assert!(rw.source_definitions.iter().any(|(n, d)| n == "mirror"
        && matches!(d, CargoConfigSourceDefinition::Registry(u) if u == "sparse+https://mirror.example/index/")));
    assert!(rw.source_definitions.iter().any(|(n, d)| n == "vendored"
        && matches!(d, CargoConfigSourceDefinition::Unsupported { kind, detail } if kind == "directory" && detail == "vendor")));
    assert_eq!(rw.rewrite_targets.len(), 1);
    assert_eq!(rw.rewrite_targets[0].package_name, "log");
    assert_eq!(rw.rewrite_targets[0].base_dir, "/repo");
}

#[test]
fn cargo_config_refuses_two_directories_for_one_crate() {
    let doc = CargoConfigDocument {
        paths: Some(vec![
            CargoConfigPath::Crate { candidate: "/a/serde".to_string(), package_name: "serde".to_string() },
            CargoConfigPath::Crate { candidate: "/b/serde".to_string(), package_name: "serde".to_string() },
        ]),
        sources: None,
        patches: Vec::new(),
        replaces: Vec::new(),
    };
    let err = parse_cargo_config_rewrites(&doc, "/repo/.cargo/config.toml", "/repo").unwrap_err();
    assert!(err.contains("declares multiple local path rewrites for crate 'serde': '/a/serde' and '/b/serde'"));
}

#[test]
fn cargo_config_refuses_non_string_paths() {
    let doc = CargoConfigDocument {
        paths: Some(vec![CargoConfigPath::NotString]),
        sources: None,
        patches: Vec::new(),
        replaces: Vec::new(),
    };
    let err = parse_cargo_config_rewrites(&doc, "/repo/.cargo/config", "/repo").unwrap_err();
    assert_eq!(err, "Broken Cargo config '/repo/.cargo/config': paths entries must be strings.");
}
