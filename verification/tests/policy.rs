use sloppy_joe::checks::names;
use sloppy_joe::config::SloppyJoeConfig;
use sloppy_joe::lockfiles::ResolutionResult;
use sloppy_joe::lockfiles::python::normalize_name;
use sloppy_joe::report::{Issue, Severity};
use sloppy_joe::{
    Dependency, Ecosystem, alias_identity_issues, classify_deps, local_overlay_relaxation_issues,
    mark_source, unresolved_version_policy_issues,
};

fn npm(name: &str, version: Option<&str>) -> Dependency {
    Dependency {
        name: name.to_string(),
        version: version.map(|v| v.to_string()),
        ecosystem: Ecosystem::Npm,
        actual_name: None,
    }
}

#[test]
fn unresolved_version_policy_only_skips_matching_lockfile_sync_issue_keys() {
    let dep_a = Dependency {
        name: "react".to_string(),
        version: Some("^18.2.0".to_string()),
        ecosystem: Ecosystem::Npm,
        actual_name: None,
    };
    let dep_b = Dependency {
        name: "react".to_string(),
        version: Some("^19.0.0".to_string()),
        ecosystem: Ecosystem::Npm,
        actual_name: None,
    };

    let mut resolution = ResolutionResult::default();
    resolution.push_issue_for(
        &dep_a,
        Issue::new("react", names::RESOLUTION_NO_TRUSTED_LOCKFILE_SYNC, Severity::Error)
            .message("unsynced")
            .fix("fix"),
    );

    let issues = unresolved_version_policy_issues(
        &[dep_a.clone(), dep_b.clone()],
        &resolution,
        &SloppyJoeConfig::default(),
    );

    assert_eq!(issues.len(), 1);
    assert!(issues[0].message.contains("^19.0.0"));
}

#[test]
fn mark_source_does_not_overwrite_existing() {
    let mut issues = vec![
        Issue::new("pkg1", "existence", Severity::Error).message("msg").fix("fix"),
        Issue::new("pkg2", "existence", Severity::Error).message("msg").fix("fix"),
    ];
    issues[0].source = Some("already-set".to_string());
    mark_source(&mut issues, "direct");
    assert_eq!(
        issues[0].source.as_deref(),
        Some("already-set"),
        "Should not overwrite existing source"
    );
    assert_eq!(issues[1].source.as_deref(), Some("direct"), "Should set source when None");
}

#[test]
fn normalize_name_pep503() {
    assert_eq!(normalize_name("Requests"), "requests");
    assert_eq!(normalize_name("my_package"), "my-package");
    assert_eq!(normalize_name("my.package"), "my-package");
    assert_eq!(normalize_name("My__Package"), "my-package");
}

#[test]
fn unresolved_versions_are_warnings_when_allowed_and_skip_pinned_ones() {
    let config = SloppyJoeConfig { allow_unresolved_versions: true, ..SloppyJoeConfig::default() };
    let deps = [npm("react", Some("18.2.0")), npm("lodash", None), npm("left-pad", Some("^1.0.0"))];
    let issues = unresolved_version_policy_issues(&deps, &ResolutionResult::default(), &config);
    assert_eq!(issues.len(), 2);
    assert_eq!(issues[0].package, "lodash");
    assert_eq!(issues[0].severity, Severity::Warning);
    assert_eq!(issues[0].check, names::RESOLUTION_NO_EXACT_VERSION);
    assert_eq!(
        issues[0].message,
        "'lodash' does not declare an exact version and no trusted lockfile resolution was available. The following checks are skipped: version-age, install-script-risk, dependency-explosion, maintainer-change, and known-vulnerability (OSV)."
    );
    assert_eq!(issues[1].package, "left-pad");
    assert!(issues[1].message.starts_with("'left-pad' uses the unresolved version requirement '^1.0.0'."));
    let strict = unresolved_version_policy_issues(&deps, &ResolutionResult::default(), &SloppyJoeConfig::default());
    assert_eq!(strict[0].severity, Severity::Error);
}

#[test]
fn alias_issues_name_both_identities() {
    let mut aliased = npm("my-react", Some("npm:react@18.2.0"));
    aliased.actual_name = Some("react".to_string());
    let issues = alias_identity_issues(&[npm("lodash", None), aliased]);
    assert_eq!(issues.len(), 1);
    assert_eq!(issues[0].package, "my-react");
    assert_eq!(issues[0].check, names::RESOLUTION_NPM_ALIAS);
    assert_eq!(
        issues[0].message,
        "'my-react' is declared as an npm alias for 'react'. sloppy-joe scanned the published package identity 'react', not the manifest alias."
    );
}

#[test]
fn overlay_relaxations_each_raise_a_warning() {
    let config = SloppyJoeConfig {
        active_local_overlay_relaxations: vec!["trusted_local_paths".to_string(), "x".to_string()],
        ..SloppyJoeConfig::default()
    };
    let issues = local_overlay_relaxation_issues(&config);
    assert_eq!(issues.len(), 2);
    assert_eq!(issues[0].package, "<local-overlay>");
    assert_eq!(
        issues[0].message,
        "This scan used a local-only overlay relaxation: trusted_local_paths. Results may differ from CI."
    );
    assert_eq!(issues[1].severity, Severity::Warning);
}

#[test]
fn classify_deps_splits_internal_allowed_and_checkable() {
    let config = SloppyJoeConfig {
        internal: vec![("npm".to_string(), vec!["@corp/*".to_string()])],
        allowed: vec![("npm".to_string(), vec!["left-pad".to_string()])],
        ..SloppyJoeConfig::default()
    };
    let deps = [npm("@corp/ui", None), npm("left-pad", None), npm("react", None), npm("@corpx/y", None)];
    let (checkable, non_internal, internal) = classify_deps(&deps, &config, Ecosystem::Npm);
    let names = |v: &Vec<Dependency>| v.iter().map(|d| d.name.clone()).collect::<Vec<_>>();
    assert_eq!(names(&checkable), vec!["react", "@corpx/y"]);
    assert_eq!(names(&non_internal), vec!["left-pad", "react", "@corpx/y"]);
    assert_eq!(names(&internal), vec!["@corp/ui"]);
    let (checkable, _, internal) = classify_deps(&deps, &config, Ecosystem::Cargo);
    assert_eq!(checkable.len(), 4);
    assert!(internal.is_empty());
}

#[test]
fn normalized_names_have_single_dashes_and_normalize_to_themselves() {
    let n = normalize_name("Zope.Interface__Extra-_-.Tools");
    assert_eq!(n, "zope-interface-extra-tools");
    assert!(!n.contains('_') && !n.contains('.') && !n.contains("--"));
    assert_eq!(normalize_name(&n), n);
}
