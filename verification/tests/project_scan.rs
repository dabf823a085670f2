use sloppy_joe::ecosystem::Ecosystem;
use sloppy_joe::project_scan::{CheckSet, ScanAction, ScanPhase, ScanTarget, begin_project_scan, project_scan_step};
use sloppy_joe::report::{Issue, Severity};

fn issue(package: &str, source: Option<&str>) -> Issue {
    let mut i = Issue::new(package, "check", Severity::Error);
    i.source = source.map(str::to_string);
    i
}

fn sources(issues: &[Issue]) -> Vec<(String, Option<String>)> {
    issues.iter().map(|i| (i.package.clone(), i.source.clone())).collect()
}

#[test]
fn a_project_without_dependencies_is_reported_empty() {
    let (scan, action) = begin_project_scan(false, true, false, Ecosystem::Npm, 0, false, 0, Vec::new(), Vec::new());
    assert_eq!(action, ScanAction::Report { dependency_count: 0 });
    assert_eq!(scan.phase, ScanPhase::Done);
    assert!(scan.issues.is_empty());
}

#[test]
fn fast_scan_runs_the_canonical_check_and_tags_lockfile_issues_direct() {
    let (scan, action) = begin_project_scan(
        true,
        false,
        false,
        Ecosystem::PyPI,
        2,
        true,
        5,
        vec![issue("alias", None)],
        vec![issue("lock", None)],
    );
    assert_eq!(action, ScanAction::Run { checks: CheckSet::Canonical, target: ScanTarget::Direct });
    let (scan, action) = project_scan_step(scan, vec![issue("found", Some("registry"))]);
    assert_eq!(action, ScanAction::Report { dependency_count: 2 });
    assert_eq!(
        sources(&scan.issues),
        vec![
            ("alias".to_string(), Some("direct".to_string())),
            ("found".to_string(), Some("registry".to_string())),
            ("lock".to_string(), Some("direct".to_string())),
        ]
    );
}

#[test]
fn full_scan_checks_internal_then_transitive_dependencies() {
    let (scan, action) = begin_project_scan(true, true, false, Ecosystem::PyPI, 3, true, 4, Vec::new(), Vec::new());
    assert_eq!(action, ScanAction::Run { checks: CheckSet::Default, target: ScanTarget::Direct });
    let (scan, action) = project_scan_step(scan, vec![issue("direct", None)]);
    assert_eq!(action, ScanAction::Run { checks: CheckSet::Malicious, target: ScanTarget::Internal });
    let (scan, action) = project_scan_step(scan, vec![issue("internal", None)]);
    assert_eq!(action, ScanAction::Run { checks: CheckSet::TransitiveBasic, target: ScanTarget::Transitive });
    let (scan, action) = project_scan_step(scan, vec![issue("deep", None)]);
    assert_eq!(action, ScanAction::Report { dependency_count: 7 });
    assert_eq!(
        sources(&scan.issues),
        vec![
            ("direct".to_string(), Some("direct".to_string())),
            ("internal".to_string(), Some("direct".to_string())),
            ("deep".to_string(), Some("transitive".to_string())),
        ]
    );
}

#[test]
fn npm_and_deep_scans_run_the_whole_pipeline_on_transitive_dependencies() {
    let (scan, _) = begin_project_scan(true, true, false, Ecosystem::Npm, 1, false, 2, Vec::new(), Vec::new());
    let (_, action) = project_scan_step(scan, Vec::new());
    assert_eq!(action, ScanAction::Run { checks: CheckSet::Default, target: ScanTarget::Transitive });
    let (scan, _) = begin_project_scan(true, true, true, Ecosystem::Cargo, 1, false, 2, Vec::new(), Vec::new());
    let (_, action) = project_scan_step(scan, Vec::new());
    assert_eq!(action, ScanAction::Run { checks: CheckSet::Default, target: ScanTarget::Transitive });
    let (scan, _) = begin_project_scan(true, true, false, Ecosystem::Cargo, 1, false, 0, Vec::new(), Vec::new());
    let (scan, action) = project_scan_step(scan, Vec::new());
    assert_eq!(action, ScanAction::Report { dependency_count: 1 });
    assert_eq!(scan.phase, ScanPhase::Done);
}
