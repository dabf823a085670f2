use sloppy_joe::project::{ProjectInputKind, ProjectInputSpec};
use sloppy_joe::project_type::{kind_selected, require_project_inputs, retain_project_type};

fn spec(kind: ProjectInputKind, manifest: &str) -> ProjectInputSpec {
    ProjectInputSpec { kind, manifest_path: manifest.to_string(), lockfile_path_override: None, js_binding: None }
}

#[test]
fn project_type_selects_its_ecosystem() {
    assert!(kind_selected(ProjectInputKind::Npm, None));
    assert!(kind_selected(ProjectInputKind::Npm, Some("npm")));
    assert!(!kind_selected(ProjectInputKind::Cargo, Some("npm")));
    assert!(kind_selected(ProjectInputKind::PyPipfile, Some("pypi")));
    assert!(kind_selected(ProjectInputKind::Maven, Some("jvm")));
    assert!(kind_selected(ProjectInputKind::Gradle, Some("jvm")));
    assert!(!kind_selected(ProjectInputKind::Go, Some("golang")));
}

#[test]
fn retaining_a_project_type_keeps_order() {
    let specs = vec![
        spec(ProjectInputKind::Npm, "/r/package.json"),
        spec(ProjectInputKind::Cargo, "/r/Cargo.toml"),
        spec(ProjectInputKind::Npm, "/r/web/package.json"),
    ];
    let kept = retain_project_type(specs, Some("npm"));
    let paths: Vec<&str> = kept.iter().map(|s| s.manifest_path.as_str()).collect();
    assert_eq!(paths, vec!["/r/package.json", "/r/web/package.json"]);
}

#[test]
fn a_requested_type_without_its_manifest_is_an_error() {
    let err = require_project_inputs(Vec::new(), Some("cargo")).unwrap_err();
    assert_eq!(err, "Required manifest 'Cargo.toml' is missing for this project type.");
    let err = require_project_inputs(Vec::new(), Some("pypi")).unwrap_err();
    assert!(err.starts_with("Required Python manifest is missing"));
    assert!(require_project_inputs(Vec::new(), None).unwrap().is_empty());
    assert!(require_project_inputs(Vec::new(), Some("elm")).unwrap().is_empty());
    let one = require_project_inputs(vec![spec(ProjectInputKind::Go, "/r/go.mod")], Some("go")).unwrap();
    assert_eq!(one.len(), 1);
}

#[test]
fn narrowing_twice_keeps_what_narrowing_once_kept() {
    let make = || {
        vec![
            spec(ProjectInputKind::Gradle, "/r/build.gradle"),
            spec(ProjectInputKind::Npm, "/r/package.json"),
            spec(ProjectInputKind::Maven, "/r/svc/pom.xml"),
        ]
    };
    let once = retain_project_type(make(), Some("jvm"));
    let once_paths: Vec<String> = once.iter().map(|s| s.manifest_path.clone()).collect();
    let twice = retain_project_type(once, Some("jvm"));
    let twice_paths: Vec<String> = twice.iter().map(|s| s.manifest_path.clone()).collect();
    assert_eq!(once_paths, twice_paths);
    assert_eq!(twice_paths, vec!["/r/build.gradle".to_string(), "/r/svc/pom.xml".to_string()]);
    assert!(twice.iter().all(|s| kind_selected(s.kind, Some("jvm"))));
}
