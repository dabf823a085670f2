use sloppy_joe::js_workspaces::{
    NpmWorkspacesValue, PnpmWorkspaceFile, parse_js_workspace_patterns, parse_npm_workspaces, parse_pnpm_workspaces,
};
use sloppy_joe::project::JsPackageManager;

fn entries(v: &[Option<&str>]) -> Vec<Option<String>> {
    v.iter().map(|e| e.map(|s| s.to_string())).collect()
}

#[test]
fn npm_workspaces_accept_arrays_and_packages_objects() {
    assert_eq!(parse_npm_workspaces("/repo/package.json", None).unwrap(), None);
    let array = NpmWorkspacesValue::Array(entries(&[Some("packages/*"), Some("apps/web")]));
    assert_eq!(
        parse_npm_workspaces("/repo/package.json", Some(&array)).unwrap(),
        Some(vec!["packages/*".to_string(), "apps/web".to_string()])
    );
    let object = NpmWorkspacesValue::Object { packages: Some(entries(&[Some("libs/**")])) };
    assert_eq!(parse_npm_workspaces("/repo/package.json", Some(&object)).unwrap(), Some(vec!["libs/**".to_string()]));
}

#[test]
fn npm_workspaces_refuse_other_shapes() {
    let bad_entry = NpmWorkspacesValue::Array(entries(&[Some("packages/*"), None]));
    assert_eq!(
        parse_npm_workspaces("/repo/package.json", Some(&bad_entry)).unwrap_err(),
        "Broken manifest '/repo/package.json': workspaces entries must be strings."
    );
    let no_packages = NpmWorkspacesValue::Object { packages: None };
    assert_eq!(
        parse_npm_workspaces("/repo/package.json", Some(&no_packages)).unwrap_err(),
        "Broken manifest '/repo/package.json': workspaces must be an array of strings or an object with a packages array."
    );
    let bad_package = NpmWorkspacesValue::Object { packages: Some(entries(&[None])) };
    assert!(parse_npm_workspaces("/repo/package.json", Some(&bad_package))
        .unwrap_err()
        .ends_with("workspaces.packages entries must be strings."));
}

#[test]
fn pnpm_workspaces_come_from_the_yaml_file() {
    let file = PnpmWorkspaceFile { packages: Some(entries(&[Some("packages/*")])) };
    assert_eq!(
        parse_js_workspace_patterns(JsPackageManager::Pnpm, "/repo/package.json", None, "/repo/pnpm-workspace.yaml", Some(&file))
            .unwrap(),
        Some(vec!["packages/*".to_string()])
    );
    assert_eq!(parse_pnpm_workspaces("/repo/pnpm-workspace.yaml", None).unwrap(), None);
    assert_eq!(
        parse_pnpm_workspaces("/repo/pnpm-workspace.yaml", Some(&PnpmWorkspaceFile { packages: None })).unwrap_err(),
        "Broken manifest '/repo/pnpm-workspace.yaml': packages must be an array of strings."
    );
    let array = NpmWorkspacesValue::Array(entries(&[Some("apps/*")]));
    assert_eq!(
        parse_js_workspace_patterns(JsPackageManager::Bun, "/repo/package.json", Some(&array), "/repo/pnpm-workspace.yaml", Some(&file))
            .unwrap(),
        Some(vec!["apps/*".to_string()])
    );
}
