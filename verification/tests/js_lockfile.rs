use sloppy_joe::go_mod::{go_sum_verdict, requires_go_sum};
use sloppy_joe::js_lockfile::{
    JsLockfileRequirement, LockfileProbe, bound_lockfile_verdict, js_lockfile_requirement, one_of_lockfiles_verdict,
};
use sloppy_joe::project::{JsPackageManager, JsProjectBinding, ProjectInputKind, ProjectInputSpec};

fn npm_spec(binding: Option<(JsPackageManager, Option<&str>)>) -> ProjectInputSpec {
    ProjectInputSpec {
        kind: ProjectInputKind::Npm,
        manifest_path: "/repo/packages/app/package.json".to_string(),
        lockfile_path_override: None,
        js_binding: binding.map(|(manager, lockfile)| JsProjectBinding {
            manager,
            root_manifest_path: "/repo/package.json".to_string(),
            lockfile_path: lockfile.map(str::to_string),
            package_entry_key: "packages/app".to_string(),
        }),
    }
}

#[test]
fn unbound_npm_project_needs_one_of_its_lockfiles() {
    let JsLockfileRequirement::OneOf(names) = js_lockfile_requirement(&npm_spec(None), true) else {
        panic!("expected candidates");
    };
    assert_eq!(names, vec!["npm-shrinkwrap.json".to_string(), "package-lock.json".to_string()]);
    let help = "Run `npm install --package-lock-only` or `npm shrinkwrap`, then commit the lockfile.";
    let err = one_of_lockfiles_verdict("/p", &names, &vec![LockfileProbe::Missing, LockfileProbe::Missing], help).unwrap_err();
    assert_eq!(
        err,
        "Required lockfile 'npm-shrinkwrap.json' or 'package-lock.json' is missing. Fix: Run `npm install --package-lock-only` or `npm shrinkwrap`, then commit the lockfile."
    );
    assert!(one_of_lockfiles_verdict("/p", &names, &vec![LockfileProbe::Missing, LockfileProbe::Readable], help).is_ok());
    let err = one_of_lockfiles_verdict("/p", &names, &vec![LockfileProbe::Unreadable("denied".to_string())], help).unwrap_err();
    assert!(err.starts_with("Required lockfile '/p/npm-shrinkwrap.json' is unreadable: denied. Fix: "));
}

#[test]
fn workspace_member_refuses_shadow_lockfiles() {
    let spec = npm_spec(Some((JsPackageManager::Pnpm, Some("/repo/pnpm-lock.yaml"))));
    let JsLockfileRequirement::Bound { shadow_candidates } = js_lockfile_requirement(&spec, false) else {
        panic!("expected a bound requirement");
    };
    assert_eq!(shadow_candidates.len(), 6);
    let err = bound_lockfile_verdict(&spec, Some("/repo/packages/app/package-lock.json"), None).unwrap_err();
    assert_eq!(
        err,
        "Found shadow JS lockfile '/repo/packages/app/package-lock.json' under workspace project '/repo/packages/app/package.json'. The authoritative pnpm lockfile lives at '/repo/pnpm-lock.yaml'. Remove the child lockfile and keep the workspace root lockfile as the single source of truth."
    );
    let JsLockfileRequirement::Bound { shadow_candidates } = js_lockfile_requirement(&spec, true) else {
        panic!("expected a bound requirement");
    };
    assert!(shadow_candidates.is_empty());
    assert!(bound_lockfile_verdict(&spec, None, Some(Ok(()))).is_ok());
}

#[test]
fn bound_project_without_lockfile_is_missing_one() {
    let spec = npm_spec(Some((JsPackageManager::Bun, None)));
    let err = bound_lockfile_verdict(&spec, None, None).unwrap_err();
    assert_eq!(
        err,
        "Required lockfile 'bun.lock' or 'bun.lockb' is missing for bun project '/repo/packages/app/package.json'. Fix: Commit the authoritative bun.lock or bun.lockb for this project."
    );
    let yarn = npm_spec(Some((JsPackageManager::Yarn, Some("/repo/yarn.lock"))));
    let err = bound_lockfile_verdict(&yarn, None, Some(Err("gone".to_string()))).unwrap_err();
    assert_eq!(
        err,
        "Required lockfile '/repo/yarn.lock' is missing or unreadable: gone. Fix: Commit the authoritative yarn.lock for this project."
    );
}

#[test]
fn go_sum_is_needed_once_go_mod_requires_a_module() {
    assert!(!requires_go_sum("module example.com/app\n\ngo 1.21\n"));
    assert!(requires_go_sum("module example.com/app\n\ngo 1.21\n\nrequire github.com/gin-gonic/gin v1.9.1\n"));
    assert!(requires_go_sum("module m\n\nrequire (\n\t// pinned\n\tgolang.org/x/text v0.14.0\n)\n"));
    assert!(!requires_go_sum("module m\n\nrequire (\n)\n"));
    assert!(!requires_go_sum("module m\n// require github.com/x/y v1.0.0\n"));
    assert!(!requires_go_sum("module m\nrequire ()\n"));
    assert!(!requires_go_sum("module m\nrequirements v1\n"));
}

#[test]
fn go_sum_is_only_demanded_of_a_go_mod_with_requirements() {
    let missing = Err("No such file or directory (os error 2)".to_string());
    assert_eq!(go_sum_verdict("module example.com/app\n\ngo 1.21\n", "/a/go.sum", missing.clone()), Ok(()));
    let err = go_sum_verdict(
        "module example.com/app\n\ngo 1.21\n\nrequire github.com/gin-gonic/gin v1.9.1\n",
        "/b/go.sum",
        missing,
    )
    .unwrap_err();
    assert!(err.contains("go.sum"));
    assert!(err.contains("go mod tidy"));
    assert_eq!(
        go_sum_verdict("module m\nrequire golang.org/x/text v0.14.0\n", "/b/go.sum", Ok(())),
        Ok(())
    );
}
