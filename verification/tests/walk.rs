use sloppy_joe::preflight::{RequiredLockfile, lockfile_needed, unreadable_lockfile_error};
use sloppy_joe::project::ProjectInputKind;
use sloppy_joe::walk::{EntryStep, enter_directory, entry_step, manifest_kept};

#[test]
fn directories_outside_the_scan_root_are_refused() {
    let err = enter_directory("/elsewhere/x", "/repo", false, "/repo/link").unwrap_err();
    assert_eq!(err, "Refusing to follow symlinked directory '/repo/link' outside the scan root.");
    assert_eq!(enter_directory("/repo/a", "/repo", false, "/repo/a"), Ok(true));
    assert_eq!(enter_directory("/repo/a", "/repo", true, "/repo/a"), Ok(false));
    assert_eq!(enter_directory("/repository", "/repo", false, "/repository"), Err(
        "Refusing to follow symlinked directory '/repository' outside the scan root.".to_string()
    ));
}

#[test]
fn walk_skips_git_and_tracks_installed_node_modules() {
    assert_eq!(entry_step(".git", true, None, "/repo", false, false, "/repo/.git"), Ok(EntryStep::Skip));
    assert_eq!(entry_step("src", true, None, "/repo", false, true, "/repo/src"), Ok(EntryStep::Descend(false)));
    assert_eq!(
        entry_step("node_modules", true, None, "/repo", false, true, "/repo/node_modules"),
        Ok(EntryStep::Descend(true))
    );
    assert_eq!(
        entry_step("node_modules", true, None, "/repo", false, false, "/repo/node_modules"),
        Ok(EntryStep::Descend(false))
    );
    assert_eq!(entry_step("x", true, None, "/repo", true, false, "/repo/x"), Ok(EntryStep::Descend(true)));
    assert_eq!(entry_step("package.json", false, None, "/repo", false, false, "/repo/package.json"), Ok(EntryStep::Consider));
}

#[test]
fn symlinked_directories_are_followed_only_inside_the_root() {
    assert_eq!(
        entry_step("shared", false, Some(("/repo/libs/shared", true)), "/repo", false, false, "/repo/shared"),
        Ok(EntryStep::Descend(false))
    );
    assert_eq!(
        entry_step("shared", false, Some(("/tmp/shared", true)), "/repo", false, false, "/repo/shared"),
        Err("Refusing to follow symlinked directory '/repo/shared' outside the scan root.".to_string())
    );
    assert_eq!(
        entry_step("file.json", false, Some(("/tmp/file.json", false)), "/repo", false, false, "/repo/file.json"),
        Ok(EntryStep::Consider)
    );
}

#[test]
fn installed_packages_only_keep_locked_npm_and_non_python_manifests() {
    assert!(manifest_kept(ProjectInputKind::PyRequirements, false, false));
    assert!(!manifest_kept(ProjectInputKind::PyRequirements, true, false));
    assert!(!manifest_kept(ProjectInputKind::Npm, true, false));
    assert!(manifest_kept(ProjectInputKind::Npm, true, true));
    assert!(manifest_kept(ProjectInputKind::Cargo, true, false));
}

#[test]
fn required_lockfiles_are_read_where_needed() {
    assert!(!lockfile_needed(&RequiredLockfile::NoLockfile, true));
    assert!(lockfile_needed(&RequiredLockfile::GoSumWhenRequired, true));
    assert!(!lockfile_needed(&RequiredLockfile::GoSumWhenRequired, false));
    assert!(lockfile_needed(&RequiredLockfile::InProjectDir("poetry.lock"), false));
    assert!(lockfile_needed(&RequiredLockfile::CargoAuthoritative, false));
    assert_eq!(
        unreadable_lockfile_error(ProjectInputKind::Cargo, "/p/Cargo.lock", "No such file or directory (os error 2)"),
        "Required lockfile '/p/Cargo.lock' is missing or unreadable: No such file or directory (os error 2). Fix: Run `cargo generate-lockfile` and commit Cargo.lock."
    );
}
