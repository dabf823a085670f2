//! The decisions of the walk that finds a scan's project manifests: which
//! directories it enters, what it refuses, and which manifests it keeps.
use vstd::prelude::*;
use crate::paths::{path_starts_with, spec_path_starts_with};
use crate::project::ProjectInputKind;
use crate::text::{push_str, str_eq, string_of_str};

verus! {

pub open spec fn outside_root_msg(shown: Seq<char>) -> Seq<char> {
    "Refusing to follow symlinked directory '"@ + shown + "' outside the scan root."@
}

fn outside_root(shown: &str) -> (m: String)
    ensures
        m@ == outside_root_msg(shown@),
{
    let mut m = string_of_str("Refusing to follow symlinked directory '");
    push_str(&mut m, shown);
    push_str(&mut m, "' outside the scan root.");
    m
}

/// Whether the walk enters a directory (shown as `shown`) whose canonical
/// path is `canonical`: one outside the canonical scan root is refused;
/// one already visited is skipped.
pub fn enter_directory(canonical: &str, canonical_root: &str, already_visited: bool, shown: &str) -> (r: Result<
    bool,
    String,
>)
    ensures
        match r {
            Err(m) => !spec_path_starts_with(canonical@, canonical_root@) && m@ == outside_root_msg(shown@),
            Ok(enter) => spec_path_starts_with(canonical@, canonical_root@) && enter == !already_visited,
        },
{
    if !path_starts_with(canonical, canonical_root) {
        return Err(outside_root(shown));
    }
    Ok(!already_visited)
}

/// What the walk does with one directory entry.
#[derive(Debug, PartialEq, Eq, Structural)]
pub enum EntryStep {
    /// Left alone (the `.git` directory).
    Skip,
    /// Walked into; whether it lies inside installed `node_modules`.
    Descend(bool),
    /// Looked at as a possible manifest.
    Consider,
}

/// Whether a `node_modules` directory entered from a directory holds
/// installed packages: it does inside installed packages already, or next
/// to a `package.json`.
pub open spec fn child_inside_node_modules(name: Seq<char>, inside: bool, dir_has_package_json: bool) -> bool {
    inside || (name == "node_modules"@ && dir_has_package_json)
}

/// The step for an entry named `name`: a directory is walked into (but
/// `.git`); a symbolic link to a directory is walked into when its target
/// lies inside the scan root and refused otherwise; anything else is
/// considered. `symlink_target` is, for a symbolic link, its target's
/// canonical path and whether it is a directory.
pub open spec fn spec_entry_step(
    name: Seq<char>,
    is_dir: bool,
    symlink_target: Option<(Seq<char>, bool)>,
    canonical_root: Seq<char>,
    inside: bool,
    dir_has_package_json: bool,
    shown: Seq<char>,
) -> Result<EntryStep, Seq<char>> {
    if is_dir {
        if name == ".git"@ {
            Ok(EntryStep::Skip)
        } else {
            Ok(EntryStep::Descend(child_inside_node_modules(name, inside, dir_has_package_json)))
        }
    } else {
        match symlink_target {
            Some((target, true)) => if spec_path_starts_with(target, canonical_root) {
                Ok(EntryStep::Descend(child_inside_node_modules(name, inside, dir_has_package_json)))
            } else {
                Err(outside_root_msg(shown))
            },
            _ => Ok(EntryStep::Consider),
        }
    }
}

pub open spec fn step_view(r: Result<EntryStep, String>) -> Result<EntryStep, Seq<char>> {
    match r {
        Ok(s) => Ok(s),
        Err(m) => Err(m@),
    }
}

/// The walk's step for one directory entry (see `spec_entry_step`).
pub fn entry_step(
    name: &str,
    is_dir: bool,
    symlink_target: Option<(&str, bool)>,
    canonical_root: &str,
    inside: bool,
    dir_has_package_json: bool,
    shown: &str,
) -> (r: Result<EntryStep, String>)
    ensures
        step_view(r) == spec_entry_step(
            name@,
            is_dir,
            match symlink_target {
                Some((t, d)) => Some((t@, d)),
                None => None,
            },
            canonical_root@,
            inside,
            dir_has_package_json,
            shown@,
        ),
{
    let child = inside || (str_eq(name, "node_modules") && dir_has_package_json);
    if is_dir {
        if str_eq(name, ".git") {
            return Ok(EntryStep::Skip);
        }
        return Ok(EntryStep::Descend(child));
    }
    match symlink_target {
        Some((target, true)) => if path_starts_with(target, canonical_root) {
            Ok(EntryStep::Descend(child))
        } else {
            Err(outside_root(shown))
        },
        _ => Ok(EntryStep::Consider),
    }
}

/// Whether a manifest of `kind` found by the walk is kept: inside installed
/// `node_modules`, a `package.json` only next to an npm lockfile, and no
/// Python manifest; everything else elsewhere.
pub open spec fn spec_manifest_kept(kind: ProjectInputKind, inside: bool, has_npm_lockfile: bool) -> bool {
    !inside || (if kind == ProjectInputKind::Npm {
        has_npm_lockfile
    } else {
        !kind.spec_is_python()
    })
}

/// Whether the walk keeps a manifest (see `spec_manifest_kept`).
pub fn manifest_kept(kind: ProjectInputKind, inside: bool, has_npm_lockfile: bool) -> (b: bool)
    ensures
        b == spec_manifest_kept(kind, inside, has_npm_lockfile),
{
    if !inside {
        return true;
    }
    if kind == ProjectInputKind::Npm {
        has_npm_lockfile
    } else {
        !kind.is_python()
    }
}

} // verus!
