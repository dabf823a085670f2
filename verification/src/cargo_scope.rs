//! Where a Cargo project's trust reaches: the directory its local
//! dependencies must stay in, the workspace that owns it, and the
//! `Cargo.lock` that is authoritative for it.
//!
//! Paths here are canonical, as the filesystem gave them to the caller.
use vstd::prelude::*;
use crate::paths::{
    dir_matches_workspace_patterns, join_path, path_starts_with, same_path, spec_dir_matches_workspace_patterns,
    spec_join, spec_path_parts, spec_path_starts_with,
};
use crate::text::{concat_all, concat_parts, string_of_str};
use crate::workspace::strs;

verus! {

/// A Cargo workspace owns a manifest directory that is its own directory,
/// or lies below it at a path that a `members` pattern matches and no
/// `exclude` pattern does (a workspace without members owns only itself).
pub open spec fn spec_workspace_contains(
    workspace_dir: Seq<char>,
    manifest_dir: Seq<char>,
    members: Seq<String>,
    exclude: Seq<String>,
) -> bool {
    if spec_path_parts(manifest_dir) == spec_path_parts(workspace_dir) {
        true
    } else if !spec_path_starts_with(manifest_dir, workspace_dir) {
        false
    } else if members.len() == 0 {
        false
    } else if spec_dir_matches_workspace_patterns(workspace_dir, manifest_dir, exclude) {
        false
    } else {
        spec_dir_matches_workspace_patterns(workspace_dir, manifest_dir, members)
    }
}

/// Whether the workspace declared at `canonical_workspace_dir`, with its
/// `members` and `exclude` patterns, owns the crate at
/// `canonical_manifest_dir` (see `spec_workspace_contains`).
pub fn cargo_workspace_contains_manifest(
    canonical_workspace_dir: &str,
    canonical_manifest_dir: &str,
    members: &Vec<String>,
    exclude: &Vec<String>,
) -> (b: bool)
    ensures
        b == spec_workspace_contains(canonical_workspace_dir@, canonical_manifest_dir@, members@, exclude@),
{
    if same_path(canonical_manifest_dir, canonical_workspace_dir) {
        return true;
    }
    if !path_starts_with(canonical_manifest_dir, canonical_workspace_dir) {
        return false;
    }
    if members.len() == 0 {
        return false;
    }
    if dir_matches_workspace_patterns(canonical_workspace_dir, canonical_manifest_dir, exclude) {
        return false;
    }
    dir_matches_workspace_patterns(canonical_workspace_dir, canonical_manifest_dir, members)
}

/// A Cargo local target is trusted inside the scan root, or where it is
/// exactly one of the configured trusted local paths (each as it
/// canonicalized; those that did not are left out).
pub open spec fn spec_allowlisted(target: Seq<char>, root: Seq<char>, allowlisted: Seq<Seq<char>>) -> bool {
    spec_path_starts_with(target, root) || exists|i: int|
        0 <= i < allowlisted.len() && spec_path_parts(#[trigger] allowlisted[i]) == spec_path_parts(target)
}

/// Whether a Cargo local target is trusted (see `spec_allowlisted`).
pub fn cargo_allowlisted_local_target(
    canonical_target: &str,
    canonical_root: &str,
    canonical_allowlisted: &Vec<String>,
) -> (b: bool)
    ensures
        b == spec_allowlisted(canonical_target@, canonical_root@, strs(canonical_allowlisted@)),
{
    if path_starts_with(canonical_target, canonical_root) {
        return true;
    }
    let ghost al = strs(canonical_allowlisted@);
    let mut i: usize = 0;
    while i < canonical_allowlisted.len()
        invariant
            i <= canonical_allowlisted@.len(),
            al == strs(canonical_allowlisted@),
            forall|j: int| 0 <= j < i ==> spec_path_parts(#[trigger] al[j]) != spec_path_parts(canonical_target@),
        decreases canonical_allowlisted.len() - i,
    {
        assert(al[i as int] == canonical_allowlisted@[i as int]@);
        if same_path(canonical_allowlisted[i].as_str(), canonical_target) {
            return true;
        }
        i = i + 1;
    }
    false
}

/// The directory a Cargo project's local provenance is held to: the scan
/// root where the manifest lies inside it, else the manifest's own
/// directory where that is exactly allowlisted; refused otherwise.
pub open spec fn spec_trusted_scope_root(root: Seq<char>, manifest_dir: Seq<char>, allowlisted: bool) -> Result<
    Seq<char>,
    Seq<char>,
> {
    if spec_path_starts_with(manifest_dir, root) {
        Ok(root)
    } else if allowlisted {
        Ok(manifest_dir)
    } else {
        Err(
            "Path '"@ + manifest_dir + "' is outside scan root '"@ + root
                + "' and not exactly allowlisted for Cargo local provenance."@,
        )
    }
}

/// The directory a Cargo project's local provenance is held to (see
/// `spec_trusted_scope_root`); `allowlisted` is what
/// `cargo_allowlisted_local_target` says of the manifest's directory.
pub fn cargo_trusted_scope_root(canonical_root: &str, canonical_manifest_dir: &str, allowlisted: bool) -> (r: Result<
    String,
    String,
>)
    ensures
        match r {
            Ok(t) => spec_trusted_scope_root(canonical_root@, canonical_manifest_dir@, allowlisted) == Ok::<
                Seq<char>,
                Seq<char>,
            >(t@),
            Err(e) => spec_trusted_scope_root(canonical_root@, canonical_manifest_dir@, allowlisted) == Err::<
                Seq<char>,
                Seq<char>,
            >(e@),
        },
{
    if path_starts_with(canonical_manifest_dir, canonical_root) {
        return Ok(string_of_str(canonical_root));
    }
    if allowlisted {
        return Ok(string_of_str(canonical_manifest_dir));
    }
    let e = concat_parts(
        &[
            "Path '",
            canonical_manifest_dir,
            "' is outside scan root '",
            canonical_root,
            "' and not exactly allowlisted for Cargo local provenance.",
        ],
    );
    proof {
        reveal_with_fuel(concat_all, 6);
    }
    Err(e)
}

/// The `Cargo.lock` that is authoritative for a crate: its workspace's,
/// where a workspace in scope owns it, else its own.
pub open spec fn spec_authoritative_lockfile(workspace_dir: Option<Seq<char>>, manifest_dir: Seq<char>) -> Seq<char> {
    match workspace_dir {
        Some(w) => spec_join(w, "Cargo.lock"@),
        None => spec_join(manifest_dir, "Cargo.lock"@),
    }
}

/// The authoritative `Cargo.lock` (see `spec_authoritative_lockfile`):
/// `workspace_dir` is the directory of the workspace in scope that owns
/// the crate, if one does.
pub fn authoritative_cargo_lockfile_path(workspace_dir: Option<&str>, manifest_dir: &str) -> (r: String)
    ensures
        r@ == spec_authoritative_lockfile(
            match workspace_dir {
                Some(w) => Some(w@),
                None => None,
            },
            manifest_dir@,
        ),
{
    match workspace_dir {
        Some(w) => join_path(w, "Cargo.lock"),
        None => join_path(manifest_dir, "Cargo.lock"),
    }
}

} // verus!
