//! The workspace patterns a JavaScript root declares: `workspaces` in
//! `package.json` (npm, Yarn, Bun), or `packages` in
//! `pnpm-workspace.yaml`.
use vstd::prelude::*;
use crate::project::JsPackageManager;
use crate::text::{concat_all, concat_parts};
use crate::workspace::strs;

verus! {

/// The `workspaces` value of a `package.json`: an array (each entry a
/// string or not), an object (with its `packages` array, where it has one),
/// or anything else.
#[derive(Debug)]
pub enum NpmWorkspacesValue {
    Array(Vec<Option<String>>),
    Object { packages: Option<Vec<Option<String>>> },
    Other,
}

/// A `pnpm-workspace.yaml`: its `packages` sequence (each entry a string
/// or not), where it has one.
#[derive(Debug)]
pub struct PnpmWorkspaceFile {
    pub packages: Option<Vec<Option<String>>>,
}

/// The entries when every one is a string.
pub open spec fn all_strings(entries: Seq<Option<String>>) -> Option<Seq<Seq<char>>>
    decreases entries.len(),
{
    if entries.len() == 0 {
        Some(Seq::empty())
    } else {
        match (all_strings(entries.drop_last()), entries.last()) {
            (Some(r), Some(e)) => Some(r.push(e@)),
            _ => None,
        }
    }
}

pub open spec fn patterns_view(r: Result<Option<Vec<String>>, String>) -> Result<Option<Seq<Seq<char>>>, Seq<char>> {
    match r {
        Ok(Some(v)) => Ok(Some(strs(v@))),
        Ok(None) => Ok(None),
        Err(e) => Err(e@),
    }
}

fn strings_of(entries: &Vec<Option<String>>) -> (r: Option<Vec<String>>)
    ensures
        match r {
            Some(v) => all_strings(entries@) == Some(strs(v@)),
            None => all_strings(entries@) is None,
        },
{
    let mut out: Vec<String> = Vec::new();
    let mut i: usize = 0;
    assert(entries@.subrange(0, 0) =~= Seq::<Option<String>>::empty());
    assert(strs(out@) =~= Seq::<Seq<char>>::empty());
    while i < entries.len()
        invariant
            i <= entries@.len(),
            all_strings(entries@.subrange(0, i as int)) == Some(strs(out@)),
        decreases entries.len() - i,
    {
        assert(entries@.subrange(0, i + 1).drop_last() == entries@.subrange(0, i as int));
        assert(entries@.subrange(0, i + 1).last() == entries@[i as int]);
        match &entries[i] {
            Some(e) => {
                let ghost before = strs(out@);
                out.push(e.clone());
                assert(strs(out@) =~= before.push(e@));
            },
            None => {
                proof {
                    lemma_all_strings_none(entries@, (i + 1) as nat);
                }
                return None;
            },
        }
        i = i + 1;
    }
    assert(entries@.subrange(0, entries@.len() as int) == entries@);
    Some(out)
}

proof fn lemma_all_strings_none(entries: Seq<Option<String>>, m: nat)
    requires
        m <= entries.len(),
        all_strings(entries.subrange(0, m as int)) is None,
    ensures
        all_strings(entries) is None,
    decreases entries.len() - m,
{
    if m < entries.len() {
        assert(entries.subrange(0, (m + 1) as int).drop_last() == entries.subrange(0, m as int));
        lemma_all_strings_none(entries, m + 1);
    } else {
        assert(entries.subrange(0, m as int) == entries);
    }
}

/// The patterns of `package.json`'s `workspaces`: none where it is
/// missing; an array of strings, or an object whose `packages` is one;
/// anything else breaks the manifest.
pub open spec fn spec_npm_workspaces(manifest_path: Seq<char>, value: Option<NpmWorkspacesValue>) -> Result<
    Option<Seq<Seq<char>>>,
    Seq<char>,
> {
    let lead = "Broken manifest '"@ + manifest_path;
    match value {
        None => Ok(None),
        Some(NpmWorkspacesValue::Array(es)) => match all_strings(es@) {
            Some(p) => Ok(Some(p)),
            None => Err(lead + "': workspaces entries must be strings."@),
        },
        Some(NpmWorkspacesValue::Object { packages: Some(es) }) => match all_strings(es@) {
            Some(p) => Ok(Some(p)),
            None => Err(lead + "': workspaces.packages entries must be strings."@),
        },
        _ => Err(lead + "': workspaces must be an array of strings or an object with a packages array."@),
    }
}

pub open spec fn opt_workspaces(v: Option<&NpmWorkspacesValue>) -> Option<NpmWorkspacesValue> {
    match v {
        Some(x) => Some(*x),
        None => None,
    }
}

/// The patterns of `package.json`'s `workspaces` (see
/// `spec_npm_workspaces`).
pub fn parse_npm_workspaces(manifest_path: &str, workspaces: Option<&NpmWorkspacesValue>) -> (r: Result<
    Option<Vec<String>>,
    String,
>)
    ensures
        patterns_view(r) == spec_npm_workspaces(manifest_path@, opt_workspaces(workspaces)),
{
    match workspaces {
        None => Ok(None),
        Some(NpmWorkspacesValue::Array(es)) => match strings_of(es) {
            Some(p) => Ok(Some(p)),
            None => {
                let m = concat_parts(&["Broken manifest '", manifest_path, "': workspaces entries must be strings."]);
                proof {
                    reveal_with_fuel(concat_all, 4);
                }
                Err(m)
            },
        },
        Some(NpmWorkspacesValue::Object { packages: Some(es) }) => match strings_of(es) {
            Some(p) => Ok(Some(p)),
            None => {
                let m = concat_parts(
                    &["Broken manifest '", manifest_path, "': workspaces.packages entries must be strings."],
                );
                proof {
                    reveal_with_fuel(concat_all, 4);
                }
                Err(m)
            },
        },
        _ => {
            let m = concat_parts(
                &[
                    "Broken manifest '",
                    manifest_path,
                    "': workspaces must be an array of strings or an object with a packages array.",
                ],
            );
            proof {
                reveal_with_fuel(concat_all, 4);
            }
            Err(m)
        },
    }
}

/// The patterns of `pnpm-workspace.yaml` (at `path`): none where there is
/// no such file; its `packages` must be a sequence of strings.
pub open spec fn spec_pnpm_workspaces(path: Seq<char>, file: Option<PnpmWorkspaceFile>) -> Result<
    Option<Seq<Seq<char>>>,
    Seq<char>,
> {
    let lead = "Broken manifest '"@ + path;
    match file {
        None => Ok(None),
        Some(f) => match f.packages {
            None => Err(lead + "': packages must be an array of strings."@),
            Some(es) => match all_strings(es@) {
                Some(p) => Ok(Some(p)),
                None => Err(lead + "': packages entries must be strings."@),
            },
        },
    }
}

pub open spec fn opt_pnpm_file(f: Option<&PnpmWorkspaceFile>) -> Option<PnpmWorkspaceFile> {
    match f {
        Some(x) => Some(*x),
        None => None,
    }
}

/// The patterns of `pnpm-workspace.yaml` (see `spec_pnpm_workspaces`).
pub fn parse_pnpm_workspaces(path: &str, file: Option<&PnpmWorkspaceFile>) -> (r: Result<Option<Vec<String>>, String>)
    ensures
        patterns_view(r) == spec_pnpm_workspaces(path@, opt_pnpm_file(file)),
{
    match file {
        None => Ok(None),
        Some(f) => match &f.packages {
            None => {
                let m = concat_parts(&["Broken manifest '", path, "': packages must be an array of strings."]);
                proof {
                    reveal_with_fuel(concat_all, 4);
                }
                Err(m)
            },
            Some(es) => match strings_of(es) {
                Some(p) => Ok(Some(p)),
                None => {
                    let m = concat_parts(&["Broken manifest '", path, "': packages entries must be strings."]);
                    proof {
                        reveal_with_fuel(concat_all, 4);
                    }
                    Err(m)
                },
            },
        },
    }
}

/// The workspace patterns of a JavaScript root: pnpm reads
/// `pnpm-workspace.yaml`, the other managers `package.json`.
pub open spec fn spec_js_workspace_patterns(
    manager: JsPackageManager,
    manifest_path: Seq<char>,
    workspaces: Option<NpmWorkspacesValue>,
    pnpm_path: Seq<char>,
    pnpm_file: Option<PnpmWorkspaceFile>,
) -> Result<Option<Seq<Seq<char>>>, Seq<char>> {
    match manager {
        JsPackageManager::Pnpm => spec_pnpm_workspaces(pnpm_path, pnpm_file),
        _ => spec_npm_workspaces(manifest_path, workspaces),
    }
}

/// The workspace patterns of a JavaScript root (see
/// `spec_js_workspace_patterns`).
pub fn parse_js_workspace_patterns(
    manager: JsPackageManager,
    manifest_path: &str,
    workspaces: Option<&NpmWorkspacesValue>,
    pnpm_path: &str,
    pnpm_file: Option<&PnpmWorkspaceFile>,
) -> (r: Result<Option<Vec<String>>, String>)
    ensures
        patterns_view(r) == spec_js_workspace_patterns(
            manager,
            manifest_path@,
            opt_workspaces(workspaces),
            pnpm_path@,
            opt_pnpm_file(pnpm_file),
        ),
{
    match manager {
        JsPackageManager::Pnpm => parse_pnpm_workspaces(pnpm_path, pnpm_file),
        _ => parse_npm_workspaces(manifest_path, workspaces),
    }
}

} // verus!
