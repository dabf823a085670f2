//! Local JavaScript dependencies (`workspace:`, `file:` and `link:`
//! requirements): where a manifest points them, which scanned project they
//! must be, and whether the lockfile binds them to that same directory.
//!
//! Reading the filesystem (canonical paths, whether a path is a directory)
//! is the caller's part: each decision below takes what it found.
use vstd::prelude::*;
use crate::assoc::{StringTable, map_get};
use crate::lockfiles::bun::BunLockfile;
use crate::lockfiles::npm::{NpmLockfile, NpmSections, find_package, first_match, lemma_first_match};
use crate::lockfiles::pnpm::{
    PnpmImporter, PnpmLockfile, importer_dependency_reference, importer_index, importers_view, spec_reference,
};
use crate::lockfiles::{join, join_strings, strings_view};
use crate::paths::{
    dir_matches_workspace_patterns, normalize_filesystem_path, join_path, parent_path, path_starts_with, same_path,
    relative_names, spec_parent, spec_relative_names,
    spec_dir_matches_workspace_patterns, spec_join, spec_normalize, spec_path_parts, spec_path_starts_with,
};
use crate::preflight::{manager_label, manager_label_exec, npm_dependency_entries, pairs_view, spec_npm_entries};
use crate::project::JsPackageManager;
use crate::report::{opt_view, sanitize_for_terminal, sanitized};
use crate::text::{
    concat_all, concat_parts, starts_with, str_eq, str_starts_with, string_of_str, str_strip_prefix, strip_prefix, trim, trim_str,
};
use crate::workspace::strs;

verus! {

// ---- which dependencies are local ----
/// A requirement that points at a local project.
pub open spec fn is_local_spec(s: Seq<char>) -> bool {
    starts_with(s, "workspace:"@) || starts_with(s, "file:"@) || starts_with(s, "link:"@)
}

/// The local declarations among `s`, in order.
pub open spec fn local_only(s: Seq<(Seq<char>, Seq<char>)>) -> Seq<(Seq<char>, Seq<char>)>
    decreases s.len(),
{
    if s.len() == 0 {
        Seq::empty()
    } else {
        let r = local_only(s.drop_last());
        if is_local_spec(s.last().1) {
            r.push(s.last())
        } else {
            r
        }
    }
}

/// Whether a requirement points at a local project.
pub fn is_local_dependency_spec(spec: &str) -> (b: bool)
    ensures
        b == is_local_spec(spec@),
{
    str_starts_with(spec, "workspace:") || str_starts_with(spec, "file:") || str_starts_with(spec, "link:")
}

/// A manifest's local dependencies, section after section (see
/// `spec_npm_entries`).
pub fn local_dependency_entries(manifest: &NpmSections) -> (r: Vec<(String, String)>)
    ensures
        pairs_view(r@) == local_only(spec_npm_entries(*manifest)),
{
    let all = npm_dependency_entries(manifest);
    let ghost av = pairs_view(all@);
    let mut out: Vec<(String, String)> = Vec::new();
    let mut i: usize = 0;
    assert(av.subrange(0, 0) =~= Seq::<(Seq<char>, Seq<char>)>::empty());
    assert(pairs_view(out@) =~= Seq::<(Seq<char>, Seq<char>)>::empty());
    while i < all.len()
        invariant
            i <= all@.len(),
            av == pairs_view(all@),
            av == spec_npm_entries(*manifest),
            pairs_view(out@) == local_only(av.subrange(0, i as int)),
        decreases all.len() - i,
    {
        assert(av.subrange(0, i + 1).drop_last() == av.subrange(0, i as int));
        assert(av.subrange(0, i + 1).last() == av[i as int]);
        assert(av[i as int] == (all@[i as int].0@, all@[i as int].1@));
        if is_local_dependency_spec(all[i].1.as_str()) {
            let ghost before = pairs_view(out@);
            out.push((all[i].0.clone(), all[i].1.clone()));
            assert(pairs_view(out@) =~= before.push(av[i as int]));
        }
        i = i + 1;
    }
    assert(av.subrange(0, av.len() as int) == av);
    out
}

// ---- `file:` and `link:` targets ----
/// The path a `file:` or `link:` requirement names, trimmed (empty for any
/// other requirement).
pub open spec fn raw_local_target(local_spec: Seq<char>) -> Seq<char> {
    trim(
        match strip_prefix(local_spec, "file:"@) {
            Some(t) => t,
            None => match strip_prefix(local_spec, "link:"@) {
                Some(t) => t,
                None => Seq::empty(),
            },
        },
    )
}

pub open spec fn local_lead(dep: Seq<char>, manifest: Seq<char>) -> Seq<char> {
    "Local npm dependency '"@ + dep + "' in '"@ + manifest
}

/// Where a `file:`/`link:` requirement points before the filesystem is
/// asked: its raw target, and that target taken from the project's
/// canonical directory and normalized. An empty target is refused.
pub open spec fn spec_local_candidate(
    dep: Seq<char>,
    manifest: Seq<char>,
    local_spec: Seq<char>,
    project_dir: Seq<char>,
) -> Result<(Seq<char>, Seq<char>), Seq<char>> {
    let raw = raw_local_target(local_spec);
    if raw.len() == 0 {
        Err(local_lead(dep, manifest) + "' has an empty target."@)
    } else {
        Ok((raw, spec_normalize(spec_join(project_dir, raw))))
    }
}

/// A `file:`/`link:` target: the path the requirement names, and the
/// normalized path to look up on disk.
#[derive(Debug)]
pub struct LocalTargetCandidate {
    pub raw_target: String,
    pub normalized: String,
}

/// Where a `file:`/`link:` requirement points (see `spec_local_candidate`).
pub fn local_npm_target_candidate(
    dep_name: &str,
    manifest_path: &str,
    local_spec: &str,
    canonical_project_dir: &str,
) -> (r: Result<LocalTargetCandidate, String>)
    ensures
        match r {
            Ok(c) => spec_local_candidate(dep_name@, manifest_path@, local_spec@, canonical_project_dir@) == Ok::<
                (Seq<char>, Seq<char>),
                Seq<char>,
            >((c.raw_target@, c.normalized@)),
            Err(e) => spec_local_candidate(dep_name@, manifest_path@, local_spec@, canonical_project_dir@)
                == Err::<(Seq<char>, Seq<char>), Seq<char>>(e@),
        },
{
    proof {
        reveal_strlit("");
    }
    let stripped = match str_strip_prefix(local_spec, "file:") {
        Some(t) => t,
        None => match str_strip_prefix(local_spec, "link:") {
            Some(t) => t,
            None => String::new(),
        },
    };
    let raw = trim_str(stripped.as_str());
    if str_eq(raw.as_str(), "") {
        let e = concat_parts(&["Local npm dependency '", dep_name, "' in '", manifest_path, "' has an empty target."]);
        proof {
            reveal_with_fuel(concat_all, 6);
        }
        return Err(e);
    }
    assert(stripped@ == match strip_prefix(local_spec@, "file:"@) {
        Some(t) => t,
        None => match strip_prefix(local_spec@, "link:"@) {
            Some(t) => t,
            None => Seq::<char>::empty(),
        },
    });
    assert(raw@ == raw_local_target(local_spec@));
    assert(raw@.len() != 0) by {
        reveal_strlit("");
        if raw@.len() == 0 {
            assert(raw@ =~= ""@);
        }
    }
    let candidate = join_path(canonical_project_dir, raw.as_str());
    let normalized = normalize_filesystem_path(candidate.as_str());
    Ok(LocalTargetCandidate { raw_target: raw, normalized })
}

/// The target of a `file:`/`link:` requirement once the filesystem has
/// been asked for the candidate's canonical path (`Ok` with whether it is a
/// directory, or the error): it must exist inside the scan root and be a
/// directory.
pub open spec fn spec_resolve_local_target(
    dep: Seq<char>,
    manifest: Seq<char>,
    local_spec: Seq<char>,
    raw: Seq<char>,
    normalized: Seq<char>,
    canonical_root: Seq<char>,
    canonical: Result<(Seq<char>, bool), Seq<char>>,
) -> Result<Seq<char>, Seq<char>> {
    let outside = local_lead(dep, manifest) + "' resolves outside the scan root via '"@ + local_spec + "'."@;
    match canonical {
        Err(e) => if !spec_path_starts_with(normalized, canonical_root) {
            Err(outside)
        } else {
            Err(local_lead(dep, manifest) + "' points to '"@ + raw + "' but that target is missing or unreadable: "@ + e
                + "."@)
        },
        Ok((t, is_dir)) => if !spec_path_starts_with(t, canonical_root) {
            Err(outside)
        } else if !is_dir {
            Err(local_lead(dep, manifest) + "' points to '"@ + raw + "' which is not a project directory."@)
        } else {
            Ok(t)
        },
    }
}

pub open spec fn canonical_view(c: Result<(String, bool), String>) -> Result<(Seq<char>, bool), Seq<char>> {
    match c {
        Ok((t, d)) => Ok((t@, d)),
        Err(e) => Err(e@),
    }
}

/// The canonical directory a `file:`/`link:` requirement names (see
/// `spec_resolve_local_target`); `canonical_target` is what canonicalizing
/// `candidate.normalized` gave.
pub fn resolve_local_npm_target(
    dep_name: &str,
    manifest_path: &str,
    local_spec: &str,
    candidate: &LocalTargetCandidate,
    canonical_root: &str,
    canonical_target: Result<(String, bool), String>,
) -> (r: Result<String, String>)
    ensures
        match r {
            Ok(t) => spec_resolve_local_target(
                dep_name@,
                manifest_path@,
                local_spec@,
                candidate.raw_target@,
                candidate.normalized@,
                canonical_root@,
                canonical_view(canonical_target),
            ) == Ok::<Seq<char>, Seq<char>>(t@),
            Err(e) => spec_resolve_local_target(
                dep_name@,
                manifest_path@,
                local_spec@,
                candidate.raw_target@,
                candidate.normalized@,
                canonical_root@,
                canonical_view(canonical_target),
            ) == Err::<Seq<char>, Seq<char>>(e@),
        },
{
    let outside = concat_parts(
        &[
            "Local npm dependency '",
            dep_name,
            "' in '",
            manifest_path,
            "' resolves outside the scan root via '",
            local_spec,
            "'.",
        ],
    );
    proof {
        reveal_with_fuel(concat_all, 8);
    }
    match canonical_target {
        Err(err) => {
            if !path_starts_with(candidate.normalized.as_str(), canonical_root) {
                return Err(outside);
            }
            let e = concat_parts(
                &[
                    "Local npm dependency '",
                    dep_name,
                    "' in '",
                    manifest_path,
                    "' points to '",
                    candidate.raw_target.as_str(),
                    "' but that target is missing or unreadable: ",
                    err.as_str(),
                    ".",
                ],
            );
            proof {
                reveal_with_fuel(concat_all, 10);
            }
            Err(e)
        },
        Ok((target, is_dir)) => {
            if !path_starts_with(target.as_str(), canonical_root) {
                return Err(outside);
            }
            if !is_dir {
                let e = concat_parts(
                    &[
                        "Local npm dependency '",
                        dep_name,
                        "' in '",
                        manifest_path,
                        "' points to '",
                        candidate.raw_target.as_str(),
                        "' which is not a project directory.",
                    ],
                );
                proof {
                    reveal_with_fuel(concat_all, 8);
                }
                return Err(e);
            }
            Ok(target)
        },
    }
}

// ---- the scanned projects ----
/// The scanned npm projects: the canonical directory of each, and the
/// package name each declares, by canonical directory.
#[derive(Debug)]
pub struct NpmProjectIndex {
    pub dirs: Vec<String>,
    pub names_by_dir: StringTable,
}

impl NpmProjectIndex {
    pub open spec fn wf(&self) -> bool {
        self.names_by_dir.wf()
    }
}

/// The names the projects declare, by directory (a later project replaces
/// an earlier one in the same directory).
pub open spec fn index_names(projects: Seq<(String, Option<String>)>) -> Map<Seq<char>, Seq<char>>
    decreases projects.len(),
{
    if projects.len() == 0 {
        Map::empty()
    } else {
        let m = index_names(projects.drop_last());
        match projects.last().1 {
            Some(n) => m.insert(projects.last().0@, n@),
            None => m,
        }
    }
}

pub open spec fn project_dirs(projects: Seq<(String, Option<String>)>) -> Seq<Seq<char>> {
    projects.map_values(|p: (String, Option<String>)| p.0@)
}

/// The index of the scanned projects, each given as its canonical
/// directory and the `name` its manifest declares, if any.
pub fn index_npm_projects(projects: &Vec<(String, Option<String>)>) -> (r: NpmProjectIndex)
    ensures
        r.wf(),
        strs(r.dirs@) == project_dirs(projects@),
        r.names_by_dir@ == index_names(projects@),
{
    let mut dirs: Vec<String> = Vec::new();
    let mut names = StringTable::new();
    let mut i: usize = 0;
    assert(projects@.subrange(0, 0) =~= Seq::<(String, Option<String>)>::empty());
    while i < projects.len()
        invariant
            i <= projects@.len(),
            names.wf(),
            strs(dirs@) == project_dirs(projects@.subrange(0, i as int)),
            names@ == index_names(projects@.subrange(0, i as int)),
        decreases projects.len() - i,
    {
        assert(projects@.subrange(0, i + 1).drop_last() == projects@.subrange(0, i as int));
        assert(projects@.subrange(0, i + 1).last() == projects@[i as int]);
        let ghost before = strs(dirs@);
        let d = projects[i].0.clone();
        assert(d@ == projects@[i as int].0@);
        dirs.push(d);
        assert(strs(dirs@) =~= before.push(projects@[i as int].0@));
        assert(project_dirs(projects@.subrange(0, i + 1)) =~= project_dirs(projects@.subrange(0, i as int)).push(
            projects@[i as int].0@,
        ));
        if let Some(n) = &projects[i].1 {
            names.insert(projects[i].0.clone(), n.clone());
        }
        i = i + 1;
    }
    assert(projects@.subrange(0, projects@.len() as int) == projects@);
    NpmProjectIndex { dirs, names_by_dir: names }
}

/// What a scan calls the projects of a manager when none is found.
pub open spec fn scanned_kind(m: JsPackageManager) -> Seq<char> {
    match m {
        JsPackageManager::Npm => "npm project"@,
        _ => "package.json"@,
    }
}

/// A `file:`/`link:` target must be a scanned project that declares the
/// dependency's own name.
pub open spec fn spec_target_identity(
    manager: JsPackageManager,
    dep: Seq<char>,
    manifest: Seq<char>,
    local_spec: Seq<char>,
    target: Seq<char>,
    dirs: Seq<Seq<char>>,
    names: Map<Seq<char>, Seq<char>>,
) -> Result<(), Seq<char>> {
    let lead = "Local "@ + manager_label(manager) + " dependency '"@ + dep + "' in '"@ + manifest + "' resolves to '"@;
    if !dirs.contains(target) {
        Err(lead + local_spec + "' inside the scan root, but no scanned "@ + scanned_kind(manager) + " was found there."@)
    } else if map_get(names, target) != Some(dep) {
        let actual = match map_get(names, target) {
            Some(n) => n,
            None => "<missing package name>"@,
        };
        Err(lead + target + "', but that project declares package name '"@ + sanitized(actual)
            + "'. Local file:/link: targets must match the dependency package identity exactly."@)
    } else {
        Ok(())
    }
}

pub open spec fn unit_view(r: Result<(), String>) -> Result<(), Seq<char>> {
    match r {
        Ok(()) => Ok(()),
        Err(e) => Err(e@),
    }
}

/// Whether the canonical `target` of a `file:`/`link:` dependency is the
/// scanned project of that name (see `spec_target_identity`).
pub fn check_local_target_identity(
    manager: JsPackageManager,
    dep_name: &str,
    manifest_path: &str,
    local_spec: &str,
    target: &str,
    index: &NpmProjectIndex,
) -> (r: Result<(), String>)
    requires
        index.wf(),
    ensures
        unit_view(r) == spec_target_identity(
            manager,
            dep_name@,
            manifest_path@,
            local_spec@,
            target@,
            strs(index.dirs@),
            index.names_by_dir@,
        ),
{
    let label = manager_label_exec(manager);
    let mut found = false;
    let mut i: usize = 0;
    while i < index.dirs.len()
        invariant
            i <= index.dirs@.len(),
            found <==> exists|j: int| 0 <= j < i && #[trigger] index.dirs@[j]@ == target@,
        decreases index.dirs.len() - i,
    {
        if str_eq(index.dirs[i].as_str(), target) {
            found = true;
        }
        i = i + 1;
    }
    proof {
        let ds = strs(index.dirs@);
        if found {
            let j = choose|j: int| 0 <= j < index.dirs@.len() && #[trigger] index.dirs@[j]@ == target@;
            assert(ds[j] == target@);
        } else {
            assert forall|j: int| 0 <= j < ds.len() implies ds[j] != target@ by {
                assert(ds[j] == index.dirs@[j]@);
            }
        }
    }
    if !found {
        let e = concat_parts(
            &[
                "Local ",
                label,
                " dependency '",
                dep_name,
                "' in '",
                manifest_path,
                "' resolves to '",
                local_spec,
                "' inside the scan root, but no scanned ",
                match manager {
                    JsPackageManager::Npm => "npm project",
                    _ => "package.json",
                },
                " was found there.",
            ],
        );
        proof {
            reveal_with_fuel(concat_all, 12);
        }
        return Err(e);
    }
    let declared = index.names_by_dir.get(target);
    let matches = match declared {
        Some(n) => str_eq(n.as_str(), dep_name),
        None => false,
    };
    if !matches {
        let actual = match declared {
            Some(n) => sanitize_for_terminal(n.as_str()),
            None => sanitize_for_terminal("<missing package name>"),
        };
        let e = concat_parts(
            &[
                "Local ",
                label,
                " dependency '",
                dep_name,
                "' in '",
                manifest_path,
                "' resolves to '",
                target,
                "', but that project declares package name '",
                actual.as_str(),
                "'. Local file:/link: targets must match the dependency package identity exactly.",
            ],
        );
        proof {
            reveal_with_fuel(concat_all, 12);
        }
        return Err(e);
    }
    Ok(())
}

/// The directories of the index whose project is named `dep`, other than
/// `project_dir`, that the workspace at `workspace_dir` covers.
pub open spec fn workspace_name_matches(
    entries: Seq<(Seq<char>, Seq<char>)>,
    dep: Seq<char>,
    project_dir: Seq<char>,
    workspace_dir: Seq<char>,
    patterns: Seq<String>,
) -> Seq<Seq<char>>
    decreases entries.len(),
{
    if entries.len() == 0 {
        Seq::empty()
    } else {
        let r = workspace_name_matches(entries.drop_last(), dep, project_dir, workspace_dir, patterns);
        let (dir, name) = entries.last();
        if name == dep && spec_path_parts(dir) != spec_path_parts(project_dir)
            && spec_dir_matches_workspace_patterns(workspace_dir, dir, patterns) {
            r.push(dir)
        } else {
            r
        }
    }
}

/// The scanned packages that a `workspace:` dependency named `dep_name`
/// may bind to: those of that name, other than the depending project,
/// inside the npm workspaces declared at `workspace_dir` (see
/// `workspace_name_matches`).
pub fn npm_workspace_matches(
    index: &NpmProjectIndex,
    dep_name: &str,
    canonical_project_dir: &str,
    workspace_dir: &str,
    patterns: &Vec<String>,
) -> (r: Vec<String>)
    ensures
        strs(r@) == workspace_name_matches(
            pairs_view(index.names_by_dir.entries@),
            dep_name@,
            canonical_project_dir@,
            workspace_dir@,
            patterns@,
        ),
{
    let entries = &index.names_by_dir.entries;
    let ghost ev = pairs_view(entries@);
    let mut out: Vec<String> = Vec::new();
    let mut i: usize = 0;
    assert(ev.subrange(0, 0) =~= Seq::<(Seq<char>, Seq<char>)>::empty());
    while i < entries.len()
        invariant
            i <= entries@.len(),
            ev == pairs_view(entries@),
            strs(out@) == workspace_name_matches(
                ev.subrange(0, i as int),
                dep_name@,
                canonical_project_dir@,
                workspace_dir@,
                patterns@,
            ),
        decreases entries.len() - i,
    {
        assert(ev.subrange(0, i + 1).drop_last() == ev.subrange(0, i as int));
        assert(ev.subrange(0, i + 1).last() == ev[i as int]);
        let dir = entries[i].0.as_str();
        let name = entries[i].1.as_str();
        if str_eq(name, dep_name) && !same_path(dir, canonical_project_dir)
            && dir_matches_workspace_patterns(workspace_dir, dir, patterns) {
            let ghost before = strs(out@);
            out.push(entries[i].0.clone());
            assert(strs(out@) =~= before.push(dir@));
        }
        i = i + 1;
    }
    assert(ev.subrange(0, ev.len() as int) == ev);
    out
}

// ---- what the lockfile binds ----
/// A lockfile's record of a local dependency: the path it records, and
/// the path to look up on disk.
#[derive(Debug)]
pub struct LockfileTarget {
    pub recorded: String,
    pub lookup: String,
}

pub open spec fn target_view(r: Result<LockfileTarget, String>) -> Result<(Seq<char>, Seq<char>), Seq<char>> {
    match r {
        Ok(t) => Ok((t.recorded@, t.lookup@)),
        Err(e) => Err(e@),
    }
}

pub open spec fn canonical_path_view(c: Result<String, String>) -> Result<Seq<char>, Seq<char>> {
    match c {
        Ok(t) => Ok(t@),
        Err(e) => Err(e@),
    }
}

/// Where `package-lock.json` binds a local dependency: its
/// `node_modules/<dep>` entry must be a link with a `resolved` path, taken
/// from the lockfile's directory and normalized.
pub open spec fn spec_npm_lockfile_target(
    packages: Option<Seq<(Seq<char>, Option<crate::lockfiles::npm::NpmEntryView>)>>,
    lockfile_path: Seq<char>,
    dep: Seq<char>,
    local_spec: Seq<char>,
) -> Result<(Seq<char>, Seq<char>), Seq<char>> {
    let entry = match packages {
        Some(ps) => first_match(ps, "node_modules/"@ + dep),
        None => None,
    };
    let lead = "Required lockfile '"@ + lockfile_path + "' entry '"@ + dep;
    match entry {
        Some(Some(e)) => if !e.link {
            Err(lead + "' must be a local link for '"@ + local_spec + "', but link=true was not present."@)
        } else {
            match e.resolved {
                Some(r) => Ok((r, spec_normalize(spec_join(spec_parent(lockfile_path).unwrap(), r)))),
                None => Err(lead + "' is missing its resolved local target for '"@ + local_spec + "'."@),
            }
        },
        _ => Err(
            "Required lockfile '"@ + lockfile_path + "' is out of sync with package.json: local npm dependency '"@ + dep
                + "' is missing its lockfile entry."@,
        ),
    }
}

/// Where `package-lock.json` binds a local dependency (see
/// `spec_npm_lockfile_target`).
pub fn npm_lockfile_local_target(
    lockfile: &NpmLockfile,
    lockfile_path: &str,
    dep_name: &str,
    local_spec: &str,
) -> (r: Result<LockfileTarget, String>)
    requires
        spec_parent(lockfile_path@) is Some,
    ensures
        target_view(r) == spec_npm_lockfile_target(lockfile@.packages, lockfile_path@, dep_name@, local_spec@),
{
    let key = concat_parts(&["node_modules/", dep_name]);
    proof {
        reveal_with_fuel(concat_all, 3);
    }
    let entry = match &lockfile.packages {
        Some(ps) => find_package(ps, key.as_str()),
        None => None,
    };
    let e = match entry {
        Some(Some(e)) => e,
        _ => {
            let m = concat_parts(
                &[
                    "Required lockfile '",
                    lockfile_path,
                    "' is out of sync with package.json: local npm dependency '",
                    dep_name,
                    "' is missing its lockfile entry.",
                ],
            );
            proof {
                reveal_with_fuel(concat_all, 6);
            }
            return Err(m);
        },
    };
    if !e.link {
        let m = concat_parts(
            &[
                "Required lockfile '",
                lockfile_path,
                "' entry '",
                dep_name,
                "' must be a local link for '",
                local_spec,
                "', but link=true was not present.",
            ],
        );
        proof {
            reveal_with_fuel(concat_all, 8);
        }
        return Err(m);
    }
    let resolved = match &e.resolved {
        Some(r) => r,
        None => {
            let m = concat_parts(
                &[
                    "Required lockfile '",
                    lockfile_path,
                    "' entry '",
                    dep_name,
                    "' is missing its resolved local target for '",
                    local_spec,
                    "'.",
                ],
            );
            proof {
                reveal_with_fuel(concat_all, 8);
            }
            return Err(m);
        },
    };
    let dir = match parent_path(lockfile_path) {
        Some(d) => d,
        None => {
            return Err(String::new());
        },
    };
    let candidate = join_path(dir.as_str(), resolved.as_str());
    let lookup = normalize_filesystem_path(candidate.as_str());
    Ok(LockfileTarget { recorded: resolved.clone(), lookup })
}

/// The lockfile's binding of a local dependency, once the filesystem has
/// canonicalized the lookup path: it must exist and be the directory the
/// manifest resolves to.
pub open spec fn spec_npm_binding(
    lockfile_path: Seq<char>,
    dep: Seq<char>,
    local_spec: Seq<char>,
    recorded: Seq<char>,
    canonical: Result<Seq<char>, Seq<char>>,
    expected: Seq<char>,
) -> Result<(), Seq<char>> {
    let lead = "Required lockfile '"@ + lockfile_path + "' entry '"@ + dep + "' points to '"@ + recorded;
    match canonical {
        Err(e) => Err(lead + "' but that target is missing or unreadable: "@ + e + "."@),
        Ok(t) => if spec_path_parts(t) != spec_path_parts(expected) {
            Err(lead + "' for '"@ + local_spec + "', but the manifest-verified local target is '"@ + expected
                + "'. Regenerate the lockfile so the local dependency binding matches exactly."@)
        } else {
            Ok(())
        },
    }
}

/// Whether `package-lock.json` binds a local dependency to the directory
/// the manifest resolves to (see `spec_npm_binding`); `canonical` is what
/// canonicalizing `target.lookup` gave.
pub fn validate_local_npm_lockfile_target(
    lockfile_path: &str,
    dep_name: &str,
    local_spec: &str,
    target: &LockfileTarget,
    canonical: Result<String, String>,
    expected_target: &str,
) -> (r: Result<(), String>)
    ensures
        unit_view(r) == spec_npm_binding(
            lockfile_path@,
            dep_name@,
            local_spec@,
            target.recorded@,
            canonical_path_view(canonical),
            expected_target@,
        ),
{
    match canonical {
        Err(err) => {
            let m = concat_parts(
                &[
                    "Required lockfile '",
                    lockfile_path,
                    "' entry '",
                    dep_name,
                    "' points to '",
                    target.recorded.as_str(),
                    "' but that target is missing or unreadable: ",
                    err.as_str(),
                    ".",
                ],
            );
            proof {
                reveal_with_fuel(concat_all, 10);
            }
            Err(m)
        },
        Ok(t) => {
            if !same_path(t.as_str(), expected_target) {
                let m = concat_parts(
                    &[
                        "Required lockfile '",
                        lockfile_path,
                        "' entry '",
                        dep_name,
                        "' points to '",
                        target.recorded.as_str(),
                        "' for '",
                        local_spec,
                        "', but the manifest-verified local target is '",
                        expected_target,
                        "'. Regenerate the lockfile so the local dependency binding matches exactly.",
                    ],
                );
                proof {
                    reveal_with_fuel(concat_all, 12);
                }
                return Err(m);
            }
            Ok(())
        },
    }
}

/// Where `pnpm-lock.yaml` binds a local dependency: the importer's entry
/// for it must be a `link:` or `file:` reference, taken from the
/// importer's directory (the lockfile's own for `.`) and normalized.
pub open spec fn spec_pnpm_lockfile_target(
    importers: Option<Seq<(Seq<char>, PnpmImporter)>>,
    lockfile_path: Seq<char>,
    importer_key: Seq<char>,
    dep: Seq<char>,
) -> Result<(Seq<char>, Seq<char>), Seq<char>> {
    let lead = "Required lockfile '"@ + lockfile_path;
    let importer = match importers {
        Some(is) => first_match(is, importer_key),
        None => None,
    };
    match importer {
        None => Err(lead + "' is out of sync: importer '"@ + importer_key + "' is missing."@),
        Some(imp) => match spec_reference(imp, dep) {
            None => Err(
                lead + "' is out of sync: local pnpm dependency '"@ + dep + "' is missing from importer '"@ + importer_key
                    + "'."@,
            ),
            Some(v) => match (match strip_prefix(v, "link:"@) {
                Some(r) => Some(r),
                None => strip_prefix(v, "file:"@),
            }) {
                None => Err(
                    lead + "' importer '"@ + importer_key + "' records '"@ + dep + "' as '"@ + sanitized(v)
                        + "', but local pnpm dependencies must resolve through link:/file: entries."@,
                ),
                Some(r) => {
                    let dir = spec_parent(lockfile_path).unwrap();
                    let importer_dir = if importer_key == "."@ {
                        dir
                    } else {
                        spec_join(dir, importer_key)
                    };
                    Ok((r, spec_normalize(spec_join(importer_dir, r))))
                },
            },
        },
    }
}

/// Where `pnpm-lock.yaml` binds a local dependency (see
/// `spec_pnpm_lockfile_target`).
pub fn pnpm_lockfile_local_target(
    lockfile: &PnpmLockfile,
    lockfile_path: &str,
    importer_key: &str,
    dep_name: &str,
) -> (r: Result<LockfileTarget, String>)
    requires
        spec_parent(lockfile_path@) is Some,
    ensures
        target_view(r) == spec_pnpm_lockfile_target(
            match lockfile.importers {
                Some(is) => Some(importers_view(is@)),
                None => None,
            },
            lockfile_path@,
            importer_key@,
            dep_name@,
        ),
{
    let idx = match &lockfile.importers {
        Some(is) => importer_index(is, importer_key),
        None => None,
    };
    let importer = match idx {
        Some(i) => match &lockfile.importers {
            Some(is) => &is[i].1,
            None => {
                return Err(String::new());
            },
        },
        None => {
            let m = concat_parts(
                &["Required lockfile '", lockfile_path, "' is out of sync: importer '", importer_key, "' is missing."],
            );
            proof {
                reveal_with_fuel(concat_all, 6);
            }
            return Err(m);
        },
    };
    let version = match importer_dependency_reference(importer, dep_name) {
        Some(v) => v,
        None => {
            let m = concat_parts(
                &[
                    "Required lockfile '",
                    lockfile_path,
                    "' is out of sync: local pnpm dependency '",
                    dep_name,
                    "' is missing from importer '",
                    importer_key,
                    "'.",
                ],
            );
            proof {
                reveal_with_fuel(concat_all, 8);
            }
            return Err(m);
        },
    };
    let resolved = match str_strip_prefix(version.as_str(), "link:") {
        Some(r) => r,
        None => match str_strip_prefix(version.as_str(), "file:") {
            Some(r) => r,
            None => {
                let shown = sanitize_for_terminal(version.as_str());
                let m = concat_parts(
                    &[
                        "Required lockfile '",
                        lockfile_path,
                        "' importer '",
                        importer_key,
                        "' records '",
                        dep_name,
                        "' as '",
                        shown.as_str(),
                        "', but local pnpm dependencies must resolve through link:/file: entries.",
                    ],
                );
                proof {
                    reveal_with_fuel(concat_all, 10);
                }
                return Err(m);
            },
        },
    };
    let dir = match parent_path(lockfile_path) {
        Some(d) => d,
        None => {
            return Err(String::new());
        },
    };
    let importer_dir = if str_eq(importer_key, ".") {
        dir
    } else {
        join_path(dir.as_str(), importer_key)
    };
    let candidate = join_path(importer_dir.as_str(), resolved.as_str());
    let lookup = normalize_filesystem_path(candidate.as_str());
    Ok(LockfileTarget { recorded: resolved, lookup })
}

/// The pnpm binding of a local dependency, once the lookup path has been
/// canonicalized (see `spec_npm_binding` for npm's).
pub open spec fn spec_pnpm_binding(
    lockfile_path: Seq<char>,
    importer_key: Seq<char>,
    dep: Seq<char>,
    local_spec: Seq<char>,
    recorded: Seq<char>,
    canonical: Result<Seq<char>, Seq<char>>,
    expected: Seq<char>,
) -> Result<(), Seq<char>> {
    let lead = "Required lockfile '"@ + lockfile_path + "' importer '"@ + importer_key + "' points '"@ + dep;
    match canonical {
        Err(e) => Err(lead + "' at '"@ + recorded + "' but that target is missing or unreadable: "@ + e + "."@),
        Ok(t) => if spec_path_parts(t) != spec_path_parts(expected) {
            Err(lead + "' to '"@ + recorded + "' for '"@ + local_spec + "', but the manifest-verified local target is '"@
                + expected + "'. Regenerate pnpm-lock.yaml so the local dependency binding matches exactly."@)
        } else {
            Ok(())
        },
    }
}

/// Whether `pnpm-lock.yaml` binds a local dependency to the directory the
/// manifest resolves to (see `spec_pnpm_binding`).
pub fn validate_local_pnpm_lockfile_target(
    lockfile_path: &str,
    importer_key: &str,
    dep_name: &str,
    local_spec: &str,
    target: &LockfileTarget,
    canonical: Result<String, String>,
    expected_target: &str,
) -> (r: Result<(), String>)
    ensures
        unit_view(r) == spec_pnpm_binding(
            lockfile_path@,
            importer_key@,
            dep_name@,
            local_spec@,
            target.recorded@,
            canonical_path_view(canonical),
            expected_target@,
        ),
{
    match canonical {
        Err(err) => {
            let m = concat_parts(
                &[
                    "Required lockfile '",
                    lockfile_path,
                    "' importer '",
                    importer_key,
                    "' points '",
                    dep_name,
                    "' at '",
                    target.recorded.as_str(),
                    "' but that target is missing or unreadable: ",
                    err.as_str(),
                    ".",
                ],
            );
            proof {
                reveal_with_fuel(concat_all, 12);
            }
            Err(m)
        },
        Ok(t) => {
            if !same_path(t.as_str(), expected_target) {
                let m = concat_parts(
                    &[
                        "Required lockfile '",
                        lockfile_path,
                        "' importer '",
                        importer_key,
                        "' points '",
                        dep_name,
                        "' to '",
                        target.recorded.as_str(),
                        "' for '",
                        local_spec,
                        "', but the manifest-verified local target is '",
                        expected_target,
                        "'. Regenerate pnpm-lock.yaml so the local dependency binding matches exactly.",
                    ],
                );
                proof {
                    reveal_with_fuel(concat_all, 14);
                }
                return Err(m);
            }
            Ok(())
        },
    }
}

pub open spec fn bun_packages_view(s: Seq<(String, Option<String>)>) -> Seq<(Seq<char>, Option<Seq<char>>)> {
    s.map_values(|p: (String, Option<String>)| (p.0@, opt_view(p.1)))
}

fn bun_descriptor<'a>(packages: &'a Vec<(String, Option<String>)>, key: &str) -> (r: Option<&'a Option<String>>)
    ensures
        match r {
            Some(d) => first_match(bun_packages_view(packages@), key@) == Some(opt_view(*d)),
            None => first_match(bun_packages_view(packages@), key@) is None,
        },
{
    let ghost ps = bun_packages_view(packages@);
    let mut i: usize = 0;
    while i < packages.len()
        invariant
            i <= packages@.len(),
            ps == bun_packages_view(packages@),
            forall|j: int| 0 <= j < i ==> #[trigger] ps[j].0 != key@,
        decreases packages.len() - i,
    {
        if str_eq(packages[i].0.as_str(), key) {
            proof {
                lemma_first_match(ps, key@, i as int);
            }
            return Some(&packages[i].1);
        }
        i = i + 1;
    }
    proof {
        lemma_first_match(ps, key@, i as int);
    }
    None
}

/// The descriptor prefix and label of a local requirement's kind.
pub open spec fn bun_local_kind(local_spec: Seq<char>) -> Option<(Seq<char>, Seq<char>)> {
    if starts_with(local_spec, "workspace:"@) {
        Some(("@workspace:"@, "workspace:"@))
    } else if starts_with(local_spec, "file:"@) {
        Some(("@file:"@, "file:"@))
    } else if starts_with(local_spec, "link:"@) {
        Some(("@link:"@, "link:"@))
    } else {
        None
    }
}

/// Where `bun.lock` binds a local dependency: its package entry's
/// descriptor must be `<dep>@workspace:`, `@file:` or `@link:` (as the
/// manifest's requirement is) followed by a path, taken from the
/// lockfile's directory.
pub open spec fn spec_bun_lockfile_target(
    packages: Option<Seq<(Seq<char>, Option<Seq<char>>)>>,
    lockfile_path: Seq<char>,
    manifest: Seq<char>,
    dep: Seq<char>,
    local_spec: Seq<char>,
) -> Result<(Seq<char>, Seq<char>), Seq<char>> {
    let lead = "Required lockfile '"@ + lockfile_path + "' is out of sync with package.json: local Bun dependency '"@ + dep;
    let descriptor = match packages {
        Some(ps) => first_match(ps, dep),
        None => None,
    };
    match descriptor {
        Some(Some(d)) => match bun_local_kind(local_spec) {
            None => Err(
                "Local Bun dependency '"@ + dep + "' in '"@ + manifest + "' uses unsupported spec '"@ + sanitized(local_spec)
                    + "'."@,
            ),
            Some((prefix, label)) => match strip_prefix(d, dep + prefix) {
                None => Err(lead + "' should resolve via "@ + label + ", but the lockfile recorded '"@ + sanitized(d) + "'."@),
                Some(rel) => Ok((rel, spec_join(spec_parent(lockfile_path).unwrap(), rel))),
            },
        },
        _ => Err(lead + "' is missing its lockfile package entry."@),
    }
}

/// Where `bun.lock` binds a local dependency (see
/// `spec_bun_lockfile_target`).
pub fn bun_lockfile_local_target(
    lockfile: &BunLockfile,
    lockfile_path: &str,
    manifest_path: &str,
    dep_name: &str,
    local_spec: &str,
) -> (r: Result<LockfileTarget, String>)
    requires
        spec_parent(lockfile_path@) is Some,
    ensures
        target_view(r) == spec_bun_lockfile_target(
            match lockfile.packages {
                Some(ps) => Some(bun_packages_view(ps@)),
                None => None,
            },
            lockfile_path@,
            manifest_path@,
            dep_name@,
            local_spec@,
        ),
{
    let descriptor = match &lockfile.packages {
        Some(ps) => bun_descriptor(ps, dep_name),
        None => None,
    };
    let d = match descriptor {
        Some(Some(d)) => d,
        _ => {
            let m = concat_parts(
                &[
                    "Required lockfile '",
                    lockfile_path,
                    "' is out of sync with package.json: local Bun dependency '",
                    dep_name,
                    "' is missing its lockfile package entry.",
                ],
            );
            proof {
                reveal_with_fuel(concat_all, 6);
            }
            return Err(m);
        },
    };
    let (prefix, label) = if str_starts_with(local_spec, "workspace:") {
        ("@workspace:", "workspace:")
    } else if str_starts_with(local_spec, "file:") {
        ("@file:", "file:")
    } else if str_starts_with(local_spec, "link:") {
        ("@link:", "link:")
    } else {
        let shown = sanitize_for_terminal(local_spec);
        let m = concat_parts(
            &["Local Bun dependency '", dep_name, "' in '", manifest_path, "' uses unsupported spec '", shown.as_str(), "'."],
        );
        proof {
            reveal_with_fuel(concat_all, 8);
        }
        return Err(m);
    };
    let expected_prefix = concat_parts(&[dep_name, prefix]);
    proof {
        reveal_with_fuel(concat_all, 3);
    }
    let rel = match str_strip_prefix(d.as_str(), expected_prefix.as_str()) {
        Some(r) => r,
        None => {
            let shown = sanitize_for_terminal(d.as_str());
            let m = concat_parts(
                &[
                    "Required lockfile '",
                    lockfile_path,
                    "' is out of sync with package.json: local Bun dependency '",
                    dep_name,
                    "' should resolve via ",
                    label,
                    ", but the lockfile recorded '",
                    shown.as_str(),
                    "'.",
                ],
            );
            proof {
                reveal_with_fuel(concat_all, 10);
            }
            return Err(m);
        },
    };
    let dir = match parent_path(lockfile_path) {
        Some(d) => d,
        None => {
            return Err(String::new());
        },
    };
    let lookup = join_path(dir.as_str(), rel.as_str());
    Ok(LockfileTarget { recorded: rel, lookup })
}

/// The Bun binding of a local dependency, once the lookup path has been
/// canonicalized: it must be readable and be the directory the manifest
/// resolves to.
pub open spec fn spec_bun_binding(
    lockfile_path: Seq<char>,
    dep: Seq<char>,
    recorded: Seq<char>,
    canonical: Result<Seq<char>, Seq<char>>,
    expected: Seq<char>,
) -> Result<(), Seq<char>> {
    match canonical {
        Err(e) => Err(
            "Required lockfile '"@ + lockfile_path + "' points local Bun dependency '"@ + dep + "' at '"@ + sanitized(recorded)
                + "', but that target is unreadable: "@ + e,
        ),
        Ok(t) => if spec_path_parts(t) != spec_path_parts(expected) {
            Err("Required lockfile '"@ + lockfile_path + "' is out of sync with package.json: local Bun dependency '"@ + dep
                + "' points to '"@ + t + "', but package.json resolves to '"@ + expected
                + "'. Regenerate bun.lock from the Bun workspace root."@)
        } else {
            Ok(())
        },
    }
}

/// Whether `bun.lock` binds a local dependency to the directory the
/// manifest resolves to (see `spec_bun_binding`).
pub fn validate_local_bun_lockfile_target(
    lockfile_path: &str,
    dep_name: &str,
    target: &LockfileTarget,
    canonical: Result<String, String>,
    expected_target: &str,
) -> (r: Result<(), String>)
    ensures
        unit_view(r) == spec_bun_binding(
            lockfile_path@,
            dep_name@,
            target.recorded@,
            canonical_path_view(canonical),
            expected_target@,
        ),
{
    match canonical {
        Err(err) => {
            let shown = sanitize_for_terminal(target.recorded.as_str());
            let m = concat_parts(
                &[
                    "Required lockfile '",
                    lockfile_path,
                    "' points local Bun dependency '",
                    dep_name,
                    "' at '",
                    shown.as_str(),
                    "', but that target is unreadable: ",
                    err.as_str(),
                ],
            );
            proof {
                reveal_with_fuel(concat_all, 9);
            }
            Err(m)
        },
        Ok(t) => {
            if !same_path(t.as_str(), expected_target) {
                let m = concat_parts(
                    &[
                        "Required lockfile '",
                        lockfile_path,
                        "' is out of sync with package.json: local Bun dependency '",
                        dep_name,
                        "' points to '",
                        t.as_str(),
                        "', but package.json resolves to '",
                        expected_target,
                        "'. Regenerate bun.lock from the Bun workspace root.",
                    ],
                );
                proof {
                    reveal_with_fuel(concat_all, 10);
                }
                return Err(m);
            }
            Ok(())
        },
    }
}

// ---- Yarn ----
/// Yarn local dependencies must be `workspace:` ones.
pub open spec fn spec_yarn_local_spec(dep: Seq<char>, manifest: Seq<char>, local_spec: Seq<char>) -> Result<(), Seq<char>> {
    if starts_with(local_spec, "workspace:"@) {
        Ok(())
    } else {
        Err("Local Yarn dependency '"@ + dep + "' in '"@ + manifest + "' uses unsupported spec '"@ + sanitized(local_spec)
            + "'. sloppy-joe currently supports Yarn workspace: dependencies, but file:/link: targets remain blocked until their lockfile provenance is modeled exactly."@)
    }
}

/// Whether Yarn supports a local requirement (see `spec_yarn_local_spec`).
pub fn check_yarn_local_spec(dep_name: &str, manifest_path: &str, local_spec: &str) -> (r: Result<(), String>)
    ensures
        unit_view(r) == spec_yarn_local_spec(dep_name@, manifest_path@, local_spec@),
{
    if str_starts_with(local_spec, "workspace:") {
        return Ok(());
    }
    let shown = sanitize_for_terminal(local_spec);
    let m = concat_parts(
        &[
            "Local Yarn dependency '",
            dep_name,
            "' in '",
            manifest_path,
            "' uses unsupported spec '",
            shown.as_str(),
            "'. sloppy-joe currently supports Yarn workspace: dependencies, but file:/link: targets remain blocked until their lockfile provenance is modeled exactly.",
        ],
    );
    proof {
        reveal_with_fuel(concat_all, 8);
    }
    Err(m)
}

/// The workspace path under which Yarn's lockfile records a workspace
/// package: `.` for the trusted root itself, else its names below the
/// root joined by `/`; refused for a package outside the root.
pub open spec fn spec_yarn_relative_target(
    dep: Seq<char>,
    manifest: Seq<char>,
    trusted_root: Seq<char>,
    target: Seq<char>,
) -> Result<Seq<char>, Seq<char>> {
    if spec_path_parts(target) == spec_path_parts(trusted_root) {
        Ok("."@)
    } else {
        match spec_relative_names(target, trusted_root) {
            Some(names) => Ok(join(names, "/"@)),
            None => Err(
                "Local Yarn dependency '"@ + dep + "' in '"@ + manifest + "' resolved outside the trusted Yarn root '"@
                    + trusted_root + "'."@,
            ),
        }
    }
}

/// The workspace path of a Yarn workspace package (see
/// `spec_yarn_relative_target`).
pub fn yarn_relative_target(dep_name: &str, manifest_path: &str, trusted_root: &str, target: &str) -> (r: Result<
    String,
    String,
>)
    ensures
        match r {
            Ok(t) => spec_yarn_relative_target(dep_name@, manifest_path@, trusted_root@, target@) == Ok::<
                Seq<char>,
                Seq<char>,
            >(t@),
            Err(e) => spec_yarn_relative_target(dep_name@, manifest_path@, trusted_root@, target@) == Err::<
                Seq<char>,
                Seq<char>,
            >(e@),
        },
{
    if same_path(target, trusted_root) {
        proof {
            reveal_strlit(".");
        }
        return Ok(string_of_str("."));
    }
    match relative_names(target, trusted_root) {
        Some(names) => {
            let r = join_strings(&names, "/");
            proof {
                reveal_strlit("/");
                assert(strings_view(names@) == strs(names@));
            }
            Ok(r)
        },
        None => {
            let m = concat_parts(
                &[
                    "Local Yarn dependency '",
                    dep_name,
                    "' in '",
                    manifest_path,
                    "' resolved outside the trusted Yarn root '",
                    trusted_root,
                    "'.",
                ],
            );
            proof {
                reveal_with_fuel(concat_all, 8);
            }
            Err(m)
        },
    }
}

} // verus!
