//! Whether a pnpm importer, or a Bun workspace, declares exactly the
//! dependency sections of its `package.json`.
use vstd::prelude::*;
use crate::assoc::{StringTable, akeys_unique, amap};
use crate::lockfiles::npm::{NpmSections, NpmSectionsView, first_match};
use crate::lockfiles::pnpm::{
    PnpmImporter, PnpmImporterEntry, PnpmLockfile, PnpmSection, importer_index, importers_view,
};
use crate::lockfiles::bun::{BunLockfile, BunSectionShape, BunSectionShapes, BunWorkspace, workspace_index, workspaces_view};
use crate::npm_consistency::{entry_label, pairs_equal, section_name, section_of};
use crate::npm_provenance::{opt_str, unit_result_view};
use crate::project::ProjectInputSpec;
use crate::text::{push_str, string_of_str};

verus! {

/// Whether the pairs of `lock` describe the map that the (distinct-keyed)
/// pairs of `manifest` describe, a later pair of `lock` winning over an
/// earlier one with the same key.
pub fn same_declarations(manifest: &Vec<(String, String)>, lock: &Vec<(String, String)>) -> (b: bool)
    requires
        akeys_unique(manifest@),
    ensures
        b == (amap(manifest@) == amap(lock@)),
{
    let mut table = StringTable::new();
    let mut i: usize = 0;
    while i < lock.len()
        invariant
            i <= lock@.len(),
            table.wf(),
            table@ == amap(lock@.subrange(0, i as int)),
        decreases lock.len() - i,
    {
        assert(lock@.subrange(0, i + 1).drop_last() == lock@.subrange(0, i as int));
        table.insert(lock[i].0.clone(), lock[i].1.clone());
        i = i + 1;
    }
    assert(lock@.subrange(0, lock@.len() as int) == lock@);
    pairs_equal(manifest, &table.entries)
}

// ---- pnpm ----
pub open spec fn importer_section(imp: PnpmImporter, k: int) -> PnpmSection {
    if k == 0 {
        imp.dependencies
    } else if k == 1 {
        imp.dev_dependencies
    } else if k == 2 {
        imp.optional_dependencies
    } else {
        imp.peer_dependencies
    }
}

pub open spec fn broken_section_prefix(section: Seq<char>) -> Seq<char> {
    "Broken lockfile importer section '"@ + section + "': "@
}

pub open spec fn not_mapping_msg(section: Seq<char>) -> Seq<char> {
    broken_section_prefix(section) + "expected a mapping of dependencies."@
}

pub open spec fn unnamed_msg(section: Seq<char>) -> Seq<char> {
    broken_section_prefix(section) + "dependency names must be strings."@
}

pub open spec fn no_specifier_msg(section: Seq<char>, name: Seq<char>) -> Seq<char> {
    broken_section_prefix(section) + "dependency '"@ + name + "' is missing its specifier."@
}

/// What an importer section declares: each name with its `specifier`, a
/// later entry winning; the first entry without a string name or without a
/// specifier breaks the section.
pub open spec fn declared_specifiers(es: Seq<PnpmImporterEntry>, section: Seq<char>) -> Result<
    Map<Seq<char>, Seq<char>>,
    Seq<char>,
>
    decreases es.len(),
{
    if es.len() == 0 {
        Ok(Map::empty())
    } else {
        match declared_specifiers(es.drop_last(), section) {
            Err(e) => Err(e),
            Ok(m) => match (opt_str(es.last().name), opt_str(es.last().specifier)) {
                (None, _) => Err(unnamed_msg(section)),
                (Some(n), None) => Err(no_specifier_msg(section, n)),
                (Some(n), Some(s)) => Ok(m.insert(n, s)),
            },
        }
    }
}

pub open spec fn section_declarations(s: PnpmSection, section: Seq<char>) -> Result<
    Map<Seq<char>, Seq<char>>,
    Seq<char>,
> {
    match s {
        PnpmSection::NotMapping => Err(not_mapping_msg(section)),
        PnpmSection::Entries(es) => declared_specifiers(es@, section),
    }
}

pub open spec fn importer_mismatch_msg(path: Seq<char>, key: Seq<char>, k: int) -> Seq<char> {
    "Required lockfile '"@ + path + "' is out of sync with package.json: importer '"@ + key
        + "' does not match its '"@ + section_name(k)
        + "' declarations. Regenerate pnpm-lock.yaml so it matches the manifest exactly."@
}

pub open spec fn missing_importer_msg(path: Seq<char>, key: Seq<char>) -> Seq<char> {
    "Required lockfile '"@ + path + "' is missing importer '"@ + key
        + "'. Regenerate pnpm-lock.yaml from the workspace root so it records this project explicitly."@
}

/// Sections `k` to `3` of the importer, each compared in turn with the
/// manifest's.
pub open spec fn importer_sections_check(
    m: NpmSectionsView,
    imp: PnpmImporter,
    key: Seq<char>,
    path: Seq<char>,
    k: int,
) -> Result<(), Seq<char>>
    decreases 4 - k,
{
    if k >= 4 || k < 0 {
        Ok(())
    } else {
        match section_declarations(importer_section(imp, k), section_name(k)) {
            Err(e) => Err(e),
            Ok(declared) => if section_of(m, k) != declared {
                Err(importer_mismatch_msg(path, key, k))
            } else {
                importer_sections_check(m, imp, key, path, k + 1)
            },
        }
    }
}

/// The project's importer key: its binding's entry key, else `.`.
pub open spec fn pnpm_importer_key(spec: ProjectInputSpec) -> Seq<char> {
    match spec.js_binding {
        Some(b) => b.package_entry_key@,
        None => "."@,
    }
}

/// The lockfile's importer for the project must exist, and each of its four
/// sections must be well formed and declare exactly the manifest's
/// requirements.
pub open spec fn spec_pnpm_consistency(
    spec: ProjectInputSpec,
    m: NpmSectionsView,
    lock: PnpmLockfile,
    path: Seq<char>,
) -> Result<(), Seq<char>> {
    let key = pnpm_importer_key(spec);
    let importer = match lock.importers {
        Some(is) => first_match(importers_view(is@), key),
        None => None,
    };
    match importer {
        None => Err(missing_importer_msg(path, key)),
        Some(imp) => importer_sections_check(m, imp, key, path, 0),
    }
}

fn section_label(k: usize) -> (s: &'static str)
    requires
        k < 4,
    ensures
        s@ == section_name(k as int),
{
    proof {
        reveal_strlit("dependencies");
        reveal_strlit("devDependencies");
        reveal_strlit("optionalDependencies");
        reveal_strlit("peerDependencies");
    }
    if k == 0 {
        "dependencies"
    } else if k == 1 {
        "devDependencies"
    } else if k == 2 {
        "optionalDependencies"
    } else {
        "peerDependencies"
    }
}

fn broken_section(section: &str, rest: &str) -> (r: String)
    ensures
        r@ == broken_section_prefix(section@) + rest@,
{
    let mut m = string_of_str("Broken lockfile importer section '");
    push_str(&mut m, section);
    push_str(&mut m, "': ");
    push_str(&mut m, rest);
    m
}

/// What an importer section declares (see `declared_specifiers`), as pairs
/// with distinct names.
fn importer_declarations(s: &PnpmSection, k: usize) -> (r: Result<StringTable, String>)
    requires
        k < 4,
    ensures
        match r {
            Ok(t) => t.wf() && section_declarations(*s, section_name(k as int)) == Ok::<
                Map<Seq<char>, Seq<char>>,
                Seq<char>,
            >(t@),
            Err(e) => section_declarations(*s, section_name(k as int)) == Err::<
                Map<Seq<char>, Seq<char>>,
                Seq<char>,
            >(e@),
        },
{
    let section = section_label(k);
    let es = match s {
        PnpmSection::NotMapping => {
            return Err(broken_section(section, "expected a mapping of dependencies."));
        },
        PnpmSection::Entries(es) => es,
    };
    let mut table = StringTable::new();
    let mut i: usize = 0;
    while i < es.len()
        invariant
            i <= es@.len(),
            k < 4,
            section@ == section_name(k as int),
            section_declarations(*s, section@) == declared_specifiers(es@, section@),
            table.wf(),
            declared_specifiers(es@.subrange(0, i as int), section@) == Ok::<
                Map<Seq<char>, Seq<char>>,
                Seq<char>,
            >(table@),
        decreases es.len() - i,
    {
        let ghost pre = es@.subrange(0, i + 1);
        assert(pre.drop_last() == es@.subrange(0, i as int));
        assert(pre.last() == es@[i as int]);
        let name = match &es[i].name {
            Some(n) => n,
            None => {
                let r = broken_section(section, "dependency names must be strings.");
                proof {
                    lemma_declared_prefix_error(es@, section@, i + 1);
                }
                return Err(r);
            },
        };
        let specifier = match &es[i].specifier {
            Some(v) => v,
            None => {
                let mut rest = string_of_str("dependency '");
                push_str(&mut rest, name.as_str());
                push_str(&mut rest, "' is missing its specifier.");
                let r = broken_section(section, rest.as_str());
                proof {
                    assert(r@ =~= no_specifier_msg(section@, name@));
                    assert(declared_specifiers(pre, section@) == Err::<Map<Seq<char>, Seq<char>>, Seq<char>>(
                        no_specifier_msg(section@, name@),
                    ));
                    lemma_declared_prefix_error(es@, section@, i + 1);
                }
                return Err(r);
            },
        };
        table.insert(name.clone(), specifier.clone());
        i = i + 1;
    }
    assert(es@.subrange(0, es@.len() as int) == es@);
    Ok(table)
}

/// An error on a prefix of the entries is the error of them all.
proof fn lemma_declared_prefix_error(es: Seq<PnpmImporterEntry>, section: Seq<char>, n: int)
    requires
        0 <= n <= es.len(),
        declared_specifiers(es.subrange(0, n), section) is Err,
    ensures
        declared_specifiers(es, section) == declared_specifiers(es.subrange(0, n), section),
    decreases es.len() - n,
{
    if n < es.len() {
        let longer = es.subrange(0, n + 1);
        assert(longer.drop_last() == es.subrange(0, n));
        lemma_declared_prefix_error(es, section, n + 1);
    } else {
        assert(es.subrange(0, n) == es);
    }
}

fn manifest_section(m: &NpmSections, k: usize) -> (s: &Vec<(String, String)>)
    requires
        k < 4,
    ensures
        amap(s@) == section_of(m@, k as int),
        m.wf() ==> akeys_unique(s@),
{
    if k == 0 {
        &m.dependencies
    } else if k == 1 {
        &m.dev_dependencies
    } else if k == 2 {
        &m.optional_dependencies
    } else {
        &m.peer_dependencies
    }
}

fn importer_section_ref(imp: &PnpmImporter, k: usize) -> (s: &PnpmSection)
    requires
        k < 4,
    ensures
        *s == importer_section(*imp, k as int),
{
    if k == 0 {
        &imp.dependencies
    } else if k == 1 {
        &imp.dev_dependencies
    } else if k == 2 {
        &imp.optional_dependencies
    } else {
        &imp.peer_dependencies
    }
}

/// Checks that `pnpm-lock.yaml` records the project's importer with exactly
/// the manifest's declarations (see `spec_pnpm_consistency`).
pub fn validate_pnpm_lockfile_consistency(
    spec: &ProjectInputSpec,
    manifest: &NpmSections,
    lockfile: &PnpmLockfile,
    lockfile_path: &str,
) -> (r: Result<(), String>)
    requires
        manifest.wf(),
    ensures
        unit_result_view(r) == spec_pnpm_consistency(*spec, manifest@, *lockfile, lockfile_path@),
{
    proof {
        reveal_strlit(".");
    }
    let key: &str = match &spec.js_binding {
        Some(b) => b.package_entry_key.as_str(),
        None => ".",
    };
    let index = match &lockfile.importers {
        Some(is) => importer_index(is, key),
        None => None,
    };
    let importer = match (&lockfile.importers, index) {
        (Some(is), Some(i)) => &is[i].1,
        _ => {
            let mut m = string_of_str("Required lockfile '");
            push_str(&mut m, lockfile_path);
            push_str(&mut m, "' is missing importer '");
            push_str(&mut m, key);
            push_str(
                &mut m,
                "'. Regenerate pnpm-lock.yaml from the workspace root so it records this project explicitly.",
            );
            return Err(m);
        },
    };
    let mut k: usize = 0;
    while k < 4
        invariant
            k <= 4,
            manifest.wf(),
            key@ == pnpm_importer_key(*spec),
            spec_pnpm_consistency(*spec, manifest@, *lockfile, lockfile_path@) == importer_sections_check(
                manifest@,
                *importer,
                key@,
                lockfile_path@,
                k as int,
            ),
        decreases 4 - k,
    {
        let declared = importer_declarations(importer_section_ref(importer, k), k);
        match declared {
            Err(e) => {
                return Err(e);
            },
            Ok(table) => {
                let ms = manifest_section(manifest, k);
                if !pairs_equal(ms, &table.entries) {
                    let mut m = string_of_str("Required lockfile '");
                    push_str(&mut m, lockfile_path);
                    push_str(&mut m, "' is out of sync with package.json: importer '");
                    push_str(&mut m, key);
                    push_str(&mut m, "' does not match its '");
                    push_str(&mut m, section_label(k));
                    push_str(
                        &mut m,
                        "' declarations. Regenerate pnpm-lock.yaml so it matches the manifest exactly.",
                    );
                    return Err(m);
                }
            },
        }
        k = k + 1;
    }
    Ok(())
}

// ---- Bun ----
pub open spec fn shape_of(shapes: BunSectionShapes, k: int) -> BunSectionShape {
    if k == 0 {
        shapes.dependencies
    } else if k == 1 {
        shapes.dev_dependencies
    } else if k == 2 {
        shapes.optional_dependencies
    } else {
        shapes.peer_dependencies
    }
}

pub open spec fn broken_workspace_prefix(section: Seq<char>) -> Seq<char> {
    "Broken lockfile workspace section '"@ + section + "': "@
}

pub open spec fn workspace_mismatch_msg(path: Seq<char>, key: Seq<char>, k: int) -> Seq<char> {
    "Required lockfile '"@ + path + "' is out of sync with package.json: workspace '"@ + entry_label(key)
        + "' does not match its '"@ + section_name(k)
        + "' declarations. Regenerate bun.lock so it matches the manifest exactly."@
}

pub open spec fn missing_workspace_msg(path: Seq<char>, key: Seq<char>) -> Seq<char> {
    "Required lockfile '"@ + path + "' is missing workspace '"@ + entry_label(key)
        + "'. Regenerate bun.lock from the workspace root so it records this project explicitly."@
}

/// Sections `k` to `3` of the workspace: each must be an object of string
/// specifiers that declares exactly the manifest's requirements.
pub open spec fn workspace_sections_check(
    m: NpmSectionsView,
    w: BunWorkspace,
    key: Seq<char>,
    path: Seq<char>,
    k: int,
) -> Result<(), Seq<char>>
    decreases 4 - k,
{
    if k >= 4 || k < 0 {
        Ok(())
    } else {
        match shape_of(w.shapes, k) {
            BunSectionShape::NotObject => Err(
                broken_workspace_prefix(section_name(k)) + "expected a mapping of dependencies."@,
            ),
            BunSectionShape::NonStringValue(n) => Err(
                broken_workspace_prefix(section_name(k)) + "dependency '"@ + n@
                    + "' must have a string specifier."@,
            ),
            BunSectionShape::Object => if section_of(m, k) != section_of(w.sections@, k) {
                Err(workspace_mismatch_msg(path, key, k))
            } else {
                workspace_sections_check(m, w, key, path, k + 1)
            },
        }
    }
}

/// The project's workspace key: its binding's entry key, else empty (the
/// root).
pub open spec fn bun_workspace_key(spec: ProjectInputSpec) -> Seq<char> {
    match spec.js_binding {
        Some(b) => b.package_entry_key@,
        None => Seq::empty(),
    }
}

/// The lockfile's workspace for the project must exist, and each of its
/// four sections must be well formed and declare exactly the manifest's
/// requirements.
pub open spec fn spec_bun_consistency(
    spec: ProjectInputSpec,
    m: NpmSectionsView,
    lock: BunLockfile,
    path: Seq<char>,
) -> Result<(), Seq<char>> {
    let key = bun_workspace_key(spec);
    let workspace = match lock.workspaces {
        Some(ws) => first_match(workspaces_view(ws@), key),
        None => None,
    };
    match workspace {
        None => Err(missing_workspace_msg(path, key)),
        Some(w) => workspace_sections_check(m, w, key, path, 0),
    }
}

fn shape_ref(shapes: &BunSectionShapes, k: usize) -> (s: &BunSectionShape)
    requires
        k < 4,
    ensures
        *s == shape_of(*shapes, k as int),
{
    if k == 0 {
        &shapes.dependencies
    } else if k == 1 {
        &shapes.dev_dependencies
    } else if k == 2 {
        &shapes.optional_dependencies
    } else {
        &shapes.peer_dependencies
    }
}

fn label_of(key: &str) -> (s: &str)
    ensures
        s@ == entry_label(key@),
{
    proof {
        reveal_strlit("<root>");
    }
    if key.unicode_len() == 0 {
        "<root>"
    } else {
        key
    }
}

/// Checks that `bun.lock` records the project's workspace with exactly the
/// manifest's declarations (see `spec_bun_consistency`).
pub fn validate_bun_lockfile_consistency(
    spec: &ProjectInputSpec,
    manifest: &NpmSections,
    lockfile: &BunLockfile,
    lockfile_path: &str,
) -> (r: Result<(), String>)
    requires
        manifest.wf(),
    ensures
        unit_result_view(r) == spec_bun_consistency(*spec, manifest@, *lockfile, lockfile_path@),
{
    proof {
        reveal_strlit("");
    }
    let key: &str = match &spec.js_binding {
        Some(b) => b.package_entry_key.as_str(),
        None => "",
    };
    assert(key@ =~= bun_workspace_key(*spec));
    let label = label_of(key);
    let index = match &lockfile.workspaces {
        Some(ws) => workspace_index(ws, key),
        None => None,
    };
    let workspace = match (&lockfile.workspaces, index) {
        (Some(ws), Some(i)) => &ws[i].1,
        _ => {
            let mut m = string_of_str("Required lockfile '");
            push_str(&mut m, lockfile_path);
            push_str(&mut m, "' is missing workspace '");
            push_str(&mut m, label);
            push_str(
                &mut m,
                "'. Regenerate bun.lock from the workspace root so it records this project explicitly.",
            );
            return Err(m);
        },
    };
    let mut k: usize = 0;
    while k < 4
        invariant
            k <= 4,
            manifest.wf(),
            key@ == bun_workspace_key(*spec),
            label@ == entry_label(key@),
            spec_bun_consistency(*spec, manifest@, *lockfile, lockfile_path@) == workspace_sections_check(
                manifest@,
                *workspace,
                key@,
                lockfile_path@,
                k as int,
            ),
        decreases 4 - k,
    {
        let section = section_label(k);
        match shape_ref(&workspace.shapes, k) {
            BunSectionShape::NotObject => {
                let mut m = string_of_str("Broken lockfile workspace section '");
                push_str(&mut m, section);
                push_str(&mut m, "': ");
                push_str(&mut m, "expected a mapping of dependencies.");
                return Err(m);
            },
            BunSectionShape::NonStringValue(n) => {
                let mut m = string_of_str("Broken lockfile workspace section '");
                push_str(&mut m, section);
                push_str(&mut m, "': ");
                push_str(&mut m, "dependency '");
                push_str(&mut m, n.as_str());
                push_str(&mut m, "' must have a string specifier.");
                return Err(m);
            },
            BunSectionShape::Object => {
                let ms = manifest_section(manifest, k);
                let ls = manifest_section(&workspace.sections, k);
                if !same_declarations(ms, ls) {
                    let mut m = string_of_str("Required lockfile '");
                    push_str(&mut m, lockfile_path);
                    push_str(&mut m, "' is out of sync with package.json: workspace '");
                    push_str(&mut m, label);
                    push_str(&mut m, "' does not match its '");
                    push_str(&mut m, section);
                    push_str(
                        &mut m,
                        "' declarations. Regenerate bun.lock so it matches the manifest exactly.",
                    );
                    return Err(m);
                }
            },
        }
        k = k + 1;
    }
    Ok(())
}

} // verus!
