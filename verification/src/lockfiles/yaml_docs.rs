//! `pnpm-lock.yaml` and `pnpm-workspace.yaml` read out of their parsed YAML
//! documents.
use vstd::prelude::*;
use crate::documents::{YamlValue, opt_yaml, parse_yaml, yaml_document, untag, yaml_as_str, yaml_get, yaml_get_entry, yaml_str, yaml_str_entry, yaml_untag};
use crate::js_workspaces::PnpmWorkspaceFile;
use crate::report::opt_view;
use crate::text::{push_str, string_of_str};
use super::json_docs::broken_manifest_msg;
use super::pnpm::{PnpmImporter, PnpmImporterEntry, PnpmLockfile, PnpmPackage, PnpmResolution, PnpmSection};

verus! {

/// `as_mapping`, under any tags.
pub open spec fn yaml_as_mapping(v: YamlValue) -> Option<Seq<(YamlValue, YamlValue)>> {
    match yaml_untag(v) {
        YamlValue::Mapping(es) => Some(es@),
        _ => None,
    }
}

/// The string entry `key` of a mapping.
pub open spec fn str_entry(v: YamlValue, key: Seq<char>) -> Option<Seq<char>> {
    match yaml_get(v, key) {
        Some(x) => yaml_as_str(x),
        None => None,
    }
}

fn as_mapping(v: &YamlValue) -> (r: Option<&Vec<(YamlValue, YamlValue)>>)
    ensures
        match r {
            Some(es) => yaml_as_mapping(*v) == Some(es@),
            None => yaml_as_mapping(*v) is None,
        },
{
    match untag(v) {
        YamlValue::Mapping(es) => Some(es),
        _ => None,
    }
}

/// One entry of an importer section, read.
pub open spec fn importer_entry_matches(k: YamlValue, v: YamlValue, e: PnpmImporterEntry) -> bool {
    &&& opt_view(e.name) == yaml_as_str(k)
    &&& opt_view(e.version) == str_entry(v, "version"@)
    &&& opt_view(e.specifier) == str_entry(v, "specifier"@)
    &&& opt_view(e.inline_reference) == yaml_as_str(v)
}

/// A dependency section, read: missing gives no entries; a mapping (as
/// written, untagged) gives its entries; anything else is not a mapping.
pub open spec fn section_matches(v: Option<YamlValue>, s: PnpmSection) -> bool {
    match v {
        None => s matches PnpmSection::Entries(es) && es@.len() == 0,
        Some(YamlValue::Mapping(es)) => s matches PnpmSection::Entries(out) && out@.len() == es@.len()
            && forall|i: int| 0 <= i < es@.len() ==> importer_entry_matches(es@[i].0, es@[i].1, #[trigger] out@[i]),
        Some(_) => s is NotMapping,
    }
}

fn section_from(v: Option<&YamlValue>) -> (r: PnpmSection)
    ensures
        section_matches(opt_yaml(v), r),
{
    match v {
        None => PnpmSection::Entries(Vec::new()),
        Some(YamlValue::Mapping(es)) => {
            let mut out: Vec<PnpmImporterEntry> = Vec::new();
            let mut i: usize = 0;
            while i < es.len()
                invariant
                    i <= es@.len(),
                    out@.len() == i,
                    forall|j: int| 0 <= j < i ==> importer_entry_matches(es@[j].0, es@[j].1, #[trigger] out@[j]),
                decreases es.len() - i,
            {
                out.push(
                    PnpmImporterEntry {
                        name: yaml_str(&es[i].0),
                        version: yaml_str_entry(&es[i].1, "version"),
                        specifier: yaml_str_entry(&es[i].1, "specifier"),
                        inline_reference: yaml_str(&es[i].1),
                    },
                );
                i = i + 1;
            }
            PnpmSection::Entries(out)
        },
        Some(_) => PnpmSection::NotMapping,
    }
}

/// An importer, read: its four sections.
pub open spec fn importer_matches(v: YamlValue, imp: PnpmImporter) -> bool {
    &&& section_matches(yaml_get(v, "dependencies"@), imp.dependencies)
    &&& section_matches(yaml_get(v, "devDependencies"@), imp.dev_dependencies)
    &&& section_matches(yaml_get(v, "optionalDependencies"@), imp.optional_dependencies)
    &&& section_matches(yaml_get(v, "peerDependencies"@), imp.peer_dependencies)
}

fn importer_from(v: &YamlValue) -> (r: PnpmImporter)
    ensures
        importer_matches(*v, r),
{
    PnpmImporter {
        dependencies: section_from(yaml_get_entry(v, "dependencies")),
        dev_dependencies: section_from(yaml_get_entry(v, "devDependencies")),
        optional_dependencies: section_from(yaml_get_entry(v, "optionalDependencies")),
        peer_dependencies: section_from(yaml_get_entry(v, "peerDependencies")),
    }
}

/// A `packages` or `snapshots` entry, read.
pub open spec fn package_matches(k: YamlValue, v: YamlValue, p: PnpmPackage) -> bool {
    &&& opt_view(p.key) == yaml_as_str(k)
    &&& match yaml_get(v, "resolution"@) {
        Some(r) => if yaml_as_mapping(r) is Some {
            p.resolution matches Some(res) && opt_view(res.integrity) == str_entry(r, "integrity"@)
                && opt_view(res.tarball) == str_entry(r, "tarball"@)
        } else {
            p.resolution is None
        },
        None => p.resolution is None,
    }
    &&& section_matches(yaml_get(v, "dependencies"@), p.dependencies)
    &&& section_matches(yaml_get(v, "optionalDependencies"@), p.optional_dependencies)
    &&& section_matches(yaml_get(v, "peerDependencies"@), p.peer_dependencies)
}

/// A `packages` or `snapshots` value, read where it is a mapping.
pub open spec fn packages_match(v: Option<YamlValue>, ps: Option<Vec<PnpmPackage>>) -> bool {
    match v {
        Some(x) => match yaml_as_mapping(x) {
            Some(es) => ps matches Some(out) && out@.len() == es.len() && forall|i: int|
                0 <= i < es.len() ==> package_matches(es[i].0, es[i].1, #[trigger] out@[i]),
            None => ps is None,
        },
        None => ps is None,
    }
}

fn packages_from(v: Option<&YamlValue>) -> (r: Option<Vec<PnpmPackage>>)
    ensures
        packages_match(opt_yaml(v), r),
{
    let Some(x) = v else {
        return None;
    };
    let Some(es) = as_mapping(x) else {
        return None;
    };
    let mut out: Vec<PnpmPackage> = Vec::new();
    let mut i: usize = 0;
    while i < es.len()
        invariant
            i <= es@.len(),
            out@.len() == i,
            forall|j: int| 0 <= j < i ==> package_matches(es@[j].0, es@[j].1, #[trigger] out@[j]),
        decreases es.len() - i,
    {
        let value = &es[i].1;
        let resolution = match yaml_get_entry(value, "resolution") {
            Some(r) => if as_mapping(r).is_some() {
                Some(
                    PnpmResolution {
                        integrity: yaml_str_entry(r, "integrity"),
                        tarball: yaml_str_entry(r, "tarball"),
                    },
                )
            } else {
                None
            },
            None => None,
        };
        out.push(
            PnpmPackage {
                key: yaml_str(&es[i].0),
                resolution,
                dependencies: section_from(yaml_get_entry(value, "dependencies")),
                optional_dependencies: section_from(yaml_get_entry(value, "optionalDependencies")),
                peer_dependencies: section_from(yaml_get_entry(value, "peerDependencies")),
            },
        );
        i = i + 1;
    }
    Some(out)
}

/// The entries whose key is a string, in order.
pub open spec fn string_keyed(es: Seq<(YamlValue, YamlValue)>) -> Seq<(Seq<char>, YamlValue)>
    decreases es.len(),
{
    if es.len() == 0 {
        Seq::empty()
    } else {
        let rest = string_keyed(es.drop_last());
        match yaml_as_str(es.last().0) {
            Some(k) => rest.push((k, es.last().1)),
            None => rest,
        }
    }
}

/// A parsed `pnpm-lock.yaml` read: its string-keyed importers, and its
/// `packages` and `snapshots` mappings.
pub open spec fn pnpm_lock_matches(doc: YamlValue, l: PnpmLockfile) -> bool {
    &&& match yaml_get(doc, "importers"@) {
        Some(x) => match yaml_as_mapping(x) {
            Some(es) => l.importers matches Some(imps) && imps@.len() == string_keyed(es).len() && forall|i: int|
                0 <= i < imps@.len() ==> (#[trigger] imps@[i]).0@ == string_keyed(es)[i].0 && importer_matches(
                    string_keyed(es)[i].1,
                    imps@[i].1,
                ),
            None => l.importers is None,
        },
        None => l.importers is None,
    }
    &&& packages_match(yaml_get(doc, "packages"@), l.packages)
    &&& packages_match(yaml_get(doc, "snapshots"@), l.snapshots)
}

fn importers_from(v: Option<&YamlValue>) -> (r: Option<Vec<(String, PnpmImporter)>>)
    ensures
        match opt_yaml(v) {
            Some(x) => match yaml_as_mapping(x) {
                Some(es) => r matches Some(imps) && imps@.len() == string_keyed(es).len() && forall|i: int|
                    0 <= i < imps@.len() ==> (#[trigger] imps@[i]).0@ == string_keyed(es)[i].0 && importer_matches(
                        string_keyed(es)[i].1,
                        imps@[i].1,
                    ),
                None => r is None,
            },
            None => r is None,
        },
{
    let Some(x) = v else {
        return None;
    };
    let Some(es) = as_mapping(x) else {
        return None;
    };
    let mut out: Vec<(String, PnpmImporter)> = Vec::new();
    let mut i: usize = 0;
    assert(es@.subrange(0, 0) == Seq::<(YamlValue, YamlValue)>::empty());
    while i < es.len()
        invariant
            i <= es@.len(),
            out@.len() == string_keyed(es@.subrange(0, i as int)).len(),
            forall|j: int|
                0 <= j < out@.len() ==> (#[trigger] out@[j]).0@ == string_keyed(es@.subrange(0, i as int))[j].0
                    && importer_matches(string_keyed(es@.subrange(0, i as int))[j].1, out@[j].1),
        decreases es.len() - i,
    {
        assert(es@.subrange(0, i + 1).drop_last() == es@.subrange(0, i as int));
        match yaml_str(&es[i].0) {
            Some(k) => {
                out.push((k, importer_from(&es[i].1)));
            },
            None => {},
        }
        i = i + 1;
    }
    assert(es@.subrange(0, es@.len() as int) == es@);
    Some(out)
}

/// Reads a parsed `pnpm-lock.yaml`.
pub fn pnpm_lockfile_from_document(doc: &YamlValue) -> (r: PnpmLockfile)
    ensures
        pnpm_lock_matches(*doc, r),
{
    PnpmLockfile {
        importers: importers_from(yaml_get_entry(doc, "importers")),
        packages: packages_from(yaml_get_entry(doc, "packages")),
        snapshots: packages_from(yaml_get_entry(doc, "snapshots")),
    }
}

/// A parsed `pnpm-workspace.yaml` read: its `packages` sequence, each
/// entry's string where it is one.
pub open spec fn pnpm_workspace_matches(doc: YamlValue, w: PnpmWorkspaceFile) -> bool {
    match yaml_get(doc, "packages"@) {
        Some(x) => match yaml_untag(x) {
            YamlValue::Sequence(items) => w.packages matches Some(out) && out@.len() == items@.len() && forall|i: int|
                0 <= i < items@.len() ==> opt_view(#[trigger] out@[i]) == yaml_as_str(items@[i]),
            _ => w.packages is None,
        },
        None => w.packages is None,
    }
}

/// Reads a parsed `pnpm-workspace.yaml`.
pub fn pnpm_workspace_from_document(doc: &YamlValue) -> (r: PnpmWorkspaceFile)
    ensures
        pnpm_workspace_matches(*doc, r),
{
    let Some(x) = yaml_get_entry(doc, "packages") else {
        return PnpmWorkspaceFile { packages: None };
    };
    match untag(x) {
        YamlValue::Sequence(items) => {
            let mut out: Vec<Option<String>> = Vec::new();
            let mut i: usize = 0;
            while i < items.len()
                invariant
                    i <= items@.len(),
                    out@.len() == i,
                    forall|j: int| 0 <= j < i ==> opt_view(#[trigger] out@[j]) == yaml_as_str(items@[j]),
                decreases items.len() - i,
            {
                out.push(yaml_str(&items[i]));
                i = i + 1;
            }
            PnpmWorkspaceFile { packages: Some(out) }
        },
        _ => PnpmWorkspaceFile { packages: None },
    }
}

/// A `pnpm-workspace.yaml` read from its text (`path` names it in
/// messages); one that does not parse is broken.
pub fn pnpm_workspace_from_text(path: &str, text: &str) -> (r: Result<PnpmWorkspaceFile, String>)
    ensures
        match yaml_document(text@) {
            Err(e) => r matches Err(m) && m@ == broken_manifest_msg(path@, "YAML"@, e),
            Ok(v) => r matches Ok(w) && pnpm_workspace_matches(v, w),
        },
{
    match parse_yaml(text) {
        Err(e) => {
            let mut m = string_of_str("Broken manifest '");
            push_str(&mut m, path);
            push_str(&mut m, "': failed to parse ");
            push_str(&mut m, "YAML");
            push_str(&mut m, ": ");
            push_str(&mut m, e.as_str());
            Err(m)
        },
        Ok(v) => Ok(pnpm_workspace_from_document(&v)),
    }
}

} // verus!
