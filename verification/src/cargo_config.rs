//! A Cargo config file (`.cargo/config.toml`, `.cargo/config`) read out of
//! its text into what the Cargo rewrite rules take.
use vstd::prelude::*;
use crate::cargo_policy::{CargoConfigDocument, CargoConfigPath, CargoConfigSource, CargoRewriteDecl};
use crate::documents::{parse_toml, toml_as_str, toml_document, toml_get, toml_get_entry, toml_str_entry};
use crate::lockfiles::poetry_hash::TomlValue;
use crate::paths::{join_path, normalize_filesystem_path, spec_join};
use crate::report::opt_view;
use crate::text::{push_str, string_of_str};

verus! {

/// One entry of a config's `paths` array: a string, with the crate
/// directory it names (joined onto the config's directory, `.` and `..`
/// resolved); or a value that is not a string.
#[derive(Debug)]
pub enum ConfigPathEntry {
    Directory { text: String, candidate: String },
    NotString,
}

/// What a Cargo config file holds for the rewrite rules: its `paths`
/// entries (`None` where `paths` is not an array), its `[source]` tables by
/// name (`None` for a value that is not a table; `None` overall where
/// `source` is not a table), and the document itself, whose `[patch]` and
/// `[replace]` tables hold dependency entries.
#[derive(Debug)]
pub struct CargoConfigOutline {
    pub paths: Option<Vec<ConfigPathEntry>>,
    pub sources: Option<Vec<(String, Option<CargoConfigSource>)>>,
    pub document: TomlValue,
}

/// The string entry `key` of table `t`.
pub open spec fn str_at(t: TomlValue, key: Seq<char>) -> Option<Seq<char>> {
    toml_as_str(toml_get(t, key))
}

/// A `paths` entry, read against the config's directory.
pub open spec fn path_entry_matches(item: TomlValue, config_dir: Seq<char>, e: ConfigPathEntry) -> bool {
    match item {
        TomlValue::String(s) => e matches ConfigPathEntry::Directory { text, candidate } && text@ == s@
            && candidate@ == crate::paths::spec_normalize(spec_join(config_dir, s@)),
        _ => e is NotString,
    }
}

/// A `[source.<name>]` value: a table gives its `replace-with`,
/// `registry`, `directory`, `local-registry` and `git` strings.
pub open spec fn source_entry_matches(v: TomlValue, s: Option<CargoConfigSource>) -> bool {
    match v {
        TomlValue::Table(_) => s matches Some(c) && opt_view(c.replace_with) == str_at(v, "replace-with"@)
            && opt_view(c.registry) == str_at(v, "registry"@) && opt_view(c.directory) == str_at(
            v,
            "directory"@,
        ) && opt_view(c.local_registry) == str_at(v, "local-registry"@) && opt_view(c.git) == str_at(
            v,
            "git"@,
        ),
        _ => s is None,
    }
}

/// A Cargo config document read (see `CargoConfigOutline`).
pub open spec fn config_outline_matches(v: TomlValue, config_dir: Seq<char>, o: CargoConfigOutline) -> bool {
    &&& match toml_get(v, "paths"@) {
        Some(TomlValue::Array(items)) => o.paths matches Some(ps) && ps@.len() == items@.len() && forall|i: int|
            0 <= i < items@.len() ==> path_entry_matches(items@[i], config_dir, #[trigger] ps@[i]),
        _ => o.paths is None,
    }
    &&& match toml_get(v, "source"@) {
        Some(TomlValue::Table(es)) => o.sources matches Some(ss) && ss@.len() == es@.len() && forall|i: int|
            0 <= i < es@.len() ==> (#[trigger] ss@[i]).0@ == es@[i].0@ && source_entry_matches(es@[i].1, ss@[i].1),
        _ => o.sources is None,
    }
    &&& o.document == v
}

fn source_entry_from(v: &TomlValue) -> (r: Option<CargoConfigSource>)
    ensures
        source_entry_matches(*v, r),
{
    match v {
        TomlValue::Table(_) => Some(
            CargoConfigSource {
                replace_with: toml_str_entry(v, "replace-with"),
                registry: toml_str_entry(v, "registry"),
                directory: toml_str_entry(v, "directory"),
                local_registry: toml_str_entry(v, "local-registry"),
                git: toml_str_entry(v, "git"),
            },
        ),
        _ => None,
    }
}

/// Reads a parsed Cargo config whose file lies in `config_dir`.
pub fn cargo_config_outline_from_document(doc: TomlValue, config_dir: &str) -> (r: CargoConfigOutline)
    ensures
        config_outline_matches(doc, config_dir@, r),
{
    let paths = match toml_get_entry(&doc, "paths") {
        Some(TomlValue::Array(items)) => {
            let mut out: Vec<ConfigPathEntry> = Vec::new();
            let mut i: usize = 0;
            while i < items.len()
                invariant
                    i <= items@.len(),
                    out@.len() == i,
                    forall|j: int| 0 <= j < i ==> path_entry_matches(items@[j], config_dir@, #[trigger] out@[j]),
                decreases items.len() - i,
            {
                let e = match &items[i] {
                    TomlValue::String(s) => {
                        let joined = join_path(config_dir, s.as_str());
                        ConfigPathEntry::Directory {
                            text: s.clone(),
                            candidate: normalize_filesystem_path(joined.as_str()),
                        }
                    },
                    _ => ConfigPathEntry::NotString,
                };
                out.push(e);
                i = i + 1;
            }
            Some(out)
        },
        _ => None,
    };
    let sources = match toml_get_entry(&doc, "source") {
        Some(TomlValue::Table(es)) => {
            let mut out: Vec<(String, Option<CargoConfigSource>)> = Vec::new();
            let mut i: usize = 0;
            while i < es.len()
                invariant
                    i <= es@.len(),
                    out@.len() == i,
                    forall|j: int|
                        0 <= j < i ==> (#[trigger] out@[j]).0@ == es@[j].0@ && source_entry_matches(es@[j].1, out@[j].1),
                decreases es.len() - i,
            {
                out.push((es[i].0.clone(), source_entry_from(&es[i].1)));
                i = i + 1;
            }
            Some(out)
        },
        _ => None,
    };
    CargoConfigOutline { paths, sources, document: doc }
}

pub open spec fn broken_config_msg(config_path: Seq<char>, detail: Seq<char>) -> Seq<char> {
    "Broken Cargo config '"@ + config_path + "': failed to parse TOML: "@ + detail
}

/// Reads a Cargo config file from its text: `config_path` names it in
/// messages, `config_dir` is the directory that holds it; text that does
/// not parse is a broken config.
pub fn cargo_config_outline_from_text(config_path: &str, config_dir: &str, text: &str) -> (r: Result<
    CargoConfigOutline,
    String,
>)
    ensures
        match toml_document(text@) {
            Err(e) => r matches Err(m) && m@ == broken_config_msg(config_path@, e),
            Ok(v) => r matches Ok(o) && config_outline_matches(v, config_dir@, o),
        },
{
    match parse_toml(text) {
        Err(e) => {
            let mut m = string_of_str("Broken Cargo config '");
            push_str(&mut m, config_path);
            push_str(&mut m, "': failed to parse TOML: ");
            push_str(&mut m, e.as_str());
            Err(m)
        },
        Ok(v) => Ok(cargo_config_outline_from_document(v, config_dir)),
    }
}

/// The `[package]` `name` of a crate manifest's text (`None` where it has
/// none); `manifest_path` names it in messages, and text that does not
/// parse is a broken manifest.
pub fn cargo_package_name_from_text(manifest_path: &str, text: &str) -> (r: Result<Option<String>, String>)
    ensures
        match toml_document(text@) {
            Err(e) => r matches Err(m) && m@ == "Broken manifest '"@ + manifest_path@ + "': failed to parse TOML: "@
                + e,
            Ok(v) => r matches Ok(n) && opt_view(n) == match toml_get(v, "package"@) {
                Some(TomlValue::Table(es)) => str_at(TomlValue::Table(es), "name"@),
                _ => None,
            },
        },
{
    match parse_toml(text) {
        Err(e) => {
            let mut m = string_of_str("Broken manifest '");
            push_str(&mut m, manifest_path);
            push_str(&mut m, "': failed to parse TOML: ");
            push_str(&mut m, e.as_str());
            Err(m)
        },
        Ok(v) => match toml_get_entry(&v, "package") {
            Some(p) => match p {
                TomlValue::Table(_) => Ok(toml_str_entry(p, "name")),
                _ => Ok(None),
            },
            None => Ok(None),
        },
    }
}

/// A `paths` entry with what its directory holds: a crate whose manifest
/// names a package overrides that package; a directory without such a
/// manifest is skipped; a value that is not a string stays one.
pub open spec fn config_path_matches(e: ConfigPathEntry, package: Option<Option<String>>, p: CargoConfigPath) -> bool {
    match e {
        ConfigPathEntry::NotString => p is NotString,
        ConfigPathEntry::Directory { candidate, .. } => match package {
            Some(Some(n)) => p matches CargoConfigPath::Crate { candidate: c, package_name: pn } && c@ == candidate@
                && pn@ == n@,
            _ => p is Skipped,
        },
    }
}

/// The document the Cargo rewrite rules take: the outline's `paths`
/// entries, each with `packages[i]`, the package named by the manifest in
/// its directory (`None` where there is none; a missing slot counts as
/// none), its `[source]` tables, and the `[patch]` and `[replace]` entries
/// read from its document.
pub fn cargo_config_document_from_outline(
    outline: CargoConfigOutline,
    packages: &Vec<Option<String>>,
    patches: Vec<CargoRewriteDecl>,
    replaces: Vec<CargoRewriteDecl>,
) -> (r: CargoConfigDocument)
    ensures
        match outline.paths {
            Some(es) => r.paths matches Some(ps) && ps@.len() == es@.len() && forall|i: int|
                0 <= i < es@.len() ==> config_path_matches(
                    es@[i],
                    if i < packages@.len() {
                        Some(packages@[i])
                    } else {
                        None
                    },
                    #[trigger] ps@[i],
                ),
            None => r.paths is None,
        },
        r.sources == outline.sources,
        r.patches@ == patches@,
        r.replaces@ == replaces@,
{
    let CargoConfigOutline { paths, sources, document: _ } = outline;
    let paths = match paths {
        Some(es) => {
            let mut out: Vec<CargoConfigPath> = Vec::new();
            let mut i: usize = 0;
            while i < es.len()
                invariant
                    i <= es@.len(),
                    out@.len() == i,
                    forall|j: int|
                        0 <= j < i ==> config_path_matches(
                            es@[j],
                            if j < packages@.len() {
                                Some(packages@[j])
                            } else {
                                None
                            },
                            #[trigger] out@[j],
                        ),
                decreases es.len() - i,
            {
                let p = match &es[i] {
                    ConfigPathEntry::NotString => CargoConfigPath::NotString,
                    ConfigPathEntry::Directory { candidate, .. } => {
                        if i < packages.len() {
                            match &packages[i] {
                                Some(n) => CargoConfigPath::Crate { candidate: candidate.clone(), package_name: n.clone() },
                                None => CargoConfigPath::Skipped,
                            }
                        } else {
                            CargoConfigPath::Skipped
                        }
                    },
                };
                out.push(p);
                i = i + 1;
            }
            Some(out)
        },
        None => None,
    };
    CargoConfigDocument { paths, sources, patches, replaces }
}

} // verus!
