//! `Cargo.lock` and `poetry.lock` read out of their parsed TOML documents.
use vstd::prelude::*;
use crate::documents::{parse_toml, toml_as_str, toml_document, toml_get, toml_get_entry, toml_str_entry};
use crate::text::{push_str, string_of_str};
use crate::report::opt_view;
use super::cargo::{CargoLockPackage, CargoLockfile};
use super::poetry_hash::TomlValue;
use super::python::{PoetryFileEntry, PoetryLock, PoetryMetadata, PoetryPackage, PoetrySource};

verus! {

/// The string entry `key` of table `t`.
pub open spec fn str_at(t: TomlValue, key: Seq<char>) -> Option<Seq<char>> {
    toml_as_str(toml_get(t, key))
}

/// A `[[package]]` slot of `Cargo.lock`: a table gives its `name`,
/// `version` and `source` strings; anything else gives nothing.
pub open spec fn cargo_package_matches(v: TomlValue, p: Option<CargoLockPackage>) -> bool {
    match v {
        TomlValue::Table(_) => p matches Some(c) && opt_view(c.name) == str_at(v, "name"@)
            && opt_view(c.version) == str_at(v, "version"@) && opt_view(c.source) == str_at(
            v,
            "source"@,
        ),
        _ => p is None,
    }
}

/// A `Cargo.lock` document read: its `package` array slot by slot, where it
/// is an array.
pub open spec fn cargo_lock_matches(doc: TomlValue, l: CargoLockfile) -> bool {
    match toml_get(doc, "package"@) {
        Some(TomlValue::Array(items)) => l.packages matches Some(ps) && ps@.len() == items@.len()
            && forall|i: int| 0 <= i < items@.len() ==> cargo_package_matches(items@[i], #[trigger] ps@[i]),
        _ => l.packages is None,
    }
}

fn cargo_package_from(v: &TomlValue) -> (r: Option<CargoLockPackage>)
    ensures
        cargo_package_matches(*v, r),
{
    match v {
        TomlValue::Table(_) => Some(
            CargoLockPackage {
                name: toml_str_entry(v, "name"),
                version: toml_str_entry(v, "version"),
                source: toml_str_entry(v, "source"),
            },
        ),
        _ => None,
    }
}

/// Reads a parsed `Cargo.lock`.
pub fn cargo_lockfile_from_document(doc: &TomlValue) -> (r: CargoLockfile)
    ensures
        cargo_lock_matches(*doc, r),
{
    match toml_get_entry(doc, "package") {
        Some(TomlValue::Array(items)) => {
            let mut out: Vec<Option<CargoLockPackage>> = Vec::new();
            let mut i: usize = 0;
            while i < items.len()
                invariant
                    i <= items@.len(),
                    out@.len() == i,
                    forall|j: int| 0 <= j < i ==> cargo_package_matches(items@[j], #[trigger] out@[j]),
                decreases items.len() - i,
            {
                out.push(cargo_package_from(&items[i]));
                i = i + 1;
            }
            CargoLockfile { packages: Some(out) }
        },
        _ => CargoLockfile { packages: None },
    }
}

// ---- poetry.lock ----
/// A `files` slot: a table gives its `file` and `hash` strings.
pub open spec fn file_entry_matches(v: TomlValue, e: Option<PoetryFileEntry>) -> bool {
    match v {
        TomlValue::Table(_) => e matches Some(f) && opt_view(f.file) == str_at(v, "file"@) && opt_view(f.hash)
            == str_at(v, "hash"@),
        _ => e is None,
    }
}

/// A `files` value: an array gives its slots; anything else, or nothing,
/// gives none.
pub open spec fn files_match(v: Option<TomlValue>, f: Option<Vec<Option<PoetryFileEntry>>>) -> bool {
    match v {
        Some(TomlValue::Array(items)) => f matches Some(fs) && fs@.len() == items@.len() && forall|i: int|
            0 <= i < items@.len() ==> file_entry_matches(items@[i], #[trigger] fs@[i]),
        _ => f is None,
    }
}

/// A package's `source` key: absent gives `None`; a table gives its `type`,
/// `url` and `reference` strings; anything else gives `Some(None)`.
pub open spec fn source_matches(v: Option<TomlValue>, s: Option<Option<PoetrySource>>) -> bool {
    match v {
        None => s is None,
        Some(TomlValue::Table(es)) => s matches Some(Some(src)) && opt_view(src.source_type) == str_at(
            TomlValue::Table(es),
            "type"@,
        ) && opt_view(src.url) == str_at(TomlValue::Table(es), "url"@) && opt_view(src.reference)
            == str_at(TomlValue::Table(es), "reference"@),
        Some(_) => s == Some(None::<PoetrySource>),
    }
}

/// A `[[package]]` slot of `poetry.lock`.
pub open spec fn poetry_package_matches(v: TomlValue, p: Option<PoetryPackage>) -> bool {
    match v {
        TomlValue::Table(_) => p matches Some(q) && opt_view(q.name) == str_at(v, "name"@)
            && opt_view(q.version) == str_at(v, "version"@) && source_matches(toml_get(v, "source"@), q.source)
            && files_match(toml_get(v, "files"@), q.files),
        _ => p is None,
    }
}

/// The `[metadata]` table: its `lock-version` and `content-hash` strings
/// and, where `files` is a table, each of its entries' file lists.
pub open spec fn metadata_matches(v: Option<TomlValue>, m: Option<PoetryMetadata>) -> bool {
    match v {
        Some(TomlValue::Table(es)) => m matches Some(md) && opt_view(md.lock_version) == str_at(
            TomlValue::Table(es),
            "lock-version"@,
        ) && opt_view(md.content_hash) == str_at(TomlValue::Table(es), "content-hash"@) && match toml_get(
            TomlValue::Table(es),
            "files"@,
        ) {
            Some(TomlValue::Table(fes)) => md.files matches Some(fs) && fs@.len() == fes@.len() && forall|i: int|
                0 <= i < fes@.len() ==> (#[trigger] fs@[i]).0@ == fes@[i].0@ && files_match(
                    Some(fes@[i].1),
                    fs@[i].1,
                ),
            _ => md.files is None,
        },
        _ => m is None,
    }
}

/// A `poetry.lock` document read.
pub open spec fn poetry_lock_matches(doc: TomlValue, l: PoetryLock) -> bool {
    &&& match toml_get(doc, "package"@) {
        Some(TomlValue::Array(items)) => l.packages matches Some(ps) && ps@.len() == items@.len()
            && forall|i: int| 0 <= i < items@.len() ==> poetry_package_matches(items@[i], #[trigger] ps@[i]),
        _ => l.packages is None,
    }
    &&& metadata_matches(toml_get(doc, "metadata"@), l.metadata)
}

fn file_entries_from(v: Option<&TomlValue>) -> (r: Option<Vec<Option<PoetryFileEntry>>>)
    ensures
        files_match(crate::documents::opt_toml(v), r),
{
    match v {
        Some(TomlValue::Array(items)) => {
            let mut out: Vec<Option<PoetryFileEntry>> = Vec::new();
            let mut i: usize = 0;
            while i < items.len()
                invariant
                    i <= items@.len(),
                    out@.len() == i,
                    forall|j: int| 0 <= j < i ==> file_entry_matches(items@[j], #[trigger] out@[j]),
                decreases items.len() - i,
            {
                let e = match &items[i] {
                    TomlValue::Table(_) => Some(
                        PoetryFileEntry {
                            file: toml_str_entry(&items[i], "file"),
                            hash: toml_str_entry(&items[i], "hash"),
                        },
                    ),
                    _ => None,
                };
                out.push(e);
                i = i + 1;
            }
            Some(out)
        },
        _ => None,
    }
}

fn source_from(v: Option<&TomlValue>) -> (r: Option<Option<PoetrySource>>)
    ensures
        source_matches(crate::documents::opt_toml(v), r),
{
    match v {
        None => None,
        Some(s) => match s {
            TomlValue::Table(_) => Some(
                Some(
                    PoetrySource {
                        source_type: toml_str_entry(s, "type"),
                        url: toml_str_entry(s, "url"),
                        reference: toml_str_entry(s, "reference"),
                    },
                ),
            ),
            _ => Some(None),
        },
    }
}

fn poetry_package_from(v: &TomlValue) -> (r: Option<PoetryPackage>)
    ensures
        poetry_package_matches(*v, r),
{
    match v {
        TomlValue::Table(_) => Some(
            PoetryPackage {
                name: toml_str_entry(v, "name"),
                version: toml_str_entry(v, "version"),
                source: source_from(toml_get_entry(v, "source")),
                files: file_entries_from(toml_get_entry(v, "files")),
            },
        ),
        _ => None,
    }
}

fn metadata_from(v: Option<&TomlValue>) -> (r: Option<PoetryMetadata>)
    ensures
        metadata_matches(crate::documents::opt_toml(v), r),
{
    match v {
        Some(TomlValue::Table(_)) => {
            let t = v.unwrap();
            let files = match toml_get_entry(t, "files") {
                Some(TomlValue::Table(fes)) => {
                    let mut out: Vec<(String, Option<Vec<Option<PoetryFileEntry>>>)> = Vec::new();
                    let mut i: usize = 0;
                    while i < fes.len()
                        invariant
                            i <= fes@.len(),
                            out@.len() == i,
                            forall|j: int|
                                0 <= j < i ==> (#[trigger] out@[j]).0@ == fes@[j].0@ && files_match(
                                    Some(fes@[j].1),
                                    out@[j].1,
                                ),
                        decreases fes.len() - i,
                    {
                        out.push((fes[i].0.clone(), file_entries_from(Some(&fes[i].1))));
                        i = i + 1;
                    }
                    Some(out)
                },
                _ => None,
            };
            Some(
                PoetryMetadata {
                    lock_version: toml_str_entry(t, "lock-version"),
                    content_hash: toml_str_entry(t, "content-hash"),
                    files,
                },
            )
        },
        _ => None,
    }
}

/// Reads a parsed `poetry.lock`.
pub fn poetry_lock_from_document(doc: &TomlValue) -> (r: PoetryLock)
    ensures
        poetry_lock_matches(*doc, r),
{
    let packages = match toml_get_entry(doc, "package") {
        Some(TomlValue::Array(items)) => {
            let mut out: Vec<Option<PoetryPackage>> = Vec::new();
            let mut i: usize = 0;
            while i < items.len()
                invariant
                    i <= items@.len(),
                    out@.len() == i,
                    forall|j: int| 0 <= j < i ==> poetry_package_matches(items@[j], #[trigger] out@[j]),
                decreases items.len() - i,
            {
                out.push(poetry_package_from(&items[i]));
                i = i + 1;
            }
            Some(out)
        },
        _ => None,
    };
    PoetryLock { packages, metadata: metadata_from(toml_get_entry(doc, "metadata")) }
}

// ---- from text ----
/// A `pyproject.toml` read from its text (`path` names it in messages).
pub fn pyproject_from_text(path: &str, text: &str) -> (r: Result<TomlValue, String>)
    ensures
        match toml_document(text@) {
            Err(e) => r matches Err(m) && m@ == "Failed to parse "@ + path@ + ": "@ + e,
            Ok(v) => r == Ok::<TomlValue, String>(v),
        },
{
    match parse_toml(text) {
        Err(e) => {
            let mut m = string_of_str("Failed to parse ");
            push_str(&mut m, path);
            push_str(&mut m, ": ");
            push_str(&mut m, e.as_str());
            Err(m)
        },
        Ok(v) => Ok(v),
    }
}

/// A trusted `poetry.lock` read from its text (`path` names it in
/// messages); one that does not parse is broken.
pub fn poetry_lock_from_text(path: &str, text: &str) -> (r: Result<PoetryLock, String>)
    ensures
        match toml_document(text@) {
            Err(e) => r matches Err(m) && m@ == "Broken lockfile '"@ + path@ + "': failed to parse TOML: "@ + e,
            Ok(v) => r matches Ok(l) && poetry_lock_matches(v, l),
        },
{
    match parse_toml(text) {
        Err(e) => {
            let mut m = string_of_str("Broken lockfile '");
            push_str(&mut m, path);
            push_str(&mut m, "': failed to parse TOML: ");
            push_str(&mut m, e.as_str());
            Err(m)
        },
        Ok(v) => Ok(poetry_lock_from_document(&v)),
    }
}

} // verus!
