//! What the library makes of the lockfiles that were read for a project:
//! which files to read and in which syntax, the parsed lockfile a
//! resolution runs against, and whether the lockfile a project is scanned
//! against holds up.
use vstd::prelude::*;
use crate::assoc::StringTable;
use crate::config::SloppyJoeConfig;
use crate::documents::{
    JsonValue, YamlValue, doc_result, json5_document, json_document, parse_json, parse_json5, parse_toml, parse_yaml,
    toml_document, yaml_document,
};
use crate::ecosystem::Ecosystem;
use crate::js_consistency::{
    spec_bun_consistency, spec_pnpm_consistency, validate_bun_lockfile_consistency,
    validate_pnpm_lockfile_consistency,
};
use crate::npm_consistency::{lock_sections_wf, spec_consistency, validate_npm_lockfile_consistency};
use crate::npm_provenance::{
    first_error, legacy_lockfile_msg, spec_provenance, unit_result_view, validate_npm_lockfile_provenance,
    validate_npm_lockfile_version,
};
use crate::project::{JsPackageManager, ProjectInputKind, ProjectInputSpec};
use crate::text::{push_str, str_ends_with, string_of_str};
use crate::Dependency;
use super::bun::BunLockfile;
use super::cargo::{self, CargoLockfile};
use super::data::{ParsedLockfile, deps_result_view};
use super::json_docs::{bun_lock_matches, bun_lockfile_from_document, npm_lock_matches, npm_lockfile_from_document};
use super::npm::{self, NpmLockfile, NpmSections};
use super::pnpm::{self, PnpmLockfile};
use super::poetry_hash::TomlValue;
use super::toml_docs::{cargo_lock_matches, cargo_lockfile_from_document, poetry_lock_matches, poetry_lock_from_document};
use super::yaml_docs::{pnpm_lock_matches, pnpm_lockfile_from_document};

verus! {

/// A lockfile's parsed document, or its text where it is read as text.
#[derive(Debug)]
pub enum LockfileDocument {
    Json(JsonValue),
    Yaml(YamlValue),
    Toml(TomlValue),
    Text(String),
}

/// The syntax a lockfile is parsed with.
#[derive(Debug, Clone, Copy, PartialEq, Eq, Structural)]
pub enum DocumentSyntax {
    Json,
    Json5,
    Yaml,
    Toml,
    Text,
}

/// A text read in a syntax: the document the parser makes of it, or its
/// message; as text, the text itself.
pub open spec fn document_matches(syntax: DocumentSyntax, text: Seq<char>, d: Result<LockfileDocument, Seq<char>>) -> bool {
    match syntax {
        DocumentSyntax::Json => match json_document(text) {
            Ok(v) => d == Ok::<LockfileDocument, Seq<char>>(LockfileDocument::Json(v)),
            Err(e) => d == Err::<LockfileDocument, Seq<char>>(e),
        },
        DocumentSyntax::Json5 => match json5_document(text) {
            Ok(v) => d == Ok::<LockfileDocument, Seq<char>>(LockfileDocument::Json(v)),
            Err(e) => d == Err::<LockfileDocument, Seq<char>>(e),
        },
        DocumentSyntax::Yaml => match yaml_document(text) {
            Ok(v) => d == Ok::<LockfileDocument, Seq<char>>(LockfileDocument::Yaml(v)),
            Err(e) => d == Err::<LockfileDocument, Seq<char>>(e),
        },
        DocumentSyntax::Toml => match toml_document(text) {
            Ok(v) => d == Ok::<LockfileDocument, Seq<char>>(LockfileDocument::Toml(v)),
            Err(e) => d == Err::<LockfileDocument, Seq<char>>(e),
        },
        DocumentSyntax::Text => d matches Ok(LockfileDocument::Text(t)) && t@ == text,
    }
}

/// Parses a lockfile's text in the given syntax.
pub fn read_document(syntax: DocumentSyntax, text: &str) -> (r: Result<LockfileDocument, String>)
    ensures
        document_matches(syntax, text@, doc_result(r)),
{
    match syntax {
        DocumentSyntax::Json => match parse_json(text) {
            Ok(v) => Ok(LockfileDocument::Json(v)),
            Err(e) => Err(e),
        },
        DocumentSyntax::Json5 => match parse_json5(text) {
            Ok(v) => Ok(LockfileDocument::Json(v)),
            Err(e) => Err(e),
        },
        DocumentSyntax::Yaml => match parse_yaml(text) {
            Ok(v) => Ok(LockfileDocument::Yaml(v)),
            Err(e) => Err(e),
        },
        DocumentSyntax::Toml => match parse_toml(text) {
            Ok(v) => Ok(LockfileDocument::Toml(v)),
            Err(e) => Err(e),
        },
        DocumentSyntax::Text => Ok(LockfileDocument::Text(string_of_str(text))),
    }
}

// ---- the lockfile of a set of direct dependencies ----
/// The lockfiles that the direct dependencies of an ecosystem resolve
/// against, in the order they are looked for (the first present one is
/// read): `npm-shrinkwrap.json` before `package-lock.json` for npm,
/// `Cargo.lock`, `Gemfile.lock` and `poetry.lock`; none for the others.
pub open spec fn spec_resolution_lockfiles(eco: Option<Ecosystem>) -> Seq<Seq<char>> {
    match eco {
        Some(Ecosystem::Npm) => seq!["npm-shrinkwrap.json"@, "package-lock.json"@],
        Some(Ecosystem::Cargo) => seq!["Cargo.lock"@],
        Some(Ecosystem::Ruby) => seq!["Gemfile.lock"@],
        Some(Ecosystem::PyPI) => seq!["poetry.lock"@],
        _ => Seq::empty(),
    }
}

/// The syntax those lockfiles are read in.
pub open spec fn spec_resolution_syntax(eco: Option<Ecosystem>) -> DocumentSyntax {
    match eco {
        Some(Ecosystem::Npm) => DocumentSyntax::Json,
        Some(Ecosystem::Cargo) | Some(Ecosystem::PyPI) => DocumentSyntax::Toml,
        _ => DocumentSyntax::Text,
    }
}

/// The lockfile names to look for, in order, and their syntax.
pub fn resolution_lockfiles(eco: Option<Ecosystem>) -> (r: (Vec<String>, DocumentSyntax))
    ensures
        super::strings_view(r.0@) == spec_resolution_lockfiles(eco),
        r.1 == spec_resolution_syntax(eco),
{
    let mut names: Vec<String> = Vec::new();
    let syntax = match eco {
        Some(Ecosystem::Npm) => {
            names.push(string_of_str("npm-shrinkwrap.json"));
            names.push(string_of_str("package-lock.json"));
            DocumentSyntax::Json
        },
        Some(Ecosystem::Cargo) => {
            names.push(string_of_str("Cargo.lock"));
            DocumentSyntax::Toml
        },
        Some(Ecosystem::Ruby) => {
            names.push(string_of_str("Gemfile.lock"));
            DocumentSyntax::Text
        },
        Some(Ecosystem::PyPI) => {
            names.push(string_of_str("poetry.lock"));
            DocumentSyntax::Toml
        },
        _ => DocumentSyntax::Text,
    };
    assert(super::strings_view(names@) =~= spec_resolution_lockfiles(eco));
    (names, syntax)
}

/// The lockfile that a resolution runs against, from what was read:
/// nothing read is no lockfile; an npm lockfile or `Cargo.lock` that does
/// not parse is kept as such (under `file_name`, with the parser's
/// message); a `poetry.lock` that does not parse is an error naming
/// `shown_path`; an unreadable `Gemfile.lock`, or a document of another
/// syntax than the ecosystem's, is no lockfile; otherwise the document is
/// read as the ecosystem's lockfile.
pub open spec fn parsed_lockfile_matches(
    eco: Option<Ecosystem>,
    file_name: Seq<char>,
    shown_path: Seq<char>,
    read: Option<Result<LockfileDocument, String>>,
    r: Result<ParsedLockfile, String>,
) -> bool {
    match read {
        None => r matches Ok(ParsedLockfile::NoLockfile),
        Some(Err(e)) => match eco {
            Some(Ecosystem::Npm) | Some(Ecosystem::Cargo) => r matches Ok(
                ParsedLockfile::Unparsable { file_name: f, detail },
            ) && f@ == file_name && detail@ == e@,
            Some(Ecosystem::PyPI) => r matches Err(m) && m@ == "Failed to parse "@ + shown_path + ": "@ + e@,
            _ => r matches Ok(ParsedLockfile::NoLockfile),
        },
        Some(Ok(doc)) => match (eco, doc) {
            (Some(Ecosystem::Npm), LockfileDocument::Json(v)) => r matches Ok(
                ParsedLockfile::Npm { value, file_name: f },
            ) && f@ == file_name && npm_lock_matches(v, value),
            (Some(Ecosystem::Cargo), LockfileDocument::Toml(v)) => r matches Ok(ParsedLockfile::Cargo(l))
                && cargo_lock_matches(v, l),
            (Some(Ecosystem::Ruby), LockfileDocument::Text(s)) => r matches Ok(ParsedLockfile::Ruby(c)) && c@
                == s@,
            (Some(Ecosystem::PyPI), LockfileDocument::Toml(v)) => r matches Ok(ParsedLockfile::Python(l))
                && poetry_lock_matches(v, l),
            _ => r matches Ok(ParsedLockfile::NoLockfile),
        },
    }
}

/// The parsed lockfile of an ecosystem, from the document read (or not)
/// for it (see `parsed_lockfile_matches`).
pub fn parsed_lockfile_from_document(
    eco: Option<Ecosystem>,
    file_name: &str,
    shown_path: &str,
    read: Option<Result<LockfileDocument, String>>,
) -> (r: Result<ParsedLockfile, String>)
    ensures
        parsed_lockfile_matches(eco, file_name@, shown_path@, read, r),
{
    match read {
        None => Ok(ParsedLockfile::NoLockfile),
        Some(Err(e)) => match eco {
            Some(Ecosystem::Npm) | Some(Ecosystem::Cargo) => Ok(
                ParsedLockfile::Unparsable { file_name: string_of_str(file_name), detail: e },
            ),
            Some(Ecosystem::PyPI) => {
                let mut m = string_of_str("Failed to parse ");
                push_str(&mut m, shown_path);
                push_str(&mut m, ": ");
                push_str(&mut m, e.as_str());
                Err(m)
            },
            _ => Ok(ParsedLockfile::NoLockfile),
        },
        Some(Ok(doc)) => match (eco, doc) {
            (Some(Ecosystem::Npm), LockfileDocument::Json(v)) => Ok(
                ParsedLockfile::Npm { value: npm_lockfile_from_document(&v), file_name: string_of_str(file_name) },
            ),
            (Some(Ecosystem::Cargo), LockfileDocument::Toml(v)) => Ok(
                ParsedLockfile::Cargo(cargo_lockfile_from_document(&v)),
            ),
            (Some(Ecosystem::Ruby), LockfileDocument::Text(s)) => Ok(ParsedLockfile::Ruby(s)),
            (Some(Ecosystem::PyPI), LockfileDocument::Toml(v)) => Ok(
                ParsedLockfile::Python(poetry_lock_from_document(&v)),
            ),
            _ => Ok(ParsedLockfile::NoLockfile),
        },
    }
}

/// Every dependency of an npm lockfile, from its parsed document; a
/// document that did not parse is an error.
pub fn parse_all_npm_document(read: Result<JsonValue, String>) -> (r: Result<Vec<Dependency>, String>)
    ensures
        match read {
            Err(e) => r matches Err(m) && m@ == "Failed to parse npm lockfile: "@ + e@,
            Ok(v) => exists|l: NpmLockfile|
                npm_lock_matches(v, l) && deps_result_view(r) == npm::spec_parse_dependencies(l@, None),
        },
{
    match read {
        Err(e) => {
            let mut m = string_of_str("Failed to parse npm lockfile: ");
            push_str(&mut m, e.as_str());
            Err(m)
        },
        Ok(v) => {
            let l = npm_lockfile_from_document(&v);
            let r = npm::parse_all_from_value(&l);
            assert(npm_lock_matches(v, l));
            r
        },
    }
}

/// Every registry dependency of a `Cargo.lock`, from its parsed document;
/// a document that did not parse is an error.
pub fn parse_all_cargo_document(read: Result<TomlValue, String>) -> (r: Result<Vec<Dependency>, String>)
    ensures
        match read {
            Err(e) => r matches Err(m) && m@ == "Failed to parse Cargo.lock: "@ + e@,
            Ok(v) => exists|l: CargoLockfile|
                cargo_lock_matches(v, l) && match cargo::lockfile_view(l) {
                    None => r is Err,
                    Some(ps) => deps_result_view(r) == Ok::<Seq<crate::DependencyView>, Seq<char>>(cargo::deps_of(ps)),
                },
        },
{
    match read {
        Err(e) => {
            let mut m = string_of_str("Failed to parse Cargo.lock: ");
            push_str(&mut m, e.as_str());
            Err(m)
        },
        Ok(v) => {
            let l = cargo_lockfile_from_document(&v);
            let r = cargo::parse_all_from_value(&l);
            assert(cargo_lock_matches(v, l));
            r
        },
    }
}

// ---- the lockfile a project is scanned against ----
/// The syntax in which the lockfile at `path` that a project is scanned
/// against is read, where it is read: by package manager for JavaScript
/// (as text for Yarn, none for a Bun binary lockfile), TOML for Cargo and
/// Poetry, JSON for Composer and .NET.
pub open spec fn spec_lockfile_syntax(spec: ProjectInputSpec, path: Seq<char>) -> Option<DocumentSyntax> {
    match spec.kind {
        ProjectInputKind::Npm => match manager_of(spec) {
            JsPackageManager::Npm => Some(DocumentSyntax::Json),
            JsPackageManager::Pnpm => Some(DocumentSyntax::Yaml),
            JsPackageManager::Bun => if crate::text::ends_with(path, "bun.lockb"@) {
                None
            } else {
                Some(DocumentSyntax::Json5)
            },
            JsPackageManager::Yarn => Some(DocumentSyntax::Text),
        },
        ProjectInputKind::Cargo | ProjectInputKind::PyProjectPoetry => Some(DocumentSyntax::Toml),
        ProjectInputKind::Php | ProjectInputKind::Dotnet => Some(DocumentSyntax::Json),
        _ => None,
    }
}

/// A JavaScript project's package manager (npm where none is bound).
pub open spec fn manager_of(spec: ProjectInputSpec) -> JsPackageManager {
    match spec.js_binding {
        Some(b) => b.manager,
        None => JsPackageManager::Npm,
    }
}

fn manager(spec: &ProjectInputSpec) -> (m: JsPackageManager)
    ensures
        m == manager_of(*spec),
{
    match &spec.js_binding {
        Some(b) => match b.manager {
            JsPackageManager::Npm => JsPackageManager::Npm,
            JsPackageManager::Pnpm => JsPackageManager::Pnpm,
            JsPackageManager::Yarn => JsPackageManager::Yarn,
            JsPackageManager::Bun => JsPackageManager::Bun,
        },
        None => JsPackageManager::Npm,
    }
}

/// The syntax in which the lockfile at `path` is read, if it is read.
pub fn lockfile_syntax(spec: &ProjectInputSpec, path: &str) -> (r: Option<DocumentSyntax>)
    ensures
        r == spec_lockfile_syntax(*spec, path@),
{
    match spec.kind {
        ProjectInputKind::Npm => match manager(spec) {
            JsPackageManager::Npm => Some(DocumentSyntax::Json),
            JsPackageManager::Pnpm => Some(DocumentSyntax::Yaml),
            JsPackageManager::Bun => if str_ends_with(path, "bun.lockb") {
                None
            } else {
                Some(DocumentSyntax::Json5)
            },
            JsPackageManager::Yarn => Some(DocumentSyntax::Text),
        },
        ProjectInputKind::Cargo | ProjectInputKind::PyProjectPoetry => Some(DocumentSyntax::Toml),
        ProjectInputKind::Php | ProjectInputKind::Dotnet => Some(DocumentSyntax::Json),
        _ => None,
    }
}

pub open spec fn then_check(a: Result<(), Seq<char>>, b: Result<(), Seq<char>>) -> Result<(), Seq<char>> {
    match a {
        Err(e) => Err(e),
        Ok(()) => b,
    }
}

pub open spec fn yarn_unnamed_msg(manifest: Seq<char>) -> Seq<char> {
    "Broken manifest '"@ + manifest + "': Yarn projects must declare a package name."@
}

pub open spec fn broken_msg(path: Seq<char>, what: Seq<char>, detail: Seq<char>) -> Seq<char> {
    "Broken lockfile '"@ + path + "': "@ + what + detail
}

pub open spec fn legacy_bun_msg(path: Seq<char>) -> Seq<char> {
    "Legacy Bun binary lockfile '"@ + path
        + "' is not supported yet. Regenerate and commit the text bun.lock."@
}

/// The checks of an npm lockfile: version, agreement with the manifest,
/// provenance.
pub open spec fn npm_checks(
    m: NpmSections,
    l: NpmLockfile,
    spec: ProjectInputSpec,
    path: Seq<char>,
    config: SloppyJoeConfig,
) -> Result<(), Seq<char>> {
    then_check(
        if l.lockfile_version == 1 && !config.allow_legacy_npm_v1_lockfile {
            Err(legacy_lockfile_msg(path))
        } else {
            Ok(())
        },
        then_check(
            spec_consistency(
                m,
                l,
                match spec.js_binding {
                    Some(b) => b.package_entry_key@,
                    None => Seq::empty(),
                },
                path,
            ),
            spec_provenance(l@, path, Map::empty()),
        ),
    )
}

/// The checks of a `pnpm-lock.yaml`: agreement with the manifest, then
/// provenance.
pub open spec fn pnpm_checks(m: NpmSections, l: PnpmLockfile, spec: ProjectInputSpec, path: Seq<char>) -> Result<
    (),
    Seq<char>,
> {
    then_check(
        spec_pnpm_consistency(spec, m@, l, path),
        match l.packages {
            Some(ps) => first_error(pnpm::package_checks(ps@, path)),
            None => Ok(()),
        },
    )
}

/// Whether the lockfile a project is scanned against holds up, from the
/// document read at `path` in `spec_lockfile_syntax` (`None` where nothing
/// is read): one that did not parse is broken; a JavaScript lockfile must
/// also agree with the manifest (and an npm one pass the version and
/// provenance checks); a Bun binary lockfile is refused.
pub open spec fn lockfile_document_verdict(
    spec: ProjectInputSpec,
    path: Seq<char>,
    read: Option<Result<LockfileDocument, String>>,
    manifest: Option<NpmSections>,
    manifest_name: Option<Seq<char>>,
    config: SloppyJoeConfig,
    r: Result<(), Seq<char>>,
) -> bool {
    match spec.kind {
        ProjectInputKind::Npm => match manager_of(spec) {
            JsPackageManager::Npm => match read {
                Some(Err(e)) => r == Err::<(), Seq<char>>(broken_msg(path, "failed to parse JSON: "@, e@)),
                Some(Ok(LockfileDocument::Json(v))) => exists|l: NpmLockfile|
                    npm_lock_matches(v, l) && r == npm_checks(manifest->0, l, spec, path, config),
                _ => r == Ok::<(), Seq<char>>(()),
            },
            JsPackageManager::Pnpm => match read {
                Some(Err(e)) => r == Err::<(), Seq<char>>(broken_msg(path, ""@, e@)),
                Some(Ok(LockfileDocument::Yaml(v))) => exists|l: PnpmLockfile|
                    pnpm_lock_matches(v, l) && r == pnpm_checks(manifest->0, l, spec, path),
                _ => r == Ok::<(), Seq<char>>(()),
            },
            JsPackageManager::Bun => if crate::text::ends_with(path, "bun.lockb"@) {
                r == Err::<(), Seq<char>>(legacy_bun_msg(path))
            } else {
                match read {
                    Some(Err(e)) => r == Err::<(), Seq<char>>(broken_msg(path, ""@, e@)),
                    Some(Ok(LockfileDocument::Json(v))) => exists|l: BunLockfile|
                        bun_lock_matches(v, l) && r == spec_bun_consistency(spec, (manifest->0)@, l, path),
                    _ => r == Ok::<(), Seq<char>>(()),
                }
            },
            JsPackageManager::Yarn => r == match manifest_name {
                None => Err::<(), Seq<char>>(yarn_unnamed_msg(spec.manifest_path@)),
                Some(_) => Ok::<(), Seq<char>>(()),
            },
        },
        ProjectInputKind::Cargo | ProjectInputKind::PyProjectPoetry => match read {
            Some(Err(e)) => r == Err::<(), Seq<char>>(broken_msg(path, "failed to parse TOML: "@, e@)),
            _ => r == Ok::<(), Seq<char>>(()),
        },
        ProjectInputKind::Php | ProjectInputKind::Dotnet => match read {
            Some(Err(e)) => r == Err::<(), Seq<char>>(broken_msg(path, "failed to parse JSON: "@, e@)),
            _ => r == Ok::<(), Seq<char>>(()),
        },
        _ => r == Ok::<(), Seq<char>>(()),
    }
}

fn broken(path: &str, what: &str, detail: &str) -> (m: String)
    ensures
        m@ == broken_msg(path@, what@, detail@),
{
    let mut m = string_of_str("Broken lockfile '");
    push_str(&mut m, path);
    push_str(&mut m, "': ");
    push_str(&mut m, what);
    push_str(&mut m, detail);
    m
}

/// Checks the lockfile a project is scanned against, from the document
/// read at `path` (see `lockfile_document_verdict`). A JavaScript project
/// needs its manifest's sections; a Yarn project, its manifest's `name`
/// (`manifest_name`, where the manifest has a string one).
pub fn validate_lockfile_document(
    spec: &ProjectInputSpec,
    path: &str,
    read: Option<Result<LockfileDocument, String>>,
    npm_manifest: Option<&NpmSections>,
    manifest_name: Option<&str>,
    config: &SloppyJoeConfig,
) -> (r: Result<(), String>)
    requires
        spec.kind == ProjectInputKind::Npm ==> (npm_manifest matches Some(m) && m.wf()),
    ensures
        lockfile_document_verdict(
            *spec,
            path@,
            read,
            match npm_manifest {
                Some(m) => Some(*m),
                None => None,
            },
            match manifest_name {
                Some(n) => Some(n@),
                None => None,
            },
            *config,
            unit_result_view(r),
        ),
{
    match spec.kind {
        ProjectInputKind::Npm => {
            let manifest = npm_manifest.unwrap();
            match manager(spec) {
                JsPackageManager::Npm => match read {
                    Some(Err(e)) => Err(broken(path, "failed to parse JSON: ", e.as_str())),
                    Some(Ok(LockfileDocument::Json(v))) => {
                        let l = npm_lockfile_from_document(&v);
                        assert(lock_sections_wf(l)) by {
                            if let Some(ps) = l.packages {
                                assert forall|i: int| 0 <= i < ps@.len() implies (#[trigger] ps@[i]).1 matches Some(
                                    e,
                                ) && e.sections.wf() || ps@[i].1 is None by {
                                    if let Some(JsonValue::Object(es)) = crate::documents::json_get(v, "packages"@) {
                                        assert(super::json_docs::npm_entry_matches(es@[i].1, ps@[i].1));
                                    }
                                }
                            }
                        }
                        let r1 = validate_npm_lockfile_version(&l, path, config);
                        if r1.is_err() {
                            return r1;
                        }
                        let r2 = validate_npm_lockfile_consistency(
                            manifest,
                            &l,
                            path,
                            spec.npm_lockfile_package_key(),
                        );
                        if r2.is_err() {
                            return r2;
                        }
                        let empty = StringTable::new();
                        let r3 = validate_npm_lockfile_provenance(&l, path, &empty);
                        assert(empty@ == Map::<Seq<char>, Seq<char>>::empty());
                        r3
                    },
                    _ => Ok(()),
                },
                JsPackageManager::Pnpm => match read {
                    Some(Err(e)) => Err(broken(path, "", e.as_str())),
                    Some(Ok(LockfileDocument::Yaml(v))) => {
                        let l = pnpm_lockfile_from_document(&v);
                        let r1 = validate_pnpm_lockfile_consistency(spec, manifest, &l, path);
                        if r1.is_err() {
                            return r1;
                        }
                        pnpm::validate_provenance(&l, path)
                    },
                    _ => Ok(()),
                },
                JsPackageManager::Bun => {
                    if str_ends_with(path, "bun.lockb") {
                        let mut m = string_of_str("Legacy Bun binary lockfile '");
                        push_str(&mut m, path);
                        push_str(&mut m, "' is not supported yet. Regenerate and commit the text bun.lock.");
                        return Err(m);
                    }
                    match read {
                        Some(Err(e)) => Err(broken(path, "", e.as_str())),
                        Some(Ok(LockfileDocument::Json(v))) => {
                            let l = bun_lockfile_from_document(&v);
                            validate_bun_lockfile_consistency(spec, manifest, &l, path)
                        },
                        _ => Ok(()),
                    }
                },
                JsPackageManager::Yarn => match manifest_name {
                    None => {
                        let mut m = string_of_str("Broken manifest '");
                        push_str(&mut m, spec.manifest_path.as_str());
                        push_str(&mut m, "': Yarn projects must declare a package name.");
                        Err(m)
                    },
                    Some(_) => Ok(()),
                },
            }
        },
        ProjectInputKind::Cargo | ProjectInputKind::PyProjectPoetry => match read {
            Some(Err(e)) => Err(broken(path, "failed to parse TOML: ", e.as_str())),
            _ => Ok(()),
        },
        ProjectInputKind::Php | ProjectInputKind::Dotnet => match read {
            Some(Err(e)) => Err(broken(path, "failed to parse JSON: ", e.as_str())),
            _ => Ok(()),
        },
        _ => Ok(()),
    }
}

// ---- from text ----
pub open spec fn name_of(n: Option<&str>) -> Option<Seq<char>> {
    match n {
        Some(x) => Some(x@),
        None => None,
    }
}

pub open spec fn manifest_of(m: Option<&NpmSections>) -> Option<NpmSections> {
    match m {
        Some(x) => Some(*x),
        None => None,
    }
}

/// The parsed lockfile of an ecosystem from the text read for it (`None`
/// where no lockfile was found, or a `Gemfile.lock` could not be read):
/// the text parsed in the ecosystem's syntax, then read as in
/// `parsed_lockfile_matches`.
pub fn parsed_lockfile_from_text(
    eco: Option<Ecosystem>,
    file_name: &str,
    shown_path: &str,
    text: Option<&str>,
) -> (r: Result<ParsedLockfile, String>)
    ensures
        match text {
            None => parsed_lockfile_matches(eco, file_name@, shown_path@, None, r),
            Some(t) => exists|d: Result<LockfileDocument, String>|
                document_matches(spec_resolution_syntax(eco), t@, doc_result(d)) && parsed_lockfile_matches(
                    eco,
                    file_name@,
                    shown_path@,
                    Some(d),
                    r,
                ),
        },
{
    match text {
        None => parsed_lockfile_from_document(eco, file_name, shown_path, None),
        Some(t) => {
            let (_, syntax) = resolution_lockfiles(eco);
            let d = read_document(syntax, t);
            let ghost dg = d;
            let r = parsed_lockfile_from_document(eco, file_name, shown_path, Some(d));
            assert(document_matches(spec_resolution_syntax(eco), t@, doc_result(dg)));
            r
        },
    }
}

/// Checks the lockfile a project is scanned against from its text (`None`
/// where it is not read): the text parsed in `spec_lockfile_syntax`, then
/// judged as in `lockfile_document_verdict`.
pub fn validate_lockfile_text(
    spec: &ProjectInputSpec,
    path: &str,
    text: Option<&str>,
    npm_manifest: Option<&NpmSections>,
    manifest_name: Option<&str>,
    config: &SloppyJoeConfig,
) -> (r: Result<(), String>)
    requires
        spec.kind == ProjectInputKind::Npm ==> (npm_manifest matches Some(m) && m.wf()),
    ensures
        exists|read: Option<Result<LockfileDocument, String>>|
            match (spec_lockfile_syntax(*spec, path@), text) {
                (Some(syntax), Some(t)) => read matches Some(d) && document_matches(syntax, t@, doc_result(d)),
                _ => read is None,
            } && #[trigger] lockfile_document_verdict(
                *spec,
                path@,
                read,
                manifest_of(npm_manifest),
                name_of(manifest_name),
                *config,
                unit_result_view(r),
            ),
{
    let read = match (lockfile_syntax(spec, path), text) {
        (Some(syntax), Some(t)) => Some(read_document(syntax, t)),
        _ => None,
    };
    let ghost rg = read;
    let r = validate_lockfile_document(spec, path, read, npm_manifest, manifest_name, config);
    assert(match (spec_lockfile_syntax(*spec, path@), text) {
        (Some(syntax), Some(t)) => rg matches Some(d) && document_matches(syntax, t@, doc_result(d)),
        _ => rg is None,
    });
    r
}

/// Every dependency of an npm lockfile's text; text that does not parse is
/// an error.
pub fn parse_all_npm_text(lockfile_content: &str) -> (r: Result<Vec<Dependency>, String>)
    ensures
        match json_document(lockfile_content@) {
            Err(e) => r matches Err(m) && m@ == "Failed to parse npm lockfile: "@ + e,
            Ok(v) => exists|l: NpmLockfile|
                npm_lock_matches(v, l) && deps_result_view(r) == npm::spec_parse_dependencies(l@, None),
        },
{
    parse_all_npm_document(parse_json(lockfile_content))
}

/// Every registry dependency of a `Cargo.lock`'s text; text that does not
/// parse is an error.
pub fn parse_all_cargo_text(lockfile_content: &str) -> (r: Result<Vec<Dependency>, String>)
    ensures
        match toml_document(lockfile_content@) {
            Err(e) => r matches Err(m) && m@ == "Failed to parse Cargo.lock: "@ + e,
            Ok(v) => exists|l: CargoLockfile|
                cargo_lock_matches(v, l) && match cargo::lockfile_view(l) {
                    None => r is Err,
                    Some(ps) => deps_result_view(r) == Ok::<Seq<crate::DependencyView>, Seq<char>>(cargo::deps_of(ps)),
                },
        },
{
    parse_all_cargo_document(parse_toml(lockfile_content))
}

} // verus!
