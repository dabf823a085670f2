use sloppy_joe::checks::names;
use sloppy_joe::config::SloppyJoeConfig;
use sloppy_joe::documents::{JsonValue, YamlValue};
use sloppy_joe::lockfiles::cargo;
use sloppy_joe::lockfiles::data::{LockfileData, ParsedLockfile, resolve_from_parsed};
use sloppy_joe::lockfiles::json_docs::{
    bun_lockfile_from_document, npm_lockfile_from_document, npm_manifest_from_text, npm_workspaces_from_manifest,
    sections_from,
};
use sloppy_joe::lockfiles::poetry_hash::TomlValue;
use sloppy_joe::lockfiles::reading::{
    DocumentSyntax, LockfileDocument, lockfile_syntax, parse_all_cargo_document, parse_all_cargo_text,
    parse_all_npm_document, parse_all_npm_text, parsed_lockfile_from_document, parsed_lockfile_from_text,
    resolution_lockfiles, validate_lockfile_document, validate_lockfile_text,
};
use sloppy_joe::lockfiles::toml_docs::{
    cargo_lockfile_from_document, poetry_lock_from_document, poetry_lock_from_text, pyproject_from_text,
};
use sloppy_joe::lockfiles::yaml_docs::{
    pnpm_lockfile_from_document, pnpm_workspace_from_document, pnpm_workspace_from_text,
};
use sloppy_joe::lockfiles::{ResolutionMode, ResolutionSource};
use sloppy_joe::js_workspaces::NpmWorkspacesValue;
use sloppy_joe::project::{JsPackageManager, JsProjectBinding, ProjectInputKind, ProjectInputSpec};
use sloppy_joe::{Dependency, Ecosystem};

fn s(text: &str) -> String {
    text.to_string()
}

fn jstr(text: &str) -> JsonValue {
    JsonValue::Str(s(text))
}

fn jobj(members: Vec<(&str, JsonValue)>) -> JsonValue {
    JsonValue::Object(members.into_iter().map(|(k, v)| (s(k), v)).collect())
}

fn tstr(text: &str) -> TomlValue {
    TomlValue::String(s(text))
}

fn ttable(entries: Vec<(&str, TomlValue)>) -> TomlValue {
    TomlValue::Table(entries.into_iter().map(|(k, v)| (s(k), v)).collect())
}

fn ystr(text: &str) -> YamlValue {
    YamlValue::Str(s(text))
}

fn ymap(entries: Vec<(YamlValue, YamlValue)>) -> YamlValue {
    YamlValue::Mapping(entries)
}

fn dep(name: &str, version: &str, ecosystem: Ecosystem) -> Dependency {
    Dependency { name: s(name), version: Some(s(version)), ecosystem, actual_name: None }
}

fn cargo_lock(packages: Vec<(&str, &str)>) -> TomlValue {
    ttable(vec![
        ("version", TomlValue::Integer(4)),
        (
            "package",
            TomlValue::Array(
                packages
                    .into_iter()
                    .map(|(name, version)| {
                        ttable(vec![
                            ("name", tstr(name)),
                            ("version", tstr(version)),
                            ("source", tstr("registry+https://github.com/rust-lang/crates.io-index")),
                        ])
                    })
                    .collect(),
            ),
        ),
    ])
}

fn spec(kind: ProjectInputKind, manifest: &str, manager: Option<JsPackageManager>) -> ProjectInputSpec {
    ProjectInputSpec {
        kind,
        manifest_path: s(manifest),
        lockfile_path_override: None,
        js_binding: manager.map(|manager| JsProjectBinding {
            manager,
            root_manifest_path: s(manifest),
            lockfile_path: None,
            package_entry_key: s(""),
        }),
    }
}

#[test]
fn cargo_lockfile_trust_requires_proven_sync_for_non_exact_direct_deps() {
    let deps = vec![dep("serde", "1.0", Ecosystem::Cargo)];
    let lockfile = r#"version = 4

[[package]]
name = "serde"
version = "1.0.228"
source = "registry+https://github.com/rust-lang/crates.io-index"
"#;
    let parsed =
        parsed_lockfile_from_text(Some(Ecosystem::Cargo), "Cargo.lock", "/demo/Cargo.lock", Some(lockfile)).unwrap();
    let data = LockfileData::from_parsed(parsed, &deps).unwrap();
    assert!(
        data.resolution.exact_version(&deps[0]).is_none(),
        "non-exact Cargo direct deps must not be trusted from Cargo.lock without sync proof"
    );
    assert!(data
        .resolution
        .issues
        .iter()
        .any(|issue| issue.check == names::RESOLUTION_NO_TRUSTED_LOCKFILE_SYNC && issue.package == "serde"));
}

#[test]
fn cargo_direct_exact_pin_resolves_from_single_locked_version() {
    let deps = vec![dep("serde", "=1.0.228", Ecosystem::Cargo)];
    let parsed = parsed_lockfile_from_document(
        Some(Ecosystem::Cargo),
        "Cargo.lock",
        "/demo/Cargo.lock",
        Some(Ok(LockfileDocument::Toml(cargo_lock(vec![("serde", "1.0.228")])))),
    )
    .unwrap();
    let data = LockfileData::from_parsed(parsed, &deps).unwrap();
    assert_eq!(data.resolution.exact_version(&deps[0]), Some("1.0.228"));
    assert!(data.resolution.issues.is_empty());
}

#[test]
fn cargo_lock_resolves_single_locked_version() {
    let lock = cargo_lockfile_from_document(&cargo_lock(vec![("serde", "1.0.203")]));
    let deps = vec![dep("serde", "1", Ecosystem::Cargo)];
    let result = cargo::resolve_from_value(&lock, &deps, ResolutionMode::Transitive);
    assert_eq!(result.resolved_version(&deps[0]).unwrap().version, "1.0.203");
    assert_eq!(result.resolved_version(&deps[0]).unwrap().source, ResolutionSource::Lockfile);
}

#[test]
fn cargo_transitive_resolution_keeps_trusting_the_locked_version() {
    let parsed = parsed_lockfile_from_document(
        Some(Ecosystem::Cargo),
        "Cargo.lock",
        "/demo/Cargo.lock",
        Some(Ok(LockfileDocument::Toml(cargo_lock(vec![("serde", "1.0.228"), ("itoa", "1.0.11")])))),
    )
    .unwrap();
    let direct = vec![dep("serde", "=1.0.228", Ecosystem::Cargo)];
    let data = LockfileData::from_parsed(parsed, &direct).unwrap();
    assert_eq!(data.transitive_deps.len(), 1);
    assert_eq!(data.transitive_deps[0].name, "itoa");
    let transitive = data.resolve_transitive(&data.transitive_deps);
    assert_eq!(transitive.exact_version(&data.transitive_deps[0]), Some("1.0.11"));
    assert!(transitive.issues.is_empty());
}

#[test]
fn cargo_lock_malformed_lockfile_emits_parse_failed_issue() {
    let parsed =
        parsed_lockfile_from_text(Some(Ecosystem::Cargo), "Cargo.lock", "/demo/Cargo.lock", Some("[[package]")).unwrap();
    let deps = vec![dep("serde", "1", Ecosystem::Cargo)];
    let result = resolve_from_parsed(&parsed, &deps, ResolutionMode::Direct);
    assert!(result.resolved_version(&deps[0]).is_none());
    assert!(result.issues.iter().any(|i| i.check == names::RESOLUTION_PARSE_FAILED));
}

#[test]
fn npm_malformed_lockfile_emits_parse_failed_issue() {
    let parsed = parsed_lockfile_from_text(
        Some(Ecosystem::Npm),
        "package-lock.json",
        "/demo/package-lock.json",
        Some("{not json"),
    )
    .unwrap();
    let deps = vec![dep("react", "18.2.0", Ecosystem::Npm)];
    let result = resolve_from_parsed(&parsed, &deps, ResolutionMode::Direct);
    assert_eq!(result.resolved_version(&deps[0]).unwrap().source, ResolutionSource::ManifestExact);
    assert!(result.issues.iter().any(|i| i.check == names::RESOLUTION_PARSE_FAILED
        && i.message.contains("'package-lock.json'")));
}

#[test]
fn poetry_lock_that_does_not_parse_is_an_error() {
    let r = parsed_lockfile_from_document(Some(Ecosystem::PyPI), "poetry.lock", "/p/poetry.lock", Some(Err(s("bad"))));
    assert_eq!(r.unwrap_err(), "Failed to parse /p/poetry.lock: bad");
}

#[test]
fn nothing_read_is_no_lockfile() {
    let r = parsed_lockfile_from_document(Some(Ecosystem::Npm), "", "", None).unwrap();
    assert!(matches!(r, ParsedLockfile::NoLockfile));
    let ruby = parsed_lockfile_from_document(Some(Ecosystem::Ruby), "Gemfile.lock", "/g", Some(Err(s("io")))).unwrap();
    assert!(matches!(ruby, ParsedLockfile::NoLockfile));
}

#[test]
fn npm_lockfiles_are_looked_for_shrinkwrap_first() {
    let (names, syntax) = resolution_lockfiles(Some(Ecosystem::Npm));
    assert_eq!(names, vec![s("npm-shrinkwrap.json"), s("package-lock.json")]);
    assert_eq!(syntax, DocumentSyntax::Json);
    let (cargo_names, cargo_syntax) = resolution_lockfiles(Some(Ecosystem::Cargo));
    assert_eq!(cargo_names, vec![s("Cargo.lock")]);
    assert_eq!(cargo_syntax, DocumentSyntax::Toml);
    assert!(resolution_lockfiles(Some(Ecosystem::Go)).0.is_empty());
}

#[test]
fn parse_all_npm_fails_on_malformed_json() {
    let result = parse_all_npm_text("{not valid json");
    assert!(result.is_err());
    let message = parse_all_npm_document(Err(s("expected value"))).unwrap_err();
    assert_eq!(message, "Failed to parse npm lockfile: expected value");
}

#[test]
fn parse_all_cargo_fails_on_malformed_toml() {
    let result = parse_all_cargo_text("[[package]");
    assert!(result.is_err());
    assert!(result.unwrap_err().starts_with("Failed to parse Cargo.lock: "));
}

#[test]
fn npm_lockfile_text_resolves_through_shrinkwrap_name() {
    let text = r#"{"name":"demo","lockfileVersion":3,"packages":{"":{"name":"demo","dependencies":{"react":"18.3.1"}},"node_modules/react":{"version":"18.3.1"}}}"#;
    let parsed =
        parsed_lockfile_from_text(Some(Ecosystem::Npm), "npm-shrinkwrap.json", "/d/npm-shrinkwrap.json", Some(text))
            .unwrap();
    let deps = vec![dep("react", "18.3.1", Ecosystem::Npm)];
    let data = LockfileData::from_parsed(parsed, &deps).unwrap();
    assert_eq!(data.resolution.exact_version(&deps[0]), Some("18.3.1"));
    assert!(data.resolution.issues.is_empty());
}

#[test]
fn lockfile_texts_are_checked_in_their_syntax() {
    let config = SloppyJoeConfig::default();
    let cargo = spec(ProjectInputKind::Cargo, "/p/Cargo.toml", None);
    let err = validate_lockfile_text(&cargo, "/p/Cargo.lock", Some("[[package]"), None, None, &config).unwrap_err();
    assert!(err.starts_with("Broken lockfile '/p/Cargo.lock': failed to parse TOML: "));
    assert!(validate_lockfile_text(&cargo, "/p/Cargo.lock", Some("version = 4\n"), None, None, &config).is_ok());
    let dotnet = spec(ProjectInputKind::Dotnet, "/p/app.csproj", None);
    let err = validate_lockfile_text(&dotnet, "/p/packages.lock.json", Some("{"), None, None, &config).unwrap_err();
    assert!(err.starts_with("Broken lockfile '/p/packages.lock.json': failed to parse JSON: "));
    let pnpm = spec(ProjectInputKind::Npm, "/p/package.json", Some(JsPackageManager::Pnpm));
    let manifest = sections_from(&jobj(vec![]));
    let err = validate_lockfile_text(&pnpm, "/p/pnpm-lock.yaml", Some("a: [b"), Some(&manifest), None, &config).unwrap_err();
    assert!(err.starts_with("Broken lockfile '/p/pnpm-lock.yaml': "));
}

#[test]
fn manifests_and_poetry_files_parse_from_text() {
    let manifest = npm_manifest_from_text("/p/package.json", r#"{"name":"demo","dependencies":{"a":"1"}}"#).unwrap();
    assert_eq!(sections_from(&manifest).dependencies, vec![(s("a"), s("1"))]);
    let err = npm_manifest_from_text("/p/package.json", "{").unwrap_err();
    assert!(err.starts_with("Broken manifest '/p/package.json': failed to parse JSON: "));
    assert!(npm_manifest_from_text("/p/package.json", r#"{"overrides":{"a":"1"}}"#).is_err());
    let ws = pnpm_workspace_from_text("/p/pnpm-workspace.yaml", "packages:\n  - 'apps/*'\n").unwrap();
    assert_eq!(ws.packages, Some(vec![Some(s("apps/*"))]));
    let err = pyproject_from_text("/p/pyproject.toml", "[tool").unwrap_err();
    assert!(err.starts_with("Failed to parse /p/pyproject.toml: "));
    let lock = poetry_lock_from_text("/p/poetry.lock", "[[package]]\nname = \"a\"\nversion = \"1.0\"\n").unwrap();
    assert_eq!(lock.packages.unwrap()[0].as_ref().unwrap().version.as_deref(), Some("1.0"));
    let err = poetry_lock_from_text("/p/poetry.lock", "[[package]").unwrap_err();
    assert!(err.starts_with("Broken lockfile '/p/poetry.lock': failed to parse TOML: "));
}

#[test]
fn parse_all_cargo_reads_packages_from_the_document() {
    let deps = parse_all_cargo_document(Ok(cargo_lock(vec![("serde", "1.0.203"), ("tokio", "1.42.0")]))).unwrap();
    assert_eq!(deps.len(), 2);
    assert!(deps.iter().any(|d| d.name == "serde"));
    assert!(deps.iter().any(|d| d.name == "tokio"));
}

#[test]
fn npm_document_reads_version_packages_and_sections() {
    let doc = jobj(vec![
        ("name", jstr("demo")),
        ("lockfileVersion", JsonValue::Number(s("3"))),
        (
            "packages",
            jobj(vec![
                (
                    "",
                    jobj(vec![
                        ("name", jstr("demo")),
                        ("dependencies", jobj(vec![("react", jstr("^18.0.0")), ("odd", JsonValue::Bool(true))])),
                    ]),
                ),
                (
                    "node_modules/react",
                    jobj(vec![("version", jstr("18.3.1")), ("link", JsonValue::Bool(true))]),
                ),
                ("node_modules/broken", jstr("not an object")),
            ]),
        ),
    ]);
    let lock = npm_lockfile_from_document(&doc);
    assert_eq!(lock.lockfile_version, 3);
    let packages = lock.packages.as_ref().unwrap();
    assert_eq!(packages.len(), 3);
    let root = packages[0].1.as_ref().unwrap();
    assert_eq!(root.name.as_deref(), Some("demo"));
    assert_eq!(root.sections.dependencies, vec![(s("react"), s("^18.0.0"))]);
    let react = packages[1].1.as_ref().unwrap();
    assert_eq!(react.version.as_deref(), Some("18.3.1"));
    assert!(react.link);
    assert!(!react.bundled);
    assert!(packages[2].1.is_none());
    assert!(lock.dependencies.is_none());
    // The linked entry is left out; the entry that is not an object is kept.
    let deps = parse_all_npm_document(Ok(doc)).unwrap();
    assert_eq!(deps.len(), 1);
    assert_eq!(deps[0].name, "broken");
}

#[test]
fn npm_lockfile_version_is_zero_unless_an_unsigned_integer() {
    let missing = npm_lockfile_from_document(&jobj(vec![]));
    assert_eq!(missing.lockfile_version, 0);
    let float = npm_lockfile_from_document(&jobj(vec![("lockfileVersion", JsonValue::Number(s("2.0")))]));
    assert_eq!(float.lockfile_version, 0);
    let negative = npm_lockfile_from_document(&jobj(vec![("lockfileVersion", JsonValue::Number(s("-1")))]));
    assert_eq!(negative.lockfile_version, 0);
    let text = npm_lockfile_from_document(&jobj(vec![("lockfileVersion", jstr("3"))]));
    assert_eq!(text.lockfile_version, 0);
    let huge = npm_lockfile_from_document(&jobj(vec![("lockfileVersion", JsonValue::Number(s("99999999999999999999")))]));
    assert_eq!(huge.lockfile_version, 0);
    let one = npm_lockfile_from_document(&jobj(vec![("lockfileVersion", JsonValue::Number(s("1")))]));
    assert_eq!(one.lockfile_version, 1);
}

#[test]
fn npm_v1_dependency_tree_is_flattened_in_document_order() {
    let doc = jobj(vec![
        ("lockfileVersion", JsonValue::Number(s("1"))),
        (
            "dependencies",
            jobj(vec![
                (
                    "a",
                    jobj(vec![
                        ("version", jstr("1.0.0")),
                        ("dependencies", jobj(vec![("b", jobj(vec![("version", jstr("2.0.0"))]))])),
                    ]),
                ),
                ("c", jobj(vec![("version", jstr("3.0.0"))])),
            ]),
        ),
    ]);
    let lock = npm_lockfile_from_document(&doc);
    let flat = lock.dependencies.as_ref().unwrap();
    let shape: Vec<(usize, &str, Option<&str>)> = flat
        .iter()
        .map(|e| (e.depth, e.name.as_str(), e.entry.as_ref().and_then(|x| x.version.as_deref())))
        .collect();
    assert_eq!(shape, vec![(0, "a", Some("1.0.0")), (1, "b", Some("2.0.0")), (0, "c", Some("3.0.0"))]);
    assert!(lock.packages.is_none());
}

#[test]
fn npm_sections_keep_each_string_declaration_once() {
    let manifest = jobj(vec![
        ("dependencies", JsonValue::Object(vec![(s("a"), jstr("1")), (s("b"), JsonValue::Null), (s("a"), jstr("2"))])),
        ("devDependencies", jstr("not an object")),
    ]);
    let sections = sections_from(&manifest);
    assert_eq!(sections.dependencies, vec![(s("a"), s("1"))]);
    assert!(sections.dev_dependencies.is_empty());
    assert!(sections.peer_dependencies.is_empty());
}

#[test]
fn package_json_workspaces_are_read_by_shape() {
    let array = npm_workspaces_from_manifest(&jobj(vec![(
        "workspaces",
        JsonValue::Array(vec![jstr("packages/*"), JsonValue::Number(s("1"))]),
    )]));
    assert!(matches!(array, Some(NpmWorkspacesValue::Array(ref v)) if v == &vec![Some(s("packages/*")), None]));
    let object = npm_workspaces_from_manifest(&jobj(vec![(
        "workspaces",
        jobj(vec![("packages", JsonValue::Array(vec![jstr("apps/*")]))]),
    )]));
    assert!(matches!(object, Some(NpmWorkspacesValue::Object { packages: Some(ref v) }) if v == &vec![Some(s("apps/*"))]));
    assert!(matches!(npm_workspaces_from_manifest(&jobj(vec![("workspaces", jstr("x"))])), Some(NpmWorkspacesValue::Other)));
    assert!(npm_workspaces_from_manifest(&jobj(vec![])).is_none());
}

#[test]
fn bun_document_reads_workspaces_and_descriptors() {
    let doc = jobj(vec![
        (
            "workspaces",
            jobj(vec![(
                "",
                jobj(vec![
                    ("dependencies", jobj(vec![("react", jstr("^18.0.0"))])),
                    ("devDependencies", jobj(vec![("ok", jstr("1")), ("bad", JsonValue::Bool(true))])),
                    ("peerDependencies", jstr("not an object")),
                ]),
            )]),
        ),
        (
            "packages",
            jobj(vec![
                ("react", JsonValue::Array(vec![jstr("react@18.3.1"), jstr("")])),
                ("weird", JsonValue::Array(vec![])),
            ]),
        ),
    ]);
    let lock = bun_lockfile_from_document(&doc);
    let ws = lock.workspaces.as_ref().unwrap();
    assert_eq!(ws.len(), 1);
    assert_eq!(ws[0].1.sections.dependencies, vec![(s("react"), s("^18.0.0"))]);
    assert!(matches!(ws[0].1.shapes.dev_dependencies, sloppy_joe::lockfiles::bun::BunSectionShape::NonStringValue(ref k) if k == "bad"));
    assert!(matches!(ws[0].1.shapes.peer_dependencies, sloppy_joe::lockfiles::bun::BunSectionShape::NotObject));
    assert!(matches!(ws[0].1.shapes.optional_dependencies, sloppy_joe::lockfiles::bun::BunSectionShape::Object));
    let packages = lock.packages.as_ref().unwrap();
    assert_eq!(packages[0], (s("react"), Some(s("react@18.3.1"))));
    assert_eq!(packages[1], (s("weird"), None));
}

#[test]
fn pnpm_document_reads_string_keyed_importers_and_tagged_packages() {
    let importer = ymap(vec![(
        ystr("dependencies"),
        ymap(vec![(
            ystr("react"),
            ymap(vec![(ystr("specifier"), ystr("^18.0.0")), (ystr("version"), ystr("18.3.1"))]),
        )]),
    )]);
    let doc = ymap(vec![
        (ystr("importers"), ymap(vec![(ystr("."), importer), (YamlValue::Number(s("1")), ymap(vec![]))])),
        (
            ystr("packages"),
            YamlValue::Tagged(
                s("!tag"),
                Box::new(ymap(vec![(
                    ystr("react@18.3.1"),
                    ymap(vec![(ystr("resolution"), ymap(vec![(ystr("integrity"), ystr("sha512-x"))]))]),
                )])),
            ),
        ),
    ]);
    let lock = pnpm_lockfile_from_document(&doc);
    let importers = lock.importers.as_ref().unwrap();
    assert_eq!(importers.len(), 1);
    assert_eq!(importers[0].0, ".");
    match &importers[0].1.dependencies {
        sloppy_joe::lockfiles::pnpm::PnpmSection::Entries(es) => {
            assert_eq!(es.len(), 1);
            assert_eq!(es[0].name.as_deref(), Some("react"));
            assert_eq!(es[0].version.as_deref(), Some("18.3.1"));
            assert_eq!(es[0].specifier.as_deref(), Some("^18.0.0"));
            assert!(es[0].inline_reference.is_none());
        }
        other => panic!("unexpected section {other:?}"),
    }
    let packages = lock.packages.as_ref().unwrap();
    assert_eq!(packages[0].key.as_deref(), Some("react@18.3.1"));
    assert_eq!(packages[0].resolution.as_ref().unwrap().integrity.as_deref(), Some("sha512-x"));
    assert!(lock.snapshots.is_none());
}

#[test]
fn pnpm_workspace_document_lists_package_patterns() {
    let doc = ymap(vec![(ystr("packages"), YamlValue::Sequence(vec![ystr("packages/*"), YamlValue::Bool(true)]))]);
    let file = pnpm_workspace_from_document(&doc);
    assert_eq!(file.packages, Some(vec![Some(s("packages/*")), None]));
    assert!(pnpm_workspace_from_document(&ymap(vec![])).packages.is_none());
}

#[test]
fn poetry_document_reads_packages_sources_files_and_metadata() {
    let doc = ttable(vec![
        (
            "package",
            TomlValue::Array(vec![
                ttable(vec![
                    ("name", tstr("requests")),
                    ("version", tstr("2.32.3")),
                    ("files", TomlValue::Array(vec![ttable(vec![("file", tstr("r.whl")), ("hash", tstr("sha256:ab"))])])),
                ]),
                ttable(vec![("name", tstr("x")), ("source", tstr("odd"))]),
                tstr("not a table"),
            ]),
        ),
        (
            "metadata",
            ttable(vec![("lock-version", tstr("2.0")), ("content-hash", tstr("abc"))]),
        ),
    ]);
    let lock = poetry_lock_from_document(&doc);
    let packages = lock.packages.as_ref().unwrap();
    let first = packages[0].as_ref().unwrap();
    assert_eq!(first.name.as_deref(), Some("requests"));
    assert!(first.source.is_none());
    let files = first.files.as_ref().unwrap();
    assert_eq!(files[0].as_ref().unwrap().hash.as_deref(), Some("sha256:ab"));
    assert!(matches!(packages[1].as_ref().unwrap().source, Some(None)));
    assert!(packages[2].is_none());
    let metadata = lock.metadata.as_ref().unwrap();
    assert_eq!(metadata.lock_version.as_deref(), Some("2.0"));
    assert_eq!(metadata.content_hash.as_deref(), Some("abc"));
    assert!(metadata.files.is_none());
}

#[test]
fn lockfile_syntax_follows_kind_and_manager() {
    let npm = spec(ProjectInputKind::Npm, "/p/package.json", None);
    assert_eq!(lockfile_syntax(&npm, "/p/package-lock.json"), Some(DocumentSyntax::Json));
    let bun = spec(ProjectInputKind::Npm, "/p/package.json", Some(JsPackageManager::Bun));
    assert_eq!(lockfile_syntax(&bun, "/p/bun.lock"), Some(DocumentSyntax::Json5));
    assert_eq!(lockfile_syntax(&bun, "/p/bun.lockb"), None);
    let pnpm = spec(ProjectInputKind::Npm, "/p/package.json", Some(JsPackageManager::Pnpm));
    assert_eq!(lockfile_syntax(&pnpm, "/p/pnpm-lock.yaml"), Some(DocumentSyntax::Yaml));
    let yarn = spec(ProjectInputKind::Npm, "/p/package.json", Some(JsPackageManager::Yarn));
    assert_eq!(lockfile_syntax(&yarn, "/p/yarn.lock"), Some(DocumentSyntax::Text));
    assert_eq!(lockfile_syntax(&spec(ProjectInputKind::Cargo, "/p/Cargo.toml", None), "/p/Cargo.lock"), Some(DocumentSyntax::Toml));
    assert_eq!(lockfile_syntax(&spec(ProjectInputKind::Php, "/p/composer.json", None), "/p/composer.lock"), Some(DocumentSyntax::Json));
    assert_eq!(lockfile_syntax(&spec(ProjectInputKind::Go, "/p/go.mod", None), "/p/go.sum"), None);
}

#[test]
fn broken_lockfiles_are_reported_with_their_path() {
    let config = SloppyJoeConfig::default();
    let cargo = spec(ProjectInputKind::Cargo, "/p/Cargo.toml", None);
    let err = validate_lockfile_document(&cargo, "/p/Cargo.lock", Some(Err(s("bad key"))), None, None, &config).unwrap_err();
    assert_eq!(err, "Broken lockfile '/p/Cargo.lock': failed to parse TOML: bad key");
    let php = spec(ProjectInputKind::Php, "/p/composer.json", None);
    let err = validate_lockfile_document(&php, "/p/composer.lock", Some(Err(s("eof"))), None, None, &config).unwrap_err();
    assert_eq!(err, "Broken lockfile '/p/composer.lock': failed to parse JSON: eof");
    assert!(validate_lockfile_document(&cargo, "/p/Cargo.lock", Some(Ok(LockfileDocument::Toml(cargo_lock(vec![])))), None, None, &config).is_ok());
}

#[test]
fn bun_binary_lockfile_is_refused() {
    let config = SloppyJoeConfig::default();
    let bun = spec(ProjectInputKind::Npm, "/p/package.json", Some(JsPackageManager::Bun));
    let manifest = sections_from(&jobj(vec![]));
    let err = validate_lockfile_document(&bun, "/p/bun.lockb", None, Some(&manifest), None, &config).unwrap_err();
    assert_eq!(
        err,
        "Legacy Bun binary lockfile '/p/bun.lockb' is not supported yet. Regenerate and commit the text bun.lock."
    );
}

#[test]
fn npm_legacy_lockfile_document_is_refused_by_default() {
    let config = SloppyJoeConfig::default();
    let npm = spec(ProjectInputKind::Npm, "/p/package.json", None);
    let manifest = sections_from(&jobj(vec![]));
    let doc = jobj(vec![("lockfileVersion", JsonValue::Number(s("1"))), ("dependencies", jobj(vec![]))]);
    let err = validate_lockfile_document(&npm, "/p/package-lock.json", Some(Ok(LockfileDocument::Json(doc))), Some(&manifest), None, &config)
        .unwrap_err();
    assert!(err.contains("lockfileVersion: 1"));
}

#[test]
fn toml_strings_render_as_escaped_json_literals() {
    let text = sloppy_joe::lockfiles::poetry_hash::canonical_json_from_toml(&tstr("a\"b\\c\n\t\u{1}\u{8}é")).unwrap();
    assert_eq!(text, "\"a\\\"b\\\\c\\n\\t\\u0001\\bé\"");
}

#[test]
fn yarn_projects_need_a_package_name() {
    let config = SloppyJoeConfig::default();
    let yarn = spec(ProjectInputKind::Npm, "/p/package.json", Some(JsPackageManager::Yarn));
    let manifest = sections_from(&jobj(vec![]));
    let err = validate_lockfile_text(&yarn, "/p/yarn.lock", Some("# yarn lockfile v1\n"), Some(&manifest), None, &config)
        .unwrap_err();
    assert_eq!(err, "Broken manifest '/p/package.json': Yarn projects must declare a package name.");
    assert!(validate_lockfile_text(&yarn, "/p/yarn.lock", Some("# yarn lockfile v1\n"), Some(&manifest), Some("demo"), &config)
        .is_ok());
}
