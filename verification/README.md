# sloppy_joe

Supply-chain checks for a project's dependencies, written in Verus: which
lockfile a project is held to, what version each dependency resolves to,
whether a lockfile agrees with its manifest, where packages may come from,
and the issues each refusal raises. The functions in `src/` carry
contracts that Verus proves, except the trusted items described below.

## Layout

- `src/` — the verified library.
  - `lockfiles/` — lockfile models per ecosystem (npm, pnpm, Bun, Cargo,
    Poetry, Ruby, Composer, .NET, Gradle), the readers that turn parsed
    JSON, YAML and TOML documents into them (`json_docs`, `yaml_docs`,
    `toml_docs`, `reading`), exact-version resolution and its laws
    (`laws`), Poetry's content hash and lockfile trust.
  - `documents.rs` — the parsed-document models, the calls into
    `serde_json`, `json5`, `serde_yaml` and `toml` that produce them, and
    their lookups.
  - `npm_consistency.rs`, `js_consistency.rs`, `npm_provenance.rs`,
    `local_targets.rs`, `js_workspaces.rs` — JavaScript lockfile agreement,
    provenance and workspace rules.
  - `cargo_policy.rs`, `cargo_scope.rs` — Cargo source and rewrite policy.
  - `preflight.rs`, `project.rs`, `walk.rs`, `paths.rs`, `js_lockfile.rs`,
    `go_mod.rs` — which projects a scan finds and what each must provide.
  - `cargo_config.rs` — Cargo config files read from their text.
  - `project_type.rs` — narrowing a scan to one requested ecosystem.
  - `project_scan.rs` — one project's scan as a state machine: which
    checks run on which dependencies, and how their issues are tagged.
  - `policy.rs`, `report.rs`, `full_scan.rs` — issues, classification and
    the full-scan record.
- `app/` — the filesystem side: reading files and handing their text to
  the library, walking directories, driving a project's scan with the
  checks handed in, keeping the full-scan record.
- `tests/` — tests of the library's public functions.

Trusted items (functions whose contracts Verus takes without proof) are
marked `#[verifier::external_body]`; each names the outside function it
calls and what its contract claims.
