use sloppy_joe::cargo_config::{
    ConfigPathEntry, cargo_config_document_from_outline, cargo_config_outline_from_text, cargo_package_name_from_text,
};
use sloppy_joe::cargo_policy::{CargoConfigPath, parse_cargo_config_rewrites};

const CONFIG: &str = r#"
paths = ["../shared", "vendor/./local"]

[source.crates-io]
replace-with = "company"

[source.company]
registry = "https://cargo.company.example/index"

[source.vendored]
directory = "vendor"
"#;

#[test]
fn cargo_config_text_is_read_into_its_outline() {
    let outline = cargo_config_outline_from_text("/repo/.cargo/config.toml", "/repo/.cargo", CONFIG).unwrap();
    let paths = outline.paths.as_ref().unwrap();
    assert_eq!(paths.len(), 2);
    match &paths[0] {
        ConfigPathEntry::Directory { text, candidate } => {
            assert_eq!(text, "../shared");
            assert_eq!(candidate, "/repo/shared");
        }
        other => panic!("unexpected entry {other:?}"),
    }
    match &paths[1] {
        ConfigPathEntry::Directory { candidate, .. } => assert_eq!(candidate, "/repo/.cargo/vendor/local"),
        other => panic!("unexpected entry {other:?}"),
    }
    let sources = outline.sources.as_ref().unwrap();
    let names: Vec<&str> = sources.iter().map(|(n, _)| n.as_str()).collect();
    assert_eq!(names, vec!["company", "crates-io", "vendored"]);
    let crates_io = sources[1].1.as_ref().unwrap();
    assert_eq!(crates_io.replace_with.as_deref(), Some("company"));
    assert_eq!(sources[0].1.as_ref().unwrap().registry.as_deref(), Some("https://cargo.company.example/index"));
    assert_eq!(sources[2].1.as_ref().unwrap().directory.as_deref(), Some("vendor"));
}

#[test]
fn broken_cargo_config_is_reported_with_its_path() {
    let err = cargo_config_outline_from_text("/repo/.cargo/config.toml", "/repo/.cargo", "[source").unwrap_err();
    assert!(err.starts_with("Broken Cargo config '/repo/.cargo/config.toml': failed to parse TOML: "));
}

#[test]
fn non_string_paths_entries_break_the_config() {
    let outline = cargo_config_outline_from_text("/r/.cargo/config.toml", "/r/.cargo", "paths = [1]\n").unwrap();
    assert!(matches!(outline.paths.as_ref().unwrap()[0], ConfigPathEntry::NotString));
    let document = cargo_config_document_from_outline(outline, &vec![], Vec::new(), Vec::new());
    assert!(matches!(document.paths.as_ref().unwrap()[0], CargoConfigPath::NotString));
    let err = parse_cargo_config_rewrites(&document, "/r/.cargo/config.toml", "/r/.cargo").unwrap_err();
    assert_eq!(err, "Broken Cargo config '/r/.cargo/config.toml': paths entries must be strings.");
}

#[test]
fn config_text_yields_rewrites_with_path_overrides_and_sources() {
    let outline = cargo_config_outline_from_text("/repo/.cargo/config.toml", "/repo/.cargo", CONFIG).unwrap();
    let document = cargo_config_document_from_outline(outline, &vec![Some("shared".to_string()), None], Vec::new(), Vec::new());
    assert!(matches!(document.paths.as_ref().unwrap()[1], CargoConfigPath::Skipped));
    let rewrites = parse_cargo_config_rewrites(&document, "/repo/.cargo/config.toml", "/repo/.cargo").unwrap();
    assert_eq!(rewrites.local_paths.get("shared").map(String::as_str), Some("/repo/shared"));
    assert_eq!(rewrites.source_replace_with.get("crates-io").map(String::as_str), Some("company"));
    assert_eq!(rewrites.source_definitions.len(), 2);
}

#[test]
fn crate_package_names_come_from_the_package_table() {
    assert_eq!(
        cargo_package_name_from_text("/s/Cargo.toml", "[package]\nname = \"shared\"\nversion = \"0.1.0\"\n").unwrap(),
        Some("shared".to_string())
    );
    assert_eq!(cargo_package_name_from_text("/s/Cargo.toml", "[workspace]\nmembers = []\n").unwrap(), None);
    assert!(cargo_package_name_from_text("/s/Cargo.toml", "[package").unwrap_err().starts_with(
        "Broken manifest '/s/Cargo.toml': failed to parse TOML: "
    ));
}
