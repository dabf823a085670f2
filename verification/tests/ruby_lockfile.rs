use sloppy_joe::lockfiles::ruby::{parse_all_from_content, parse_gem_versions, resolve_from_content};
use sloppy_joe::{Dependency, Ecosystem};

const GEMFILE_LOCK: &str = r#"GEM
  remote: https://rubygems.org/
  specs:
    rails (7.0.4)
      actioncable (= 7.0.4)
      actionmailer (= 7.0.4)
    actioncable (7.0.4)
      actionpack (= 7.0.4)
    actionmailer (7.0.4)
    pg (1.4.5)
    puma (6.0.2)

PLATFORMS
  ruby

DEPENDENCIES
  rails (~> 7.0)
  pg
  puma
"#;

fn dep(name: &str, version: Option<&str>) -> Dependency {
    Dependency {
        name: name.to_string(),
        version: version.map(|v| v.to_string()),
        ecosystem: Ecosystem::Ruby,
        actual_name: None,
    }
}

#[test]
fn parse_gem_versions_extracts_all() {
    let versions = parse_gem_versions(GEMFILE_LOCK);
    assert_eq!(versions.get("rails"), Some(&"7.0.4".to_string()));
    assert_eq!(versions.get("actioncable"), Some(&"7.0.4".to_string()));
    assert_eq!(versions.get("pg"), Some(&"1.4.5".to_string()));
    assert_eq!(versions.get("puma"), Some(&"6.0.2".to_string()));
}

#[test]
fn ruby_resolve_finds_version() {
    let deps = vec![dep("rails", Some("~> 7.0")), dep("pg", None)];
    let result = resolve_from_content(GEMFILE_LOCK, &deps);
    assert_eq!(result.exact_version(&deps[0]), Some("7.0.4"));
    assert_eq!(result.exact_version(&deps[1]), Some("1.4.5"));
    assert!(result.issues.is_empty());
}

#[test]
fn ruby_resolve_missing_dep_reports_issue() {
    let deps = vec![dep("nonexistent-gem", None)];
    let result = resolve_from_content(GEMFILE_LOCK, &deps);
    assert!(result.exact_version(&deps[0]).is_none());
    assert!(!result.issues.is_empty());
    assert!(result.issues[0].check.contains("missing"));
}

#[test]
fn ruby_parse_all_extracts_transitive() {
    let all = parse_all_from_content(GEMFILE_LOCK);
    let names: Vec<&str> = all.iter().map(|d| d.name.as_str()).collect();
    assert!(names.contains(&"rails"));
    assert!(names.contains(&"actioncable"));
    assert!(names.contains(&"actionmailer"));
    assert!(names.contains(&"pg"));
    assert!(names.contains(&"puma"));
    // All should have versions
    assert!(all.iter().all(|d| d.version.is_some()));
}
