//! Parsed JSON, YAML and TOML documents, as the library reads them, and the
//! lookups the lockfile readers make in them (those of `serde_json`,
//! `serde_yaml` and `toml` values: `get`, `as_str`, `as_bool`).
use vstd::prelude::*;
use crate::lockfiles::poetry_hash::TomlValue;

verus! {

/// A JSON (or JSON5) document. A number is held as its text; an object
/// lists its members in the order the parser keeps them (names are
/// distinct).
#[derive(Debug)]
pub enum JsonValue {
    Null,
    Bool(bool),
    Number(String),
    Str(String),
    Array(Vec<JsonValue>),
    Object(Vec<(String, JsonValue)>),
}

/// A YAML document. A number is held as its text; a mapping lists its
/// entries in document order; a tagged value keeps its tag's text.
#[derive(Debug)]
pub enum YamlValue {
    Null,
    Bool(bool),
    Number(String),
    Str(String),
    Sequence(Vec<YamlValue>),
    Mapping(Vec<(YamlValue, YamlValue)>),
    Tagged(String, Box<YamlValue>),
}


// ---- parsing ----
#[verifier::external_type_specification]
#[verifier::external_body]
pub struct ExJsonValue(serde_json::Value);

#[verifier::external_type_specification]
#[verifier::external_body]
pub struct ExYamlValue(serde_yaml::Value);

#[verifier::external_type_specification]
#[verifier::external_body]
pub struct ExTomlValue(toml::Value);

/// A parse result, its error message as text.
pub open spec fn doc_result<T>(r: Result<T, String>) -> Result<T, Seq<char>> {
    match r {
        Ok(d) => Ok(d),
        Err(e) => Err(e@),
    }
}

/// What `serde_json::from_str` makes of a text: the document, or the
/// error's message.
pub uninterp spec fn json_document(text: Seq<char>) -> Result<JsonValue, Seq<char>>;

/// What `json5::from_str` makes of a text.
pub uninterp spec fn json5_document(text: Seq<char>) -> Result<JsonValue, Seq<char>>;

/// What `serde_yaml::from_str` makes of a text.
pub uninterp spec fn yaml_document(text: Seq<char>) -> Result<YamlValue, Seq<char>>;

/// What `toml::from_str` makes of a text.
pub uninterp spec fn toml_document(text: Seq<char>) -> Result<TomlValue, Seq<char>>;

/// `serde_json::from_str::<serde_json::Value>`, the value carried over by
/// `json_tree`. The result is named, not described.
#[verifier::external_body]
pub(crate) fn parse_json(text: &str) -> (r: Result<JsonValue, String>)
    ensures
        doc_result(r) == json_document(text@),
{
    match serde_json::from_str::<serde_json::Value>(text) {
        Ok(v) => Ok(json_tree(&v)),
        Err(e) => Err(e.to_string()),
    }
}

/// `json5::from_str::<serde_json::Value>`, the value carried over by
/// `json_tree`.
#[verifier::external_body]
pub(crate) fn parse_json5(text: &str) -> (r: Result<JsonValue, String>)
    ensures
        doc_result(r) == json5_document(text@),
{
    match json5::from_str::<serde_json::Value>(text) {
        Ok(v) => Ok(json_tree(&v)),
        Err(e) => Err(e.to_string()),
    }
}

/// `serde_yaml::from_str::<serde_yaml::Value>`, the value carried over by
/// `yaml_tree`.
#[verifier::external_body]
pub(crate) fn parse_yaml(text: &str) -> (r: Result<YamlValue, String>)
    ensures
        doc_result(r) == yaml_document(text@),
{
    match serde_yaml::from_str::<serde_yaml::Value>(text) {
        Ok(v) => Ok(yaml_tree(&v)),
        Err(e) => Err(e.to_string()),
    }
}

/// `toml::from_str::<toml::Value>`, the value carried over by `toml_tree`.
#[verifier::external_body]
pub(crate) fn parse_toml(text: &str) -> (r: Result<TomlValue, String>)
    ensures
        doc_result(r) == toml_document(text@),
{
    match toml::from_str::<toml::Value>(text) {
        Ok(v) => Ok(toml_tree(&v)),
        Err(e) => Err(e.to_string()),
    }
}

/// The part of `parse_json` and `parse_json5` that carries a parsed value
/// over, variant for variant, recursively (a wrapper's body cannot
/// recurse); it states nothing, and only those wrappers call it.
#[verifier::external_body]
fn json_tree(v: &serde_json::Value) -> JsonValue {
    match v {
        serde_json::Value::Null => JsonValue::Null,
        serde_json::Value::Bool(b) => JsonValue::Bool(*b),
        serde_json::Value::Number(n) => JsonValue::Number(n.to_string()),
        serde_json::Value::String(s) => JsonValue::Str(s.clone()),
        serde_json::Value::Array(items) => JsonValue::Array(items.iter().map(json_tree).collect()),
        serde_json::Value::Object(m) => JsonValue::Object(m.iter().map(|(k, x)| (k.clone(), json_tree(x))).collect()),
    }
}

/// The part of `parse_yaml` that carries a parsed value over, variant for
/// variant, recursively; it states nothing, and only that wrapper calls it.
#[verifier::external_body]
fn yaml_tree(v: &serde_yaml::Value) -> YamlValue {
    match v {
        serde_yaml::Value::Null => YamlValue::Null,
        serde_yaml::Value::Bool(b) => YamlValue::Bool(*b),
        serde_yaml::Value::Number(n) => YamlValue::Number(n.to_string()),
        serde_yaml::Value::String(s) => YamlValue::Str(s.clone()),
        serde_yaml::Value::Sequence(items) => YamlValue::Sequence(items.iter().map(yaml_tree).collect()),
        serde_yaml::Value::Mapping(m) => YamlValue::Mapping(m.iter().map(|(k, x)| (yaml_tree(k), yaml_tree(x))).collect()),
        serde_yaml::Value::Tagged(t) => YamlValue::Tagged(t.tag.to_string(), Box::new(yaml_tree(&t.value))),
    }
}

/// The part of `parse_toml` that carries a parsed value over, variant for
/// variant, recursively (a float as the text `serde_json` writes for it, a
/// date-time as its TOML text); it states nothing, and only that wrapper
/// calls it.
#[verifier::external_body]
fn toml_tree(v: &toml::Value) -> TomlValue {
    match v {
        toml::Value::String(s) => TomlValue::String(s.clone()),
        toml::Value::Integer(n) => TomlValue::Integer(*n),
        toml::Value::Float(f) => TomlValue::Float(serde_json::to_string(f).unwrap_or_default()),
        toml::Value::Boolean(b) => TomlValue::Boolean(*b),
        toml::Value::Datetime(d) => TomlValue::Datetime(d.to_string()),
        toml::Value::Array(items) => TomlValue::Array(items.iter().map(toml_tree).collect()),
        toml::Value::Table(t) => TomlValue::Table(t.iter().map(|(k, x)| (k.clone(), toml_tree(x))).collect()),
    }
}

// ---- JSON lookups ----
/// The value of the first member of `es`, from position `i` on, named `key`.
pub open spec fn json_member_from(es: Seq<(String, JsonValue)>, key: Seq<char>, i: int) -> Option<JsonValue>
    decreases es.len() - i,
{
    if i < 0 || i >= es.len() {
        None
    } else if es[i].0@ == key {
        Some(es[i].1)
    } else {
        json_member_from(es, key, i + 1)
    }
}

/// `value.get(key)`: the member `key` of an object.
pub open spec fn json_get(v: JsonValue, key: Seq<char>) -> Option<JsonValue> {
    match v {
        JsonValue::Object(es) => json_member_from(es@, key, 0),
        _ => None,
    }
}

/// `as_str` of an optional value.
pub open spec fn json_as_str(v: Option<JsonValue>) -> Option<Seq<char>> {
    match v {
        Some(JsonValue::Str(s)) => Some(s@),
        _ => None,
    }
}

/// `as_bool` of an optional value, `false` where there is none.
pub open spec fn json_as_flag(v: Option<JsonValue>) -> bool {
    match v {
        Some(JsonValue::Bool(b)) => b,
        _ => false,
    }
}

pub open spec fn opt_json(r: Option<&JsonValue>) -> Option<JsonValue> {
    match r {
        Some(x) => Some(*x),
        None => None,
    }
}

/// The member `key` of an object.
pub fn json_get_member<'a>(v: &'a JsonValue, key: &str) -> (r: Option<&'a JsonValue>)
    ensures
        opt_json(r) == json_get(*v, key@),
{
    match v {
        JsonValue::Object(es) => {
            let mut i: usize = 0;
            while i < es.len()
                invariant
                    i <= es@.len(),
                    json_get(*v, key@) == json_member_from(es@, key@, i as int),
                decreases es.len() - i,
            {
                if crate::text::str_eq(es[i].0.as_str(), key) {
                    assert(es@[i as int].0@ == key@);
                    return Some(&es[i].1);
                }
                i = i + 1;
            }
            None
        },
        _ => None,
    }
}

/// The string member `key` of an object, if it is one.
pub fn json_str_member(v: &JsonValue, key: &str) -> (r: Option<String>)
    ensures
        crate::report::opt_view(r) == json_as_str(json_get(*v, key@)),
{
    match json_get_member(v, key) {
        Some(JsonValue::Str(s)) => Some(s.clone()),
        _ => None,
    }
}

/// The boolean member `key` of an object, `false` where it is not one.
pub fn json_flag_member(v: &JsonValue, key: &str) -> (r: bool)
    ensures
        r == json_as_flag(json_get(*v, key@)),
{
    match json_get_member(v, key) {
        Some(JsonValue::Bool(b)) => *b,
        _ => false,
    }
}

// ---- TOML lookups ----
/// The value of the first entry of `es`, from position `i` on, named `key`.
pub open spec fn toml_entry_from(es: Seq<(String, TomlValue)>, key: Seq<char>, i: int) -> Option<TomlValue>
    decreases es.len() - i,
{
    if i < 0 || i >= es.len() {
        None
    } else if es[i].0@ == key {
        Some(es[i].1)
    } else {
        toml_entry_from(es, key, i + 1)
    }
}

/// `value.get(key)`: the entry `key` of a table.
pub open spec fn toml_get(v: TomlValue, key: Seq<char>) -> Option<TomlValue> {
    match v {
        TomlValue::Table(es) => toml_entry_from(es@, key, 0),
        _ => None,
    }
}

/// `as_str` of an optional value.
pub open spec fn toml_as_str(v: Option<TomlValue>) -> Option<Seq<char>> {
    match v {
        Some(TomlValue::String(s)) => Some(s@),
        _ => None,
    }
}

pub open spec fn opt_toml(r: Option<&TomlValue>) -> Option<TomlValue> {
    match r {
        Some(x) => Some(*x),
        None => None,
    }
}

/// The entry `key` of a table.
pub fn toml_get_entry<'a>(v: &'a TomlValue, key: &str) -> (r: Option<&'a TomlValue>)
    ensures
        opt_toml(r) == toml_get(*v, key@),
{
    match v {
        TomlValue::Table(es) => {
            let mut i: usize = 0;
            while i < es.len()
                invariant
                    i <= es@.len(),
                    toml_get(*v, key@) == toml_entry_from(es@, key@, i as int),
                decreases es.len() - i,
            {
                if crate::text::str_eq(es[i].0.as_str(), key) {
                    assert(es@[i as int].0@ == key@);
                    return Some(&es[i].1);
                }
                i = i + 1;
            }
            None
        },
        _ => None,
    }
}

/// The string entry `key` of a table, if it is one.
pub fn toml_str_entry(v: &TomlValue, key: &str) -> (r: Option<String>)
    ensures
        crate::report::opt_view(r) == toml_as_str(toml_get(*v, key@)),
{
    match toml_get_entry(v, key) {
        Some(TomlValue::String(s)) => Some(s.clone()),
        _ => None,
    }
}

// ---- YAML lookups ----
/// The value under its tags.
pub open spec fn yaml_untag(v: YamlValue) -> YamlValue
    decreases v,
{
    match v {
        YamlValue::Tagged(_, inner) => yaml_untag(*inner),
        _ => v,
    }
}

/// The value of the first entry of `es`, from position `i` on, whose key is
/// the (untagged) string `key`.
pub open spec fn yaml_entry_from(es: Seq<(YamlValue, YamlValue)>, key: Seq<char>, i: int) -> Option<YamlValue>
    decreases es.len() - i,
{
    if i < 0 || i >= es.len() {
        None
    } else if es[i].0 matches YamlValue::Str(s) && s@ == key {
        Some(es[i].1)
    } else {
        yaml_entry_from(es, key, i + 1)
    }
}

/// `value.get(key)`: the entry `key` of a mapping, under any tags.
pub open spec fn yaml_get(v: YamlValue, key: Seq<char>) -> Option<YamlValue> {
    match yaml_untag(v) {
        YamlValue::Mapping(es) => yaml_entry_from(es@, key, 0),
        _ => None,
    }
}

/// `as_str`, under any tags.
pub open spec fn yaml_as_str(v: YamlValue) -> Option<Seq<char>> {
    match yaml_untag(v) {
        YamlValue::Str(s) => Some(s@),
        _ => None,
    }
}

pub open spec fn opt_yaml(r: Option<&YamlValue>) -> Option<YamlValue> {
    match r {
        Some(x) => Some(*x),
        None => None,
    }
}

/// The value under its tags.
pub fn untag(v: &YamlValue) -> (r: &YamlValue)
    ensures
        *r == yaml_untag(*v),
    decreases v,
{
    match v {
        YamlValue::Tagged(_, inner) => untag(inner),
        _ => v,
    }
}

/// The entry `key` of a mapping.
pub fn yaml_get_entry<'a>(v: &'a YamlValue, key: &str) -> (r: Option<&'a YamlValue>)
    ensures
        opt_yaml(r) == yaml_get(*v, key@),
{
    match untag(v) {
        YamlValue::Mapping(es) => {
            let mut i: usize = 0;
            while i < es.len()
                invariant
                    i <= es@.len(),
                    yaml_get(*v, key@) == yaml_entry_from(es@, key@, i as int),
                decreases es.len() - i,
            {
                if let YamlValue::Str(s) = &es[i].0 {
                    if crate::text::str_eq(s.as_str(), key) {
                        assert(es@[i as int].0 matches YamlValue::Str(t) && t@ == key@);
                        return Some(&es[i].1);
                    }
                }
                i = i + 1;
            }
            None
        },
        _ => None,
    }
}

/// The string a value holds, under any tags.
pub fn yaml_str(v: &YamlValue) -> (r: Option<String>)
    ensures
        crate::report::opt_view(r) == yaml_as_str(*v),
{
    match untag(v) {
        YamlValue::Str(s) => Some(s.clone()),
        _ => None,
    }
}

/// The string entry `key` of a mapping, if it is one.
pub fn yaml_str_entry(v: &YamlValue, key: &str) -> (r: Option<String>)
    ensures
        crate::report::opt_view(r) == match yaml_get(*v, key@) {
            Some(x) => yaml_as_str(x),
            None => None,
        },
{
    match yaml_get_entry(v, key) {
        Some(x) => yaml_str(x),
        None => None,
    }
}

} // verus!

