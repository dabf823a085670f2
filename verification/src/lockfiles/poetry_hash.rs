//! Poetry's `content-hash`: the SHA-256 of a canonical JSON rendering of
//! the parts of `pyproject.toml` that decide the lock.
use vstd::prelude::*;
use sha2::Digest;
use crate::lockfiles::{join, join_strings, strings_view};
use crate::order::{insert_sorted, sorted_insert, svs};
use crate::text::{push_str, str_eq, string_of_str, string_push};

verus! {

/// A TOML document. A float is held as the JSON text that `serde_json`
/// writes for it (what the content hash renders), and a date-time as the
/// text TOML writes for it. A table lists its entries in the order the
/// parser keeps them (keys are distinct).
#[derive(Debug)]
pub enum TomlValue {
    String(String),
    Integer(i64),
    Float(String),
    Boolean(bool),
    Datetime(String),
    Array(Vec<TomlValue>),
    Table(Vec<(String, TomlValue)>),
}

/// A lowercase hexadecimal digit.
pub open spec fn hex_digit(d: int) -> char {
    if d < 10 {
        ((d + '0' as int) as u32) as char
    } else {
        ((d - 10 + 'a' as int) as u32) as char
    }
}

/// How a JSON string literal writes one character: `"` and `\` behind a
/// backslash; backspace, form feed, newline, carriage return and tab by
/// their short escapes; the other control characters below U+0020 as
/// `\u00XX` in lowercase hex; every other character as itself.
pub open spec fn escape_json_char(c: char) -> Seq<char> {
    if c == '"' {
        seq!['\\', '"']
    } else if c == '\\' {
        seq!['\\', '\\']
    } else if c == '\u{8}' {
        seq!['\\', 'b']
    } else if c == '\u{c}' {
        seq!['\\', 'f']
    } else if c == '\n' {
        seq!['\\', 'n']
    } else if c == '\r' {
        seq!['\\', 'r']
    } else if c == '\t' {
        seq!['\\', 't']
    } else if (c as int) < 0x20 {
        seq!['\\', 'u', '0', '0', hex_digit((c as int) / 16), hex_digit((c as int) % 16)]
    } else {
        seq![c]
    }
}

/// The characters of `s`, each escaped.
pub open spec fn escape_json_chars(s: Seq<char>) -> Seq<char>
    decreases s.len(),
{
    if s.len() == 0 {
        Seq::empty()
    } else {
        escape_json_chars(s.drop_last()) + escape_json_char(s.last())
    }
}

/// What `serde_json::to_string` gives for a string: the string between
/// double quotes, its characters escaped; it never fails for a string.
pub open spec fn json_string_text(s: Seq<char>) -> Result<Seq<char>, Seq<char>> {
    Ok(seq!['"'] + escape_json_chars(s) + seq!['"'])
}

pub open spec fn result_text(r: Result<String, String>) -> Result<Seq<char>, Seq<char>> {
    match r {
        Ok(t) => Ok(t@),
        Err(e) => Err(e@),
    }
}

/// `serde_json::to_string` of a string (`format_escaped_str` with the
/// compact formatter: a quote, each byte by the `ESCAPE` table, a quote);
/// writing into a `Vec` does not fail.
#[verifier::external_body]
fn json_string(s: &str) -> (r: Result<String, String>)
    ensures
        result_text(r) == json_string_text(s@),
{
    match serde_json::to_string(s) {
        Ok(t) => Ok(t),
        Err(e) => Err(e.to_string()),
    }
}

/// The hexadecimal SHA-256 digest of a text's UTF-8 bytes.
pub uninterp spec fn sha256_hex_text(s: Seq<char>) -> Seq<char>;

/// SHA-256 of `s`'s bytes (`sha2::Sha256`), as lowercase hex.
#[verifier::external_body]
fn sha256_hex(s: &str) -> (r: String)
    ensures
        r@ == sha256_hex_text(s@),
{
    let mut hasher = sha2::Sha256::new();
    hasher.update(s.as_bytes());
    format!("{:x}", hasher.finalize())
}

// ---- integers ----
pub open spec fn digit_char(d: int) -> char {
    if d == 0 {
        '0'
    } else if d == 1 {
        '1'
    } else if d == 2 {
        '2'
    } else if d == 3 {
        '3'
    } else if d == 4 {
        '4'
    } else if d == 5 {
        '5'
    } else if d == 6 {
        '6'
    } else if d == 7 {
        '7'
    } else if d == 8 {
        '8'
    } else {
        '9'
    }
}

/// The decimal digits of `n`.
pub open spec fn nat_text(n: nat) -> Seq<char>
    decreases n,
{
    if n < 10 {
        seq![digit_char(n as int)]
    } else {
        nat_text(n / 10) + seq![digit_char((n % 10) as int)]
    }
}

/// An integer as `Display` writes it.
pub open spec fn int_text(n: int) -> Seq<char> {
    if n < 0 {
        seq!['-'] + nat_text((-n) as nat)
    } else {
        nat_text(n as nat)
    }
}

fn digit(d: u64) -> (c: char)
    requires
        d < 10,
    ensures
        c == digit_char(d as int),
{
    if d == 0 {
        '0'
    } else if d == 1 {
        '1'
    } else if d == 2 {
        '2'
    } else if d == 3 {
        '3'
    } else if d == 4 {
        '4'
    } else if d == 5 {
        '5'
    } else if d == 6 {
        '6'
    } else if d == 7 {
        '7'
    } else if d == 8 {
        '8'
    } else {
        '9'
    }
}

fn push_digits(out: &mut String, n: u64)
    ensures
        final(out)@ == old(out)@ + nat_text(n as nat),
    decreases n,
{
    if n < 10 {
        string_push(out, digit(n));
    } else {
        push_digits(out, n / 10);
        string_push(out, digit(n % 10));
        assert(final(out)@ =~= old(out)@ + nat_text(n as nat));
    }
}

/// `n.to_string()`.
pub fn integer_text(n: i64) -> (r: String)
    ensures
        r@ == int_text(n as int),
{
    let mut out = string_of_str("");
    proof {
        reveal_strlit("");
    }
    if n < 0 {
        string_push(&mut out, '-');
        let m: u64 = (0i128 - (n as i128)) as u64;
        push_digits(&mut out, m);
        assert(out@ =~= int_text(n as int));
    } else {
        push_digits(&mut out, n as u64);
        assert(out@ =~= int_text(n as int));
    }
    out
}

// ---- canonical JSON ----
/// The keys of a table's entries.
pub open spec fn key_seq(es: Seq<(String, TomlValue)>) -> Seq<Seq<char>> {
    es.map_values(|e: (String, TomlValue)| e.0@)
}

/// `ks` in `String` order, each once.
pub open spec fn sort_keys(ks: Seq<Seq<char>>) -> Seq<Seq<char>>
    decreases ks.len(),
{
    if ks.len() == 0 {
        Seq::empty()
    } else {
        sorted_insert(sort_keys(ks.drop_last()), ks.last())
    }
}

/// Position of the first entry with key `k` (the length where none has).
pub open spec fn key_index(es: Seq<(String, TomlValue)>, k: Seq<char>) -> int
    decreases es.len(),
{
    if es.len() == 0 {
        0
    } else if es[0].0@ == k {
        0
    } else {
        1 + key_index(es.drop_first(), k)
    }
}

/// `"k": v` for each of the sorted `keys` with its value's text, the
/// first failure (of a key, then of its value) in that order.
pub open spec fn object_parts(keys: Seq<Seq<char>>, vals: Seq<Result<Seq<char>, Seq<char>>>, n: nat) -> Result<
    Seq<Seq<char>>,
    Seq<char>,
>
    decreases n,
{
    if n == 0 {
        Ok(Seq::empty())
    } else {
        match object_parts(keys, vals, (n - 1) as nat) {
            Err(e) => Err(e),
            Ok(parts) => match json_string_text(keys[n - 1]) {
                Err(e) => Err(e),
                Ok(k) => match vals[n - 1] {
                    Err(e) => Err(e),
                    Ok(v) => Ok(parts.push(k + ": "@ + v)),
                },
            },
        }
    }
}

/// A JSON object from sorted keys and their values' texts.
pub open spec fn object_text(keys: Seq<Seq<char>>, vals: Seq<Result<Seq<char>, Seq<char>>>) -> Result<Seq<char>, Seq<char>> {
    match object_parts(keys, vals, keys.len()) {
        Ok(parts) => Ok(seq!['{'] + join(parts, ", "@) + seq!['}']),
        Err(e) => Err(e),
    }
}

/// The canonical JSON of a TOML value: strings and date-times as JSON
/// strings, numbers and booleans as written, arrays in order and tables
/// by sorted key, items separated by `, ` and keys from values by `: `.
pub open spec fn canonical_json(v: TomlValue) -> Result<Seq<char>, Seq<char>>
    decreases v, 0nat,
{
    match v {
        TomlValue::String(s) => json_string_text(s@),
        TomlValue::Integer(n) => Ok(int_text(n as int)),
        TomlValue::Float(t) => Ok(t@),
        TomlValue::Boolean(b) => Ok(
            if b {
                "true"@
            } else {
                "false"@
            },
        ),
        TomlValue::Datetime(t) => json_string_text(t@),
        TomlValue::Array(items) => match canonical_items(items@, items@.len()) {
            Ok(parts) => Ok(seq!['['] + join(parts, ", "@) + seq![']']),
            Err(e) => Err(e),
        },
        TomlValue::Table(es) => {
            let keys = sort_keys(key_seq(es@));
            object_text(keys, canonical_values(es@, keys, keys.len()))
        },
    }
}

/// The texts of the first `n` items, or the first failure.
pub open spec fn canonical_items(items: Seq<TomlValue>, n: nat) -> Result<Seq<Seq<char>>, Seq<char>>
    decreases items, n,
{
    if n == 0 || n > items.len() {
        Ok(Seq::empty())
    } else {
        match canonical_items(items, (n - 1) as nat) {
            Err(e) => Err(e),
            Ok(parts) => match canonical_json(items[n - 1]) {
                Err(e) => Err(e),
                Ok(p) => Ok(parts.push(p)),
            },
        }
    }
}

/// The texts of the values of the first `n` of `keys`, each from the
/// first entry with that key.
pub open spec fn canonical_values(es: Seq<(String, TomlValue)>, keys: Seq<Seq<char>>, n: nat) -> Seq<
    Result<Seq<char>, Seq<char>>,
>
    decreases es, n,
{
    if n == 0 || n > keys.len() {
        Seq::empty()
    } else {
        let i = key_index(es, keys[n - 1]);
        canonical_values(es, keys, (n - 1) as nat).push(
            if 0 <= i < es.len() {
                canonical_json(es[i].1)
            } else {
                Ok(Seq::empty())
            },
        )
    }
}

/// The keys of `es`, sorted (see `sort_keys`).
fn sorted_keys(es: &Vec<(String, TomlValue)>) -> (r: Vec<String>)
    ensures
        svs(r@) == sort_keys(key_seq(es@)),
{
    let ghost ks = key_seq(es@);
    let mut out: Vec<String> = Vec::new();
    let mut i: usize = 0;
    assert(ks.subrange(0, 0) =~= Seq::<Seq<char>>::empty());
    assert(svs(out@) =~= Seq::<Seq<char>>::empty());
    while i < es.len()
        invariant
            i <= es@.len(),
            ks == key_seq(es@),
            svs(out@) == sort_keys(ks.subrange(0, i as int)),
        decreases es.len() - i,
    {
        assert(ks.subrange(0, i + 1).drop_last() == ks.subrange(0, i as int));
        assert(ks.subrange(0, i + 1).last() == es@[i as int].0@);
        insert_sorted(&mut out, es[i].0.clone());
        i = i + 1;
    }
    assert(ks.subrange(0, ks.len() as int) == ks);
    out
}

/// Position of the first entry with key `k` (see `key_index`).
fn entry_index(es: &Vec<(String, TomlValue)>, k: &str) -> (r: usize)
    ensures
        r as int == key_index(es@, k@),
        r <= es@.len(),
{
    let mut i: usize = 0;
    assert(es@.subrange(0, es@.len() as int) == es@);
    while i < es.len()
        invariant
            i <= es@.len(),
            key_index(es@, k@) == i + key_index(es@.subrange(i as int, es@.len() as int), k@),
        decreases es.len() - i,
    {
        let ghost rest = es@.subrange(i as int, es@.len() as int);
        assert(rest[0] == es@[i as int]);
        if str_eq(es[i].0.as_str(), k) {
            return i;
        }
        assert(rest.drop_first() == es@.subrange(i + 1, es@.len() as int));
        i = i + 1;
    }
    assert(es@.subrange(i as int, es@.len() as int).len() == 0);
    i
}

pub open spec fn results_text(v: Seq<Result<String, String>>) -> Seq<Result<Seq<char>, Seq<char>>> {
    v.map_values(|r: Result<String, String>| result_text(r))
}

/// A JSON object from sorted keys and their values' texts (see
/// `object_text`).
fn object_from(keys: &Vec<String>, vals: &Vec<Result<String, String>>) -> (r: Result<String, String>)
    requires
        keys@.len() == vals@.len(),
    ensures
        result_text(r) == object_text(svs(keys@), results_text(vals@)),
{
    let ghost ks = svs(keys@);
    let ghost vs = results_text(vals@);
    let mut parts: Vec<String> = Vec::new();
    let mut i: usize = 0;
    assert(strings_view(parts@) =~= Seq::<Seq<char>>::empty());
    while i < keys.len()
        invariant
            i <= keys@.len() == vals@.len(),
            ks == svs(keys@),
            vs == results_text(vals@),
            object_parts(ks, vs, i as nat) == Ok::<Seq<Seq<char>>, Seq<char>>(strings_view(parts@)),
        decreases keys.len() - i,
    {
        assert(ks[i as int] == keys@[i as int]@);
        assert(vs[i as int] == result_text(vals@[i as int]));
        let k = match json_string(keys[i].as_str()) {
            Ok(k) => k,
            Err(e) => {
                proof {
                    assert(object_parts(ks, vs, keys@.len() as nat) == Err::<Seq<Seq<char>>, Seq<char>>(e@)) by {
                        lemma_object_parts_err(ks, vs, (i + 1) as nat, keys@.len() as nat);
                    }
                }
                return Err(e);
            },
        };
        let v = match &vals[i] {
            Ok(v) => v,
            Err(e) => {
                proof {
                    lemma_object_parts_err(ks, vs, (i + 1) as nat, keys@.len() as nat);
                }
                return Err(e.clone());
            },
        };
        let mut part = k;
        push_str(&mut part, ": ");
        push_str(&mut part, v.as_str());
        let ghost before = strings_view(parts@);
        parts.push(part);
        assert(strings_view(parts@) =~= before.push(part@));
        i = i + 1;
    }
    let mut out = string_of_str("");
    string_push(&mut out, '{');
    let joined = join_strings(&parts, ", ");
    push_str(&mut out, joined.as_str());
    string_push(&mut out, '}');
    proof {
        reveal_strlit("");
    }
    assert(out@ =~= seq!['{'] + join(strings_view(parts@), ", "@) + seq!['}']);
    Ok(out)
}

/// A failure among the first `m` parts stays the result of the first `n`.
proof fn lemma_object_parts_err(
    keys: Seq<Seq<char>>,
    vals: Seq<Result<Seq<char>, Seq<char>>>,
    m: nat,
    n: nat,
)
    requires
        m <= n,
        object_parts(keys, vals, m) is Err,
    ensures
        object_parts(keys, vals, n) == object_parts(keys, vals, m),
    decreases n - m,
{
    if n > m {
        lemma_object_parts_err(keys, vals, m, (n - 1) as nat);
    }
}

/// A failure among the first `m` items stays the result of the first `n`.
proof fn lemma_items_err(items: Seq<TomlValue>, m: nat, n: nat)
    requires
        m <= n <= items.len(),
        canonical_items(items, m) is Err,
    ensures
        canonical_items(items, n) == canonical_items(items, m),
    decreases n - m,
{
    if n > m {
        lemma_items_err(items, m, (n - 1) as nat);
    }
}

/// The canonical JSON of a TOML value (see `canonical_json`).
pub fn canonical_json_from_toml(value: &TomlValue) -> (r: Result<String, String>)
    ensures
        result_text(r) == canonical_json(*value),
    decreases value,
{
    match value {
        TomlValue::String(s) => json_string(s.as_str()),
        TomlValue::Integer(n) => Ok(integer_text(*n)),
        TomlValue::Float(t) => Ok(t.clone()),
        TomlValue::Boolean(b) => {
            proof {
                reveal_strlit("true");
                reveal_strlit("false");
            }
            if *b {
                Ok(string_of_str("true"))
            } else {
                Ok(string_of_str("false"))
            }
        },
        TomlValue::Datetime(t) => json_string(t.as_str()),
        TomlValue::Array(items) => {
            let mut parts: Vec<String> = Vec::new();
            let mut i: usize = 0;
            assert(strings_view(parts@) =~= Seq::<Seq<char>>::empty());
            while i < items.len()
                invariant
                    i <= items@.len(),
                    *value == TomlValue::Array(*items),
                    canonical_items(items@, i as nat) == Ok::<Seq<Seq<char>>, Seq<char>>(strings_view(parts@)),
                decreases items.len() - i,
            {
                proof {
                    assert(decreases_to!(*value => *items));
                    assert(decreases_to!(*items => items@));
                    assert(decreases_to!(items@ => items@[i as int]));
                }
                let p = match canonical_json_from_toml(&items[i]) {
                    Ok(p) => p,
                    Err(e) => {
                        proof {
                            lemma_items_err(items@, (i + 1) as nat, items@.len() as nat);
                        }
                        return Err(e);
                    },
                };
                let ghost before = strings_view(parts@);
                parts.push(p);
                assert(strings_view(parts@) =~= before.push(p@));
                i = i + 1;
            }
            let mut out = string_of_str("");
            string_push(&mut out, '[');
            let joined = join_strings(&parts, ", ");
            push_str(&mut out, joined.as_str());
            string_push(&mut out, ']');
            proof {
                reveal_strlit("");
            }
            assert(out@ =~= seq!['['] + join(strings_view(parts@), ", "@) + seq![']']);
            Ok(out)
        },
        TomlValue::Table(es) => {
            let keys = sorted_keys(es);
            let ghost ks = svs(keys@);
            let mut vals: Vec<Result<String, String>> = Vec::new();
            let mut i: usize = 0;
            assert(results_text(vals@) =~= Seq::<Result<Seq<char>, Seq<char>>>::empty());
            while i < keys.len()
                invariant
                    i <= keys@.len(),
                    *value == TomlValue::Table(*es),
                    ks == svs(keys@),
                    ks == sort_keys(key_seq(es@)),
                    vals@.len() == i,
                    results_text(vals@) == canonical_values(es@, ks, i as nat),
                decreases keys.len() - i,
            {
                assert(ks[i as int] == keys@[i as int]@);
                let idx = entry_index(es, keys[i].as_str());
                let v = if idx < es.len() {
                    proof {
                        assert(*es == (*value)->Table_0);
                        assert(decreases_to!(*value => (*value)->Table_0));
                        assert(decreases_to!(*es => es@));
                        assert(decreases_to!(es@ => es@[idx as int]));
                        assert(decreases_to!(es@[idx as int] => es@[idx as int].1));
                    }
                    canonical_json_from_toml(&es[idx].1)
                } else {
                    Ok(String::new())
                };
                let ghost before = results_text(vals@);
                vals.push(v);
                assert(results_text(vals@) =~= before.push(result_text(v)));
                i = i + 1;
            }
            object_from(&keys, &vals)
        },
    }
}

// ---- the content hash ----
/// The value under `k` of a table value (none for other values).
pub open spec fn value_get(v: Option<TomlValue>, k: Seq<char>) -> Option<TomlValue> {
    match v {
        Some(TomlValue::Table(es)) => {
            let i = key_index(es@, k);
            if i < es@.len() {
                Some(es@[i].1)
            } else {
                None
            }
        },
        _ => None,
    }
}

/// The value itself where it is a table.
pub open spec fn as_table(v: Option<TomlValue>) -> Option<TomlValue> {
    match v {
        Some(TomlValue::Table(es)) => Some(TomlValue::Table(es)),
        _ => None,
    }
}

/// The entries of the virtual table made of the `keys` that `t` has.
pub open spec fn present_members(t: Option<TomlValue>, keys: Seq<Seq<char>>) -> Seq<(Seq<char>, TomlValue)>
    decreases keys.len(),
{
    if keys.len() == 0 {
        Seq::empty()
    } else {
        let r = present_members(t, keys.drop_last());
        match value_get(t, keys.last()) {
            Some(v) => r.push((keys.last(), v)),
            None => r,
        }
    }
}

pub open spec fn member_texts(ms: Seq<(Seq<char>, TomlValue)>) -> Seq<(Seq<char>, Result<Seq<char>, Seq<char>>)> {
    ms.map_values(|m: (Seq<char>, TomlValue)| (m.0, canonical_json(m.1)))
}

/// The text of the first member named `k`.
pub open spec fn member_value(ms: Seq<(Seq<char>, Result<Seq<char>, Seq<char>>)>, k: Seq<char>) -> Result<Seq<char>, Seq<char>>
    decreases ms.len(),
{
    if ms.len() == 0 {
        Ok(Seq::empty())
    } else if ms[0].0 == k {
        ms[0].1
    } else {
        member_value(ms.drop_first(), k)
    }
}

/// The JSON object of a virtual table whose members' texts are given.
pub open spec fn members_object(ms: Seq<(Seq<char>, Result<Seq<char>, Seq<char>>)>) -> Result<Seq<char>, Seq<char>> {
    let keys = sort_keys(ms.map_values(|m: (Seq<char>, Result<Seq<char>, Seq<char>>)| m.0));
    object_text(keys, keys.map_values(|k: Seq<char>| member_value(ms, k)))
}

pub open spec fn project_keys() -> Seq<Seq<char>> {
    seq!["requires-python"@, "dependencies"@, "optional-dependencies"@]
}

pub open spec fn poetry_keys() -> Seq<Seq<char>> {
    seq!["dependencies"@, "source"@, "extras"@, "dev-dependencies"@, "group"@]
}

/// The canonical JSON of what decides a Poetry lock: the `[project]`
/// keys `requires-python`, `dependencies` and `optional-dependencies`, the
/// `[dependency-groups]` table (where it is counted), and the
/// `[tool.poetry]` keys `dependencies`, `source`, `extras`,
/// `dev-dependencies` and `group`. Where neither of the first two is
/// there, only the `[tool.poetry]` part is hashed; else it is nested under
/// `tool.poetry` beside them.
pub open spec fn relevant_json(pyproject: TomlValue, with_dependency_groups: bool) -> Result<Seq<char>, Seq<char>> {
    let project = as_table(value_get(Some(pyproject), "project"@));
    let groups = if with_dependency_groups {
        as_table(value_get(Some(pyproject), "dependency-groups"@))
    } else {
        None
    };
    let tool_poetry = as_table(value_get(value_get(Some(pyproject), "tool"@), "poetry"@));
    let pm = present_members(project, project_keys());
    let poetry = members_object(member_texts(present_members(tool_poetry, poetry_keys())));
    if pm.len() > 0 || groups is Some {
        let groups_member = match groups {
            Some(TomlValue::Table(g)) => if g@.len() > 0 {
                seq![("dependency-groups"@, canonical_json(TomlValue::Table(g)))]
            } else {
                Seq::empty()
            },
            _ => Seq::empty(),
        };
        let top = (if pm.len() > 0 {
            seq![("project"@, members_object(member_texts(pm)))]
        } else {
            Seq::empty()
        }) + groups_member + seq![("tool"@, members_object(seq![("poetry"@, poetry)]))];
        members_object(top)
    } else {
        poetry
    }
}

/// Poetry's `content-hash` of a `pyproject.toml`, counting
/// `[dependency-groups]` or not.
pub open spec fn spec_content_hash(pyproject: TomlValue, with_dependency_groups: bool) -> Result<Seq<char>, Seq<char>> {
    match relevant_json(pyproject, with_dependency_groups) {
        Ok(t) => Ok(sha256_hex_text(t)),
        Err(e) => Err(e),
    }
}

/// The value under `k` of a table value (see `value_get`).
fn table_value<'a>(v: Option<&'a TomlValue>, k: &str) -> (r: Option<&'a TomlValue>)
    ensures
        match r {
            Some(x) => value_get(opt_value(v), k@) == Some(*x),
            None => value_get(opt_value(v), k@) is None,
        },
{
    match v {
        Some(TomlValue::Table(es)) => {
            let i = entry_index(es, k);
            if i < es.len() {
                Some(&es[i].1)
            } else {
                None
            }
        },
        _ => None,
    }
}

pub open spec fn opt_value(v: Option<&TomlValue>) -> Option<TomlValue> {
    match v {
        Some(x) => Some(*x),
        None => None,
    }
}

fn table_only<'a>(v: Option<&'a TomlValue>) -> (r: Option<&'a TomlValue>)
    ensures
        opt_value(r) == as_table(opt_value(v)),
{
    match v {
        Some(TomlValue::Table(es)) => v,
        _ => None,
    }
}

pub open spec fn members_view(ms: Seq<(String, Result<String, String>)>) -> Seq<(Seq<char>, Result<Seq<char>, Seq<char>>)> {
    ms.map_values(|m: (String, Result<String, String>)| (m.0@, result_text(m.1)))
}

/// The JSON object of a virtual table (see `members_object`).
fn members_object_text(ms: &Vec<(String, Result<String, String>)>) -> (r: Result<String, String>)
    ensures
        result_text(r) == members_object(members_view(ms@)),
{
    let ghost mv = members_view(ms@);
    let ghost names = mv.map_values(|m: (Seq<char>, Result<Seq<char>, Seq<char>>)| m.0);
    let mut keys: Vec<String> = Vec::new();
    let mut i: usize = 0;
    assert(names.subrange(0, 0) =~= Seq::<Seq<char>>::empty());
    assert(svs(keys@) =~= Seq::<Seq<char>>::empty());
    while i < ms.len()
        invariant
            i <= ms@.len(),
            mv == members_view(ms@),
            names == mv.map_values(|m: (Seq<char>, Result<Seq<char>, Seq<char>>)| m.0),
            svs(keys@) == sort_keys(names.subrange(0, i as int)),
        decreases ms.len() - i,
    {
        assert(names.subrange(0, i + 1).drop_last() == names.subrange(0, i as int));
        assert(names.subrange(0, i + 1).last() == ms@[i as int].0@);
        insert_sorted(&mut keys, ms[i].0.clone());
        i = i + 1;
    }
    assert(names.subrange(0, names.len() as int) == names);
    let ghost ks = svs(keys@);
    let mut vals: Vec<Result<String, String>> = Vec::new();
    let mut j: usize = 0;
    assert(results_text(vals@) =~= Seq::<Result<Seq<char>, Seq<char>>>::empty());
    while j < keys.len()
        invariant
            j <= keys@.len(),
            ks == svs(keys@),
            mv == members_view(ms@),
            vals@.len() == j,
            results_text(vals@) == ks.subrange(0, j as int).map_values(|k: Seq<char>| member_value(mv, k)),
        decreases keys.len() - j,
    {
        let ghost k = keys@[j as int]@;
        let mut m: usize = 0;
        assert(mv.subrange(0, mv.len() as int) == mv);
        while m < ms.len() && !str_eq(ms[m].0.as_str(), keys[j].as_str())
            invariant
                m <= ms@.len(),
                j < keys@.len(),
                k == keys@[j as int]@,
                mv == members_view(ms@),
                member_value(mv, k) == member_value(mv.subrange(m as int, mv.len() as int), k),
            decreases ms.len() - m,
        {
            let ghost rest = mv.subrange(m as int, mv.len() as int);
            assert(rest[0] == mv[m as int]);
            assert(rest.drop_first() == mv.subrange(m + 1, mv.len() as int));
            m = m + 1;
        }
        let v = if m < ms.len() {
            let ghost rest = mv.subrange(m as int, mv.len() as int);
            assert(rest[0] == mv[m as int]);
            match &ms[m].1 {
                Ok(t) => Ok(t.clone()),
                Err(e) => Err(e.clone()),
            }
        } else {
            assert(mv.subrange(m as int, mv.len() as int).len() == 0);
            Ok(String::new())
        };
        let ghost before = results_text(vals@);
        vals.push(v);
        assert(results_text(vals@) =~= before.push(member_value(mv, k)));
        assert(ks.subrange(0, j + 1).map_values(|k: Seq<char>| member_value(mv, k)) =~= ks.subrange(
            0,
            j as int,
        ).map_values(|k: Seq<char>| member_value(mv, k)).push(member_value(mv, k)));
        j = j + 1;
    }
    assert(ks.subrange(0, ks.len() as int) == ks);
    object_from(&keys, &vals)
}

pub open spec fn strs_of(keys: Seq<&str>) -> Seq<Seq<char>> {
    keys.map_values(|k: &str| k@)
}

/// The texts of the members of the virtual table made of the `keys` that
/// `t` has (see `present_members`).
fn present_member_texts(t: Option<&TomlValue>, keys: &[&str]) -> (r: Vec<(String, Result<String, String>)>)
    ensures
        members_view(r@) == member_texts(present_members(opt_value(t), strs_of(keys@))),
{
    let ghost kv = strs_of(keys@);
    let mut out: Vec<(String, Result<String, String>)> = Vec::new();
    let mut i: usize = 0;
    assert(kv.subrange(0, 0) =~= Seq::<Seq<char>>::empty());
    assert(members_view(out@) =~= Seq::<(Seq<char>, Result<Seq<char>, Seq<char>>)>::empty());
    while i < keys.len()
        invariant
            i <= keys@.len(),
            kv == strs_of(keys@),
            members_view(out@) == member_texts(present_members(opt_value(t), kv.subrange(0, i as int))),
        decreases keys.len() - i,
    {
        assert(kv.subrange(0, i + 1).drop_last() == kv.subrange(0, i as int));
        assert(kv.subrange(0, i + 1).last() == keys@[i as int]@);
        let ghost before = present_members(opt_value(t), kv.subrange(0, i as int));
        match table_value(t, keys[i]) {
            Some(v) => {
                let text = canonical_json_from_toml(v);
                let ghost mv = members_view(out@);
                out.push((string_of_str(keys[i]), text));
                assert(members_view(out@) =~= mv.push((keys@[i as int]@, canonical_json(*v))));
                assert(member_texts(before.push((keys@[i as int]@, *v))) =~= member_texts(before).push(
                    (keys@[i as int]@, canonical_json(*v)),
                ));
            },
            None => {},
        }
        i = i + 1;
    }
    assert(kv.subrange(0, kv.len() as int) == kv);
    out
}

/// Poetry's `content-hash` of a `pyproject.toml` (see
/// `spec_content_hash`).
pub fn poetry_content_hash(pyproject: &TomlValue, with_dependency_groups: bool) -> (r: Result<String, String>)
    ensures
        result_text(r) == spec_content_hash(*pyproject, with_dependency_groups),
{
    let project = table_only(table_value(Some(pyproject), "project"));
    let groups = if with_dependency_groups {
        table_only(table_value(Some(pyproject), "dependency-groups"))
    } else {
        None
    };
    let tool_poetry = table_only(table_value(table_value(Some(pyproject), "tool"), "poetry"));
    let project_list = ["requires-python", "dependencies", "optional-dependencies"];
    let poetry_list = ["dependencies", "source", "extras", "dev-dependencies", "group"];
    assert(strs_of(project_list@) =~= project_keys());
    assert(strs_of(poetry_list@) =~= poetry_keys());
    let pm = present_member_texts(project, &project_list);
    let qm = present_member_texts(tool_poetry, &poetry_list);
    let poetry = members_object_text(&qm);
    let ghost spm = present_members(as_table(value_get(Some(*pyproject), "project"@)), project_keys());
    assert(members_view(pm@).len() == spm.len());
    let relevant = if pm.len() > 0 || groups.is_some() {
        let mut top: Vec<(String, Result<String, String>)> = Vec::new();
        if pm.len() > 0 {
            top.push((string_of_str("project"), members_object_text(&pm)));
        }
        if let Some(g) = groups {
            if let TomlValue::Table(es) = g {
                if es.len() > 0 {
                    top.push((string_of_str("dependency-groups"), canonical_json_from_toml(g)));
                }
            }
        }
        let mut tool: Vec<(String, Result<String, String>)> = Vec::new();
        tool.push((string_of_str("poetry"), poetry));
        top.push((string_of_str("tool"), members_object_text(&tool)));
        proof {
            assert(members_view(tool@) =~= seq![("poetry"@, members_object(members_view(qm@)))]);
            let gm = match as_table(value_get(Some(*pyproject), "dependency-groups"@)) {
                Some(TomlValue::Table(g)) => if with_dependency_groups && g@.len() > 0 {
                    seq![("dependency-groups"@, canonical_json(TomlValue::Table(g)))]
                } else {
                    Seq::empty()
                },
                _ => Seq::empty(),
            };
            assert(members_view(top@) =~= (if spm.len() > 0 {
                seq![("project"@, members_object(member_texts(spm)))]
            } else {
                Seq::empty()
            }) + gm + seq![("tool"@, members_object(members_view(tool@)))]);
        }
        members_object_text(&top)
    } else {
        poetry
    };
    match relevant {
        Ok(t) => Ok(sha256_hex(t.as_str())),
        Err(e) => Err(e),
    }
}

} // verus!
