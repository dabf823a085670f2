//! npm lockfiles, `bun.lock` and `package.json` read out of their parsed
//! JSON (or JSON5) documents.
use vstd::prelude::*;
use crate::assoc::{akeys_unique, find_key, lemma_amap_push_new};
use crate::documents::{
    JsonValue, json_as_flag, json_as_str, json_document, json_flag_member, json_get, json_get_member,
    json_member_from, json_str_member, opt_json, parse_json,
};
use crate::preflight::{spec_manifest_security_policy, validate_npm_manifest_security_policy};
use crate::text::{push_str, string_of_str};
use crate::js_workspaces::NpmWorkspacesValue;
use crate::report::opt_view;
use crate::text::chars_of;
use super::bun::{BunLockfile, BunSectionShape, BunSectionShapes, BunWorkspace, str_pairs};
use super::npm::{NpmEntry, NpmLockfile, NpmSections, NpmV1Entry};

verus! {

// ---- numbers ----
pub open spec fn is_decimal_digit(c: char) -> bool {
    '0' <= c && c <= '9'
}

/// The value of a string of decimal digits.
pub open spec fn decimal_value(t: Seq<char>) -> nat
    decreases t.len(),
{
    if t.len() == 0 {
        0
    } else {
        decimal_value(t.drop_last()) * 10 + (t.last() as nat - '0' as nat) as nat
    }
}

/// `as_u64` of a number's text: a non-empty run of decimal digits whose
/// value fits in `u64` (a float's text holds `.` or `e`, a negative one `-`).
pub open spec fn u64_of_text(t: Seq<char>) -> Option<u64> {
    if t.len() > 0 && (forall|i: int| 0 <= i < t.len() ==> is_decimal_digit(#[trigger] t[i]))
        && decimal_value(t) <= u64::MAX {
        Some(decimal_value(t) as u64)
    } else {
        None
    }
}

/// `get(key).and_then(as_u64).unwrap_or(0)`.
pub open spec fn u64_member_or_zero(v: JsonValue, key: Seq<char>) -> u64 {
    match json_get(v, key) {
        Some(JsonValue::Number(t)) => match u64_of_text(t@) {
            Some(n) => n,
            None => 0,
        },
        _ => 0,
    }
}

fn parse_u64_text(s: &str) -> (r: Option<u64>)
    ensures
        r == u64_of_text(s@),
{
    let cs = chars_of(s);
    if cs.len() == 0 {
        return None;
    }
    let mut n: u64 = 0;
    let mut i: usize = 0;
    while i < cs.len()
        invariant
            i <= cs@.len(),
            cs@ == s@,
            forall|j: int| 0 <= j < i ==> is_decimal_digit(#[trigger] cs@[j]),
            n as nat == decimal_value(cs@.subrange(0, i as int)),
        decreases cs.len() - i,
    {
        let c = cs[i];
        assert(cs@.subrange(0, i + 1).drop_last() == cs@.subrange(0, i as int));
        if !('0' <= c && c <= '9') {
            assert(!is_decimal_digit(s@[i as int]));
            return None;
        }
        let d = (c as u32 - '0' as u32) as u64;
        if n > (u64::MAX - d) / 10 {
            proof {
                assert(decimal_value(cs@.subrange(0, i + 1)) == n * 10 + d);
                assert(n * 10 + d > u64::MAX) by (nonlinear_arith)
                    requires
                        n > (u64::MAX - d) / 10,
                        d <= 9,
                ;
                if forall|k: int| 0 <= k < cs@.len() ==> is_decimal_digit(#[trigger] cs@[k]) {
                    lemma_prefix_value_bound(cs@, i as int + 1);
                }
            }
            return None;
        }
        assert(n * 10 + d <= u64::MAX) by (nonlinear_arith)
            requires
                n <= (u64::MAX - d) / 10,
                d <= 9,
        ;
        n = n * 10 + d;
        i = i + 1;
    }
    assert(cs@.subrange(0, cs@.len() as int) == cs@);
    Some(n)
}

/// A longer run of digits is worth at least as much as its prefix.
proof fn lemma_prefix_value_bound(t: Seq<char>, k: int)
    requires
        0 <= k <= t.len(),
        forall|i: int| 0 <= i < t.len() ==> is_decimal_digit(#[trigger] t[i]),
    ensures
        decimal_value(t.subrange(0, k)) <= decimal_value(t),
    decreases t.len() - k,
{
    if k < t.len() {
        lemma_prefix_value_bound(t, k + 1);
        assert(t.subrange(0, k + 1).drop_last() == t.subrange(0, k));
        assert(is_decimal_digit(t[k]));
    } else {
        assert(t.subrange(0, k) == t);
    }
}

fn u64_member_or_zero_of(v: &JsonValue, key: &str) -> (r: u64)
    ensures
        r == u64_member_or_zero(*v, key@),
{
    match json_get_member(v, key) {
        Some(JsonValue::Number(t)) => match parse_u64_text(t.as_str()) {
            Some(n) => n,
            None => 0,
        },
        _ => 0,
    }
}

// ---- dependency sections ----
pub open spec fn pair_keys(s: Seq<(Seq<char>, Seq<char>)>) -> Seq<Seq<char>> {
    s.map_values(|p: (Seq<char>, Seq<char>)| p.0)
}

/// The string-valued members of an object, in order, each name kept once
/// (its first occurrence).
pub open spec fn string_pairs(es: Seq<(String, JsonValue)>) -> Seq<(Seq<char>, Seq<char>)>
    decreases es.len(),
{
    if es.len() == 0 {
        Seq::empty()
    } else {
        let rest = string_pairs(es.drop_last());
        match es.last().1 {
            JsonValue::Str(s) => if pair_keys(rest).contains(es.last().0@) {
                rest
            } else {
                rest.push((es.last().0@, s@))
            },
            _ => rest,
        }
    }
}

/// A section's declarations: the string-valued members where it is an
/// object; none otherwise.
pub open spec fn section_pairs(v: Option<JsonValue>) -> Seq<(Seq<char>, Seq<char>)> {
    match v {
        Some(JsonValue::Object(es)) => string_pairs(es@),
        _ => Seq::empty(),
    }
}

/// The four dependency sections of an object, read.
pub open spec fn sections_match(v: JsonValue, s: NpmSections) -> bool {
    &&& s.wf()
    &&& str_pairs(s.dependencies@) == section_pairs(json_get(v, "dependencies"@))
    &&& str_pairs(s.dev_dependencies@) == section_pairs(json_get(v, "devDependencies"@))
    &&& str_pairs(s.optional_dependencies@) == section_pairs(json_get(v, "optionalDependencies"@))
    &&& str_pairs(s.peer_dependencies@) == section_pairs(json_get(v, "peerDependencies"@))
}

fn section_from(v: &JsonValue, key: &str) -> (r: Vec<(String, String)>)
    ensures
        akeys_unique(r@),
        str_pairs(r@) == section_pairs(json_get(*v, key@)),
{
    let mut out: Vec<(String, String)> = Vec::new();
    match json_get_member(v, key) {
        Some(JsonValue::Object(es)) => {
            let mut i: usize = 0;
            assert(es@.subrange(0, 0) == Seq::<(String, JsonValue)>::empty());
            while i < es.len()
                invariant
                    i <= es@.len(),
                    akeys_unique(out@),
                    str_pairs(out@) == string_pairs(es@.subrange(0, i as int)),
                decreases es.len() - i,
            {
                let ghost before = es@.subrange(0, i as int);
                assert(es@.subrange(0, i + 1).drop_last() == before);
                if let JsonValue::Str(s) = &es[i].1 {
                    let found = find_key(&out, es[i].0.as_str());
                    proof {
                        let ks = pair_keys(str_pairs(out@));
                        if found is Some {
                            let j = found->0 as int;
                            assert(ks[j] == es@[i as int].0@);
                        } else {
                            assert(!ks.contains(es@[i as int].0@)) by {
                                if ks.contains(es@[i as int].0@) {
                                    let j = choose|j: int| 0 <= j < ks.len() && ks[j] == es@[i as int].0@;
                                    assert(out@[j].0@ == es@[i as int].0@);
                                }
                            }
                        }
                    }
                    if found.is_none() {
                        let p = (es[i].0.clone(), s.clone());
                        proof {
                            lemma_amap_push_new(out@, p);
                        }
                        out.push(p);
                        assert(str_pairs(out@) == str_pairs(out@.drop_last()).push((p.0@, p.1@)));
                    }
                }
                i = i + 1;
            }
            assert(es@.subrange(0, es@.len() as int) == es@);
        },
        _ => {},
    }
    out
}

/// The four dependency sections of an object (a `package.json`, or a
/// lockfile entry).
pub fn sections_from(v: &JsonValue) -> (r: NpmSections)
    ensures
        sections_match(*v, r),
{
    NpmSections {
        dependencies: section_from(v, "dependencies"),
        dev_dependencies: section_from(v, "devDependencies"),
        optional_dependencies: section_from(v, "optionalDependencies"),
        peer_dependencies: section_from(v, "peerDependencies"),
    }
}

// ---- npm lockfiles ----
/// A lockfile entry: an object gives its strings, flags and sections;
/// anything else gives nothing.
pub open spec fn npm_entry_matches(v: JsonValue, e: Option<NpmEntry>) -> bool {
    match v {
        JsonValue::Object(_) => e matches Some(x) && opt_view(x.name) == json_as_str(json_get(v, "name"@))
            && opt_view(x.version) == json_as_str(json_get(v, "version"@)) && opt_view(x.resolved)
            == json_as_str(json_get(v, "resolved"@)) && opt_view(x.integrity) == json_as_str(
            json_get(v, "integrity"@),
        ) && x.link == json_as_flag(json_get(v, "link"@)) && x.in_bundle == json_as_flag(
            json_get(v, "inBundle"@),
        ) && x.bundled == json_as_flag(json_get(v, "bundled"@)) && sections_match(v, x.sections),
        _ => e is None,
    }
}

fn npm_entry_from(v: &JsonValue) -> (r: Option<NpmEntry>)
    ensures
        npm_entry_matches(*v, r),
{
    match v {
        JsonValue::Object(_) => Some(
            NpmEntry {
                name: json_str_member(v, "name"),
                version: json_str_member(v, "version"),
                resolved: json_str_member(v, "resolved"),
                integrity: json_str_member(v, "integrity"),
                link: json_flag_member(v, "link"),
                in_bundle: json_flag_member(v, "inBundle"),
                bundled: json_flag_member(v, "bundled"),
                sections: sections_from(v),
            },
        ),
        _ => None,
    }
}

/// A member found by name is one of the members.
pub proof fn lemma_member_found(es: Seq<(String, JsonValue)>, key: Seq<char>, i: int)
    requires
        json_member_from(es, key, i) is Some,
    ensures
        exists|j: int| 0 <= j < es.len() && es[j].1 == json_member_from(es, key, i)->0,
    decreases es.len() - i,
{
    if 0 <= i < es.len() && es[i].0@ != key {
        lemma_member_found(es, key, i + 1);
    }
}

/// The members of an entry's own `dependencies` object, where it has one.
pub open spec fn v1_children(v: JsonValue) -> Option<Seq<(String, JsonValue)>> {
    match json_get(v, "dependencies"@) {
        Some(JsonValue::Object(ces)) => Some(ces@),
        _ => None,
    }
}

/// The v1 `dependencies` tree in document order, each member followed by
/// the members of its own `dependencies` object one level deeper (not
/// followed past `usize::MAX` levels).
pub open spec fn flat_v1(es: Seq<(String, JsonValue)>, depth: nat) -> Seq<(nat, Seq<char>, JsonValue)>
    decreases es,
{
    if es.len() == 0 {
        Seq::empty()
    } else {
        let last = es.last();
        let here = flat_v1(es.drop_last(), depth).push((depth, last.0@, last.1));
        match v1_children(last.1) {
            Some(ces) => if depth < usize::MAX {
                proof {
                    let x = json_get(last.1, "dependencies"@)->0;
                    if let JsonValue::Object(es2) = last.1 {
                        lemma_member_found(es2@, "dependencies"@, 0);
                        let j = choose|j: int| 0 <= j < es2@.len() && es2@[j].1 == x;
                        assert(decreases_to!(es => es.last()));
                        assert(decreases_to!(last.1 => es2));
                        assert(decreases_to!(es2 => es2[j]));
                        assert(decreases_to!(x => ces));
                    }
                }
                here + flat_v1(ces, depth + 1)
            } else {
                here
            },
            None => here,
        }
    }
}

/// The flattened v1 entries, read.
pub open spec fn v1_entries_match(flat: Seq<(nat, Seq<char>, JsonValue)>, out: Seq<NpmV1Entry>) -> bool {
    out.len() == flat.len() && forall|i: int|
        0 <= i < flat.len() ==> (#[trigger] out[i]).depth == flat[i].0 && out[i].name@ == flat[i].1
            && npm_entry_matches(flat[i].2, out[i].entry)
}

#[verifier::loop_isolation(false)]
fn flatten_v1(es: &Vec<(String, JsonValue)>, depth: usize, out: &mut Vec<NpmV1Entry>)
    ensures
        final(out)@.len() >= old(out)@.len(),
        final(out)@.subrange(0, old(out)@.len() as int) == old(out)@,
        v1_entries_match(flat_v1(es@, depth as nat), final(out)@.subrange(old(out)@.len() as int, final(out)@.len() as int)),
    decreases es,
{
    let ghost start = out@.len();
    let mut i: usize = 0;
    assert(es@.subrange(0, 0) == Seq::<(String, JsonValue)>::empty());
    while i < es.len()
        invariant
            i <= es@.len(),
            out@.len() >= start,
            out@.subrange(0, start as int) == old(out)@,
            v1_entries_match(flat_v1(es@.subrange(0, i as int), depth as nat), out@.subrange(start as int, out@.len() as int)),
        decreases es.len() - i,
    {
        let ghost pre = es@.subrange(0, i as int);
        let ghost cur = es@.subrange(0, i + 1);
        let ghost mid = out@;
        assert(cur.drop_last() == pre);
        assert(cur.last() == es@[i as int]);
        out.push(NpmV1Entry { depth, name: es[i].0.clone(), entry: npm_entry_from(&es[i].1) });
        proof {
            assert(out@.subrange(0, start as int) == mid.subrange(0, start as int));
            let a = flat_v1(pre, depth as nat);
            let here = a.push((depth as nat, es@[i as int].0@, es@[i as int].1));
            assert(v1_entries_match(here, out@.subrange(start as int, out@.len() as int))) by {
                assert forall|k: int| 0 <= k < here.len() implies #[trigger] out@.subrange(start as int, out@.len() as int)[k].depth == here[k].0
                    && out@.subrange(start as int, out@.len() as int)[k].name@ == here[k].1
                    && npm_entry_matches(here[k].2, out@.subrange(start as int, out@.len() as int)[k].entry) by {
                    if k < a.len() {
                        assert(out@.subrange(start as int, out@.len() as int)[k] == mid.subrange(start as int, mid.len() as int)[k]);
                    }
                }
            }
        }
        match json_get_member(&es[i].1, "dependencies") {
            Some(JsonValue::Object(ces)) => {
                if depth < usize::MAX {
                    let ghost before_kids = out@;
                    proof {
                        let x = json_get(es@[i as int].1, "dependencies"@)->0;
                        if let JsonValue::Object(es2) = es@[i as int].1 {
                            lemma_member_found(es2@, "dependencies"@, 0);
                            let j = choose|j: int| 0 <= j < es2@.len() && es2@[j].1 == x;
                            assert(decreases_to!(*es => es[i as int]));
                            assert(decreases_to!(es@[i as int].1 => es2));
                            assert(decreases_to!(es2 => es2[j]));
                            assert(decreases_to!(x => *ces));
                        }
                    }
                    flatten_v1(ces, depth + 1, out);
                    proof {
                        let a = flat_v1(pre, depth as nat);
                        let here = a.push((depth as nat, es@[i as int].0@, es@[i as int].1));
                        let kids = flat_v1(ces@, depth as nat + 1);
                        assert(flat_v1(cur, depth as nat) == here + kids);
                        let seg = out@.subrange(start as int, out@.len() as int);
                        let seg0 = before_kids.subrange(start as int, before_kids.len() as int);
                        assert(out@.subrange(0, before_kids.len() as int) == before_kids);
                        assert forall|k: int| 0 <= k < here.len() + kids.len() implies #[trigger] seg[k].depth == (here + kids)[k].0
                            && seg[k].name@ == (here + kids)[k].1
                            && npm_entry_matches((here + kids)[k].2, seg[k].entry) by {
                            if k < here.len() {
                                assert(seg[k] == seg0[k]);
                            } else {
                                let kk = k - here.len();
                                assert(seg[k] == out@.subrange(before_kids.len() as int, out@.len() as int)[kk]);
                            }
                        }
                        assert(out@.subrange(0, start as int) == before_kids.subrange(0, start as int));
                        assert(seg.len() == here.len() + kids.len());
                        assert(v1_entries_match(flat_v1(cur, depth as nat), seg));
                    }
                } else {
                    assert(flat_v1(cur, depth as nat) == flat_v1(pre, depth as nat).push((depth as nat, es@[i as int].0@, es@[i as int].1)));
                    assert(v1_entries_match(flat_v1(cur, depth as nat), out@.subrange(start as int, out@.len() as int)));
                }
            },
            _ => {
                assert(v1_children(es@[i as int].1) is None);
                assert(flat_v1(cur, depth as nat) == flat_v1(pre, depth as nat).push((depth as nat, es@[i as int].0@, es@[i as int].1)));
                assert(v1_entries_match(flat_v1(cur, depth as nat), out@.subrange(start as int, out@.len() as int)));
            },
        }
        i = i + 1;
    }
    assert(es@.subrange(0, es@.len() as int) == es@);
}

/// A parsed npm lockfile read: `lockfileVersion` (`0` unless an unsigned
/// integer), the `packages` object member by member, and the v1
/// `dependencies` tree flattened.
pub open spec fn npm_lock_matches(doc: JsonValue, l: NpmLockfile) -> bool {
    &&& l.lockfile_version == u64_member_or_zero(doc, "lockfileVersion"@)
    &&& match json_get(doc, "packages"@) {
        Some(JsonValue::Object(es)) => l.packages matches Some(ps) && ps@.len() == es@.len() && forall|i: int|
            0 <= i < es@.len() ==> (#[trigger] ps@[i]).0@ == es@[i].0@ && npm_entry_matches(es@[i].1, ps@[i].1),
        _ => l.packages is None,
    }
    &&& match json_get(doc, "dependencies"@) {
        Some(JsonValue::Object(es)) => l.dependencies matches Some(ds) && v1_entries_match(flat_v1(es@, 0), ds@),
        _ => l.dependencies is None,
    }
}

/// Reads a parsed `package-lock.json` or `npm-shrinkwrap.json`.
pub fn npm_lockfile_from_document(doc: &JsonValue) -> (r: NpmLockfile)
    ensures
        npm_lock_matches(*doc, r),
{
    let packages = match json_get_member(doc, "packages") {
        Some(JsonValue::Object(es)) => {
            let mut out: Vec<(String, Option<NpmEntry>)> = Vec::new();
            let mut i: usize = 0;
            while i < es.len()
                invariant
                    i <= es@.len(),
                    out@.len() == i,
                    forall|j: int|
                        0 <= j < i ==> (#[trigger] out@[j]).0@ == es@[j].0@ && npm_entry_matches(es@[j].1, out@[j].1),
                decreases es.len() - i,
            {
                out.push((es[i].0.clone(), npm_entry_from(&es[i].1)));
                i = i + 1;
            }
            Some(out)
        },
        _ => None,
    };
    let dependencies = match json_get_member(doc, "dependencies") {
        Some(JsonValue::Object(es)) => {
            let mut out: Vec<NpmV1Entry> = Vec::new();
            flatten_v1(es, 0, &mut out);
            assert(out@.subrange(0, out@.len() as int) == out@);
            Some(out)
        },
        _ => None,
    };
    NpmLockfile { lockfile_version: u64_member_or_zero_of(doc, "lockfileVersion"), packages, dependencies }
}

// ---- package.json workspaces ----
/// `as_str` of each entry.
pub open spec fn entry_strings_match(items: Seq<JsonValue>, out: Seq<Option<String>>) -> bool {
    out.len() == items.len() && forall|i: int|
        0 <= i < items.len() ==> opt_view(#[trigger] out[i]) == json_as_str(Some(items[i]))
}

fn entry_strings(items: &Vec<JsonValue>) -> (r: Vec<Option<String>>)
    ensures
        entry_strings_match(items@, r@),
{
    let mut out: Vec<Option<String>> = Vec::new();
    let mut i: usize = 0;
    while i < items.len()
        invariant
            i <= items@.len(),
            out@.len() == i,
            forall|j: int| 0 <= j < i ==> opt_view(#[trigger] out@[j]) == json_as_str(Some(items@[j])),
        decreases items.len() - i,
    {
        let s = match &items[i] {
            JsonValue::Str(s) => Some(s.clone()),
            _ => None,
        };
        out.push(s);
        i = i + 1;
    }
    out
}

/// A `package.json`'s `workspaces` value read: none, an array, an object
/// (with its `packages` array where that is one), or anything else.
pub open spec fn workspaces_match(manifest: JsonValue, w: Option<NpmWorkspacesValue>) -> bool {
    match json_get(manifest, "workspaces"@) {
        None => w is None,
        Some(JsonValue::Array(items)) => w matches Some(NpmWorkspacesValue::Array(out)) && entry_strings_match(
            items@,
            out@,
        ),
        Some(JsonValue::Object(es)) => w matches Some(NpmWorkspacesValue::Object { packages }) && match json_get(
            JsonValue::Object(es),
            "packages"@,
        ) {
            Some(JsonValue::Array(items)) => packages matches Some(out) && entry_strings_match(items@, out@),
            _ => packages is None,
        },
        Some(_) => w matches Some(NpmWorkspacesValue::Other),
    }
}

/// Reads a `package.json`'s `workspaces` value.
pub fn npm_workspaces_from_manifest(manifest: &JsonValue) -> (r: Option<NpmWorkspacesValue>)
    ensures
        workspaces_match(*manifest, r),
{
    match json_get_member(manifest, "workspaces") {
        None => None,
        Some(w) => match w {
            JsonValue::Array(items) => Some(NpmWorkspacesValue::Array(entry_strings(items))),
            JsonValue::Object(_) => {
                let packages = match json_get_member(w, "packages") {
                    Some(JsonValue::Array(items)) => Some(entry_strings(items)),
                    _ => None,
                };
                Some(NpmWorkspacesValue::Object { packages })
            },
            _ => Some(NpmWorkspacesValue::Other),
        },
    }
}

// ---- bun.lock ----
/// The first member of `es`, from position `i` on, whose value is not a
/// string.
pub open spec fn first_non_string_from(es: Seq<(String, JsonValue)>, i: int) -> Option<Seq<char>>
    decreases es.len() - i,
{
    if i < 0 || i >= es.len() {
        None
    } else if !(es[i].1 is Str) {
        Some(es[i].0@)
    } else {
        first_non_string_from(es, i + 1)
    }
}

/// A workspace section's shape: absent or all strings is an object.
pub open spec fn shape_matches(v: Option<JsonValue>, s: BunSectionShape) -> bool {
    match v {
        None => s is Object,
        Some(JsonValue::Object(es)) => match first_non_string_from(es@, 0) {
            Some(k) => s matches BunSectionShape::NonStringValue(x) && x@ == k,
            None => s is Object,
        },
        Some(_) => s is NotObject,
    }
}

#[verifier::loop_isolation(false)]
fn shape_from(v: &JsonValue, key: &str) -> (r: BunSectionShape)
    ensures
        shape_matches(json_get(*v, key@), r),
{
    match json_get_member(v, key) {
        None => BunSectionShape::Object,
        Some(JsonValue::Object(es)) => {
            let mut i: usize = 0;
            while i < es.len()
                invariant
                    i <= es@.len(),
                    first_non_string_from(es@, 0) == first_non_string_from(es@, i as int),
                decreases es.len() - i,
            {
                match &es[i].1 {
                    JsonValue::Str(_) => {},
                    _ => {
                        return BunSectionShape::NonStringValue(es[i].0.clone());
                    },
                }
                i = i + 1;
            }
            BunSectionShape::Object
        },
        Some(_) => BunSectionShape::NotObject,
    }
}

/// One workspace of `bun.lock`, read.
pub open spec fn bun_workspace_matches(v: JsonValue, w: BunWorkspace) -> bool {
    &&& sections_match(v, w.sections)
    &&& shape_matches(json_get(v, "dependencies"@), w.shapes.dependencies)
    &&& shape_matches(json_get(v, "devDependencies"@), w.shapes.dev_dependencies)
    &&& shape_matches(json_get(v, "optionalDependencies"@), w.shapes.optional_dependencies)
    &&& shape_matches(json_get(v, "peerDependencies"@), w.shapes.peer_dependencies)
}

/// A package's descriptor: the first element of its array, when a string.
pub open spec fn descriptor_of(v: JsonValue) -> Option<Seq<char>> {
    match v {
        JsonValue::Array(items) => if items@.len() > 0 {
            json_as_str(Some(items@[0]))
        } else {
            None
        },
        _ => None,
    }
}

/// A parsed `bun.lock` read.
pub open spec fn bun_lock_matches(doc: JsonValue, l: BunLockfile) -> bool {
    &&& match json_get(doc, "workspaces"@) {
        Some(JsonValue::Object(es)) => l.workspaces matches Some(ws) && ws@.len() == es@.len() && forall|i: int|
            0 <= i < es@.len() ==> (#[trigger] ws@[i]).0@ == es@[i].0@ && bun_workspace_matches(es@[i].1, ws@[i].1),
        _ => l.workspaces is None,
    }
    &&& match json_get(doc, "packages"@) {
        Some(JsonValue::Object(es)) => l.packages matches Some(ps) && ps@.len() == es@.len() && forall|i: int|
            0 <= i < es@.len() ==> (#[trigger] ps@[i]).0@ == es@[i].0@ && opt_view(ps@[i].1) == descriptor_of(es@[i].1),
        _ => l.packages is None,
    }
}

/// Reads a parsed text `bun.lock`.
pub fn bun_lockfile_from_document(doc: &JsonValue) -> (r: BunLockfile)
    ensures
        bun_lock_matches(*doc, r),
{
    let workspaces = match json_get_member(doc, "workspaces") {
        Some(JsonValue::Object(es)) => {
            let mut out: Vec<(String, BunWorkspace)> = Vec::new();
            let mut i: usize = 0;
            while i < es.len()
                invariant
                    i <= es@.len(),
                    out@.len() == i,
                    forall|j: int|
                        0 <= j < i ==> (#[trigger] out@[j]).0@ == es@[j].0@ && bun_workspace_matches(es@[j].1, out@[j].1),
                decreases es.len() - i,
            {
                let v = &es[i].1;
                let w = BunWorkspace {
                    sections: sections_from(v),
                    shapes: BunSectionShapes {
                        dependencies: shape_from(v, "dependencies"),
                        dev_dependencies: shape_from(v, "devDependencies"),
                        optional_dependencies: shape_from(v, "optionalDependencies"),
                        peer_dependencies: shape_from(v, "peerDependencies"),
                    },
                };
                out.push((es[i].0.clone(), w));
                i = i + 1;
            }
            Some(out)
        },
        _ => None,
    };
    let packages = match json_get_member(doc, "packages") {
        Some(JsonValue::Object(es)) => {
            let mut out: Vec<(String, Option<String>)> = Vec::new();
            let mut i: usize = 0;
            while i < es.len()
                invariant
                    i <= es@.len(),
                    out@.len() == i,
                    forall|j: int|
                        0 <= j < i ==> (#[trigger] out@[j]).0@ == es@[j].0@ && opt_view(out@[j].1) == descriptor_of(es@[j].1),
                decreases es.len() - i,
            {
                let d = match &es[i].1 {
                    JsonValue::Array(items) => if items.len() > 0 {
                        match &items[0] {
                            JsonValue::Str(s) => Some(s.clone()),
                            _ => None,
                        }
                    } else {
                        None
                    },
                    _ => None,
                };
                out.push((es[i].0.clone(), d));
                i = i + 1;
            }
            Some(out)
        },
        _ => None,
    };
    BunLockfile { workspaces, packages }
}

// ---- package.json ----
pub open spec fn broken_manifest_msg(path: Seq<char>, what: Seq<char>, detail: Seq<char>) -> Seq<char> {
    "Broken manifest '"@ + path + "': failed to parse "@ + what + ": "@ + detail
}

/// A `package.json` read from its text (`path` names it in messages): one
/// that does not parse is broken; one with npm `overrides` is refused.
pub fn npm_manifest_from_text(path: &str, text: &str) -> (r: Result<JsonValue, String>)
    ensures
        match json_document(text@) {
            Err(e) => r matches Err(m) && m@ == broken_manifest_msg(path@, "JSON"@, e),
            Ok(v) => match spec_manifest_security_policy(path@, json_get(v, "overrides"@) is Some) {
                Ok(()) => r == Ok::<JsonValue, String>(v),
                Err(e) => r matches Err(m) && m@ == e,
            },
        },
{
    match parse_json(text) {
        Err(e) => {
            let mut m = string_of_str("Broken manifest '");
            push_str(&mut m, path);
            push_str(&mut m, "': failed to parse ");
            push_str(&mut m, "JSON");
            push_str(&mut m, ": ");
            push_str(&mut m, e.as_str());
            Err(m)
        },
        Ok(v) => {
            let has_overrides = json_get_member(&v, "overrides").is_some();
            match validate_npm_manifest_security_policy(path, has_overrides) {
                Err(e) => Err(e),
                Ok(()) => Ok(v),
            }
        },
    }
}

} // verus!
