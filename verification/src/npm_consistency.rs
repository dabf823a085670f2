//! Whether an npm lockfile still describes its `package.json`: the same
//! direct dependencies, and every npm alias locked to its target.
use vstd::prelude::*;
use crate::assoc::{amap, akeys_unique, find_key, lemma_amap_dom, lemma_amap_index, lemma_amap_absent};
use crate::lockfiles::npm::{
    NpmEntryView, NpmLockfile, NpmLockView, NpmSections, NpmSectionsView, first_match, find_package, package_index,
};
use crate::npm_provenance::{first_error, unit_result_view};
use crate::report::{sanitized, sanitize_for_terminal};
use crate::text::{
    chars_of, concat, push_str, rsplit_once_range, rsplit_once_seq, str_eq, string_of_range,
    string_of_str, strip_prefix, range_starts_with,
};

verus! {

// ---- the manifest's direct dependencies ----
pub open spec fn section_name(k: int) -> Seq<char> {
    if k == 0 {
        "dependencies"@
    } else if k == 1 {
        "devDependencies"@
    } else if k == 2 {
        "optionalDependencies"@
    } else {
        "peerDependencies"@
    }
}

pub open spec fn section_of(v: NpmSectionsView, k: int) -> Map<Seq<char>, Seq<char>> {
    if k == 0 {
        v.dependencies
    } else if k == 1 {
        v.dev_dependencies
    } else if k == 2 {
        v.optional_dependencies
    } else {
        v.peer_dependencies
    }
}

/// The names that a manifest declares in any of its sections.
pub open spec fn manifest_names(v: NpmSectionsView) -> Set<Seq<char>> {
    v.dependencies.dom() + v.dev_dependencies.dom() + v.optional_dependencies.dom()
        + v.peer_dependencies.dom()
}

/// The names of the top-level entries of a v1 `dependencies` tree.
pub open spec fn locked_names(lock: NpmLockView) -> Set<Seq<char>> {
    match lock.dependencies {
        Some(ds) => Set::new(
            |n: Seq<char>| exists|i: int| 0 <= i < ds.len() && #[trigger] ds[i].0 == 0 && ds[i].1 == n,
        ),
        None => Set::empty(),
    }
}

pub open spec fn entry_label(key: Seq<char>) -> Seq<char> {
    if key.len() == 0 {
        "<root>"@
    } else {
        key
    }
}

pub open spec fn section_mismatch_msg(path: Seq<char>, key: Seq<char>, k: int) -> Seq<char> {
    "Required lockfile '"@ + path + "' is out of sync with package.json: package entry '"@
        + entry_label(key) + "' does not match its '"@ + section_name(k)
        + "' declarations. Regenerate the lockfile so it matches the manifest exactly."@
}

pub open spec fn missing_workspace_entry_msg(path: Seq<char>, key: Seq<char>) -> Seq<char> {
    "Required lockfile '"@ + path + "' is missing workspace package entry '"@ + key
        + "'. Regenerate the lockfile from the npm workspace root so it records this project explicitly."@
}

pub open spec fn direct_mismatch_msg(path: Seq<char>) -> Seq<char> {
    "Required lockfile '"@ + path
        + "' is out of sync with package.json: direct dependency entries do not match. Regenerate the lockfile so it matches the manifest exactly."@
}

/// The lockfile's package entry for the project (`key`) must declare each
/// section exactly as the manifest does; without such an entry (only for
/// the root, `key` empty) the top-level entries of a v1 tree must be the
/// manifest's names.
pub open spec fn spec_structure(
    m: NpmSectionsView,
    lock: NpmLockView,
    key: Seq<char>,
    path: Seq<char>,
) -> Result<(), Seq<char>> {
    let entry = match lock.packages {
        Some(ps) => first_match(ps, key),
        None => None,
    };
    match entry {
        Some(Some(e)) => {
            if section_of(m, 0) != section_of(e.sections, 0) {
                Err(section_mismatch_msg(path, key, 0))
            } else if section_of(m, 1) != section_of(e.sections, 1) {
                Err(section_mismatch_msg(path, key, 1))
            } else if section_of(m, 2) != section_of(e.sections, 2) {
                Err(section_mismatch_msg(path, key, 2))
            } else if section_of(m, 3) != section_of(e.sections, 3) {
                Err(section_mismatch_msg(path, key, 3))
            } else {
                Ok(())
            }
        },
        _ => if key.len() > 0 {
            Err(missing_workspace_entry_msg(path, key))
        } else if manifest_names(m) != locked_names(lock) {
            Err(direct_mismatch_msg(path))
        } else {
            Ok(())
        },
    }
}

/// The map holds the pair.
pub open spec fn pair_in(m: Map<Seq<char>, Seq<char>>, p: (String, String)) -> bool {
    m.dom().contains(p.0@) && m[p.0@] == p.1@
}

/// With distinct keys on both sides, whether the two lists describe the
/// same map.
pub fn pairs_equal(a: &Vec<(String, String)>, b: &Vec<(String, String)>) -> (r: bool)
    requires
        akeys_unique(a@),
        akeys_unique(b@),
    ensures
        r == (amap(a@) == amap(b@)),
{
    let mut i: usize = 0;
    while i < a.len()
        invariant
            i <= a@.len(),
            akeys_unique(a@),
            akeys_unique(b@),
            forall|j: int| 0 <= j < i ==> pair_in(amap(b@), #[trigger] a@[j]),
        decreases a.len() - i,
    {
        proof {
            lemma_amap_index(a@, i as int);
        }
        match find_key(b, a[i].0.as_str()) {
            Some(j) => {
                proof {
                    lemma_amap_index(b@, j as int);
                }
                if !str_eq(b[j].1.as_str(), a[i].1.as_str()) {
                    return false;
                }
                assert(pair_in(amap(b@), a@[i as int]));
            },
            None => {
                proof {
                    lemma_amap_absent(b@, a@[i as int].0@);
                }
                return false;
            },
        }
        i = i + 1;
    }
    let mut j: usize = 0;
    while j < b.len()
        invariant
            j <= b@.len(),
            akeys_unique(a@),
            akeys_unique(b@),
            forall|k: int| 0 <= k < j ==> #[trigger] amap(a@).dom().contains(b@[k].0@),
        decreases b.len() - j,
    {
        proof {
            lemma_amap_index(b@, j as int);
        }
        match find_key(a, b[j].0.as_str()) {
            Some(x) => {
                proof {
                    lemma_amap_index(a@, x as int);
                }
                assert(amap(a@).dom().contains(b@[j as int].0@));
            },
            None => {
                proof {
                    lemma_amap_absent(a@, b@[j as int].0@);
                }
                return false;
            },
        }
        j = j + 1;
    }
    proof {
        let ma = amap(a@);
        let mb = amap(b@);
        assert forall|k: Seq<char>| ma.dom().contains(k) implies mb.dom().contains(k) && ma[k] == mb[k] by {
            lemma_amap_dom(a@, k);
            let x = choose|x: int| 0 <= x < a@.len() && a@[x].0.deep_view() == k;
            assert(a@[x].0@ == k);
            lemma_amap_index(a@, x);
            assert(pair_in(mb, a@[x]));
        }
        assert forall|k: Seq<char>| #[trigger] ma.dom().contains(k) == mb.dom().contains(k) by {
            lemma_amap_dom(b@, k);
            lemma_amap_dom(a@, k);
            if mb.dom().contains(k) {
                let x = choose|x: int| 0 <= x < b@.len() && b@[x].0.deep_view() == k;
                assert(b@[x].0@ == k);
                assert(amap(a@).dom().contains(b@[x].0@));
            }
            if ma.dom().contains(k) {
                let x = choose|x: int| 0 <= x < a@.len() && a@[x].0.deep_view() == k;
                assert(a@[x].0@ == k);
                assert(pair_in(mb, a@[x]));
            }
        }
        assert(ma.dom() =~= mb.dom());
        assert(ma =~= mb);
    }
    true
}

fn in_any_section(m: &NpmSections, name: &str) -> (b: bool)
    ensures
        b == manifest_names(m@).contains(name@),
{
    proof {
        lemma_amap_dom(m.dependencies@, name@);
        lemma_amap_dom(m.dev_dependencies@, name@);
        lemma_amap_dom(m.optional_dependencies@, name@);
        lemma_amap_dom(m.peer_dependencies@, name@);
    }
    let found = find_key(&m.dependencies, name).is_some() || find_key(&m.dev_dependencies, name).is_some()
        || find_key(&m.optional_dependencies, name).is_some() || find_key(
        &m.peer_dependencies,
        name,
    ).is_some();
    found
}

fn is_top_level(entries: &Vec<crate::lockfiles::npm::NpmV1Entry>, name: &str) -> (b: bool)
    ensures
        b == top_named(entries@, name@),
{
    let mut i: usize = 0;
    while i < entries.len()
        invariant
            i <= entries@.len(),
            forall|j: int| 0 <= j < i ==> !(#[trigger] entries@[j].depth == 0 && entries@[j].name@ == name@),
        decreases entries.len() - i,
    {
        if entries[i].depth == 0 && str_eq(entries[i].name.as_str(), name) {
            return true;
        }
        i = i + 1;
    }
    false
}

/// Every name of `section` is a top-level entry of the v1 tree.
pub open spec fn section_covered(
    section: Seq<(String, String)>,
    entries: Seq<crate::lockfiles::npm::NpmV1Entry>,
) -> bool {
    forall|k: int| 0 <= k < section.len() ==> top_named(entries, #[trigger] section[k].0@)
}

fn section_in_lock(
    section: &Vec<(String, String)>,
    entries: &Vec<crate::lockfiles::npm::NpmV1Entry>,
) -> (b: bool)
    ensures
        b == section_covered(section@, entries@),
{
    let mut k: usize = 0;
    while k < section.len()
        invariant
            k <= section@.len(),
            forall|x: int| 0 <= x < k ==> top_named(entries@, #[trigger] section@[x].0@),
        decreases section.len() - k,
    {
        if !is_top_level(entries, section[k].0.as_str()) {
            return false;
        }
        k = k + 1;
    }
    true
}

/// A top-level v1 entry is named `n`.
pub open spec fn top_named(entries: Seq<crate::lockfiles::npm::NpmV1Entry>, n: Seq<char>) -> bool {
    exists|i: int| 0 <= i < entries.len() && #[trigger] entries[i].depth == 0 && entries[i].name@ == n
}

proof fn lemma_uncovered_name(
    section: Seq<(String, String)>,
    entries: Seq<crate::lockfiles::npm::NpmV1Entry>,
    names: Set<Seq<char>>,
    locked: Set<Seq<char>>,
)
    requires
        !section_covered(section, entries),
        forall|n: Seq<char>| locked.contains(n) <==> top_named(entries, n),
        forall|n: Seq<char>| amap(section).dom().contains(n) ==> names.contains(n),
    ensures
        names != locked,
{
    let k = choose|k: int| 0 <= k < section.len() && !top_named(entries, #[trigger] section[k].0@);
    let n = section[k].0@;
    lemma_amap_dom(section, n);
    assert(section[k].0.deep_view() == n);
    assert(names.contains(n));
    assert(!top_named(entries, n));
    assert(!locked.contains(n));
}

/// Whether the manifest's names are the top-level names of the v1 tree.
fn same_direct_names(m: &NpmSections, lockfile: &NpmLockfile) -> (b: bool)
    ensures
        b == (manifest_names(m@) == locked_names(lockfile@)),
{
    let empty: Vec<crate::lockfiles::npm::NpmV1Entry> = Vec::new();
    let entries = match &lockfile.dependencies {
        Some(d) => d,
        None => &empty,
    };
    let ghost locked = locked_names(lockfile@);
    let ghost names = manifest_names(m@);
    proof {
        assert forall|n: Seq<char>| locked.contains(n) <==> top_named(entries@, n) by {
            match lockfile.dependencies {
                Some(d) => {
                    let ds = crate::lockfiles::npm::v1_view(d@);
                    if locked.contains(n) {
                        let i = choose|i: int| 0 <= i < ds.len() && #[trigger] ds[i].0 == 0 && ds[i].1 == n;
                        assert(entries@[i].depth == 0 && entries@[i].name@ == n);
                    }
                    if top_named(entries@, n) {
                        let i = choose|i: int|
                            0 <= i < entries@.len() && #[trigger] entries@[i].depth == 0 && entries@[i].name@ == n;
                        assert(ds[i].0 == 0 && ds[i].1 == n);
                    }
                },
                None => {},
            }
        }
        assert forall|n: Seq<char>| amap(m.dependencies@).dom().contains(n) implies names.contains(n) by {}
        assert forall|n: Seq<char>| amap(m.dev_dependencies@).dom().contains(n) implies names.contains(n) by {}
        assert forall|n: Seq<char>| amap(m.optional_dependencies@).dom().contains(n) implies names.contains(n) by {}
        assert forall|n: Seq<char>| amap(m.peer_dependencies@).dom().contains(n) implies names.contains(n) by {}
    }
    if !section_in_lock(&m.dependencies, entries) {
        proof {
            lemma_uncovered_name(m.dependencies@, entries@, names, locked);
        }
        return false;
    }
    if !section_in_lock(&m.dev_dependencies, entries) {
        proof {
            lemma_uncovered_name(m.dev_dependencies@, entries@, names, locked);
        }
        return false;
    }
    if !section_in_lock(&m.optional_dependencies, entries) {
        proof {
            lemma_uncovered_name(m.optional_dependencies@, entries@, names, locked);
        }
        return false;
    }
    if !section_in_lock(&m.peer_dependencies, entries) {
        proof {
            lemma_uncovered_name(m.peer_dependencies@, entries@, names, locked);
        }
        return false;
    }
    let mut i: usize = 0;
    while i < entries.len()
        invariant
            i <= entries@.len(),
            names == manifest_names(m@),
            locked == locked_names(lockfile@),
            forall|n: Seq<char>| locked.contains(n) <==> top_named(entries@, n),
            forall|j: int| 0 <= j < i && #[trigger] entries@[j].depth == 0 ==> names.contains(entries@[j].name@),
        decreases entries.len() - i,
    {
        if entries[i].depth == 0 && !in_any_section(m, entries[i].name.as_str()) {
            proof {
                assert(top_named(entries@, entries@[i as int].name@));
                assert(locked.contains(entries@[i as int].name@));
            }
            return false;
        }
        i = i + 1;
    }
    proof {
        assert forall|n: Seq<char>| names.contains(n) implies locked.contains(n) by {
            let secs = seq![m.dependencies@, m.dev_dependencies@, m.optional_dependencies@, m.peer_dependencies@];
            lemma_amap_dom(m.dependencies@, n);
            lemma_amap_dom(m.dev_dependencies@, n);
            lemma_amap_dom(m.optional_dependencies@, n);
            lemma_amap_dom(m.peer_dependencies@, n);
            if amap(m.dependencies@).dom().contains(n) {
                let k = choose|k: int| 0 <= k < m.dependencies@.len() && m.dependencies@[k].0.deep_view() == n;
                assert(m.dependencies@[k].0@ == n);
            } else if amap(m.dev_dependencies@).dom().contains(n) {
                let k = choose|k: int| 0 <= k < m.dev_dependencies@.len() && m.dev_dependencies@[k].0.deep_view() == n;
                assert(m.dev_dependencies@[k].0@ == n);
            } else if amap(m.optional_dependencies@).dom().contains(n) {
                let k = choose|k: int| 0 <= k < m.optional_dependencies@.len() && m.optional_dependencies@[k].0.deep_view() == n;
                assert(m.optional_dependencies@[k].0@ == n);
            } else {
                let k = choose|k: int| 0 <= k < m.peer_dependencies@.len() && m.peer_dependencies@[k].0.deep_view() == n;
                assert(m.peer_dependencies@[k].0@ == n);
            }
        }
        assert forall|n: Seq<char>| locked.contains(n) implies names.contains(n) by {
            let j = choose|j: int| 0 <= j < entries@.len() && #[trigger] entries@[j].depth == 0 && entries@[j].name@ == n;
        }
        assert(names =~= locked);
    }
    true
}

// ---- npm aliases ----
pub open spec fn unsupported_alias_msg(raw: Seq<char>) -> Seq<char> {
    "Unsupported npm alias '"@ + sanitized(raw) + "' in package.json: expected npm:<package>@<version>"@
}

pub open spec fn out_of_sync_prefix(path: Seq<char>) -> Seq<char> {
    "Required lockfile '"@ + path + "' is out of sync with package.json: "@
}

pub open spec fn missing_alias_entry_msg(path: Seq<char>, name: Seq<char>) -> Seq<char> {
    out_of_sync_prefix(path) + "missing npm alias entry for '"@ + name + "'."@
}

pub open spec fn alias_without_name_msg(path: Seq<char>, name: Seq<char>) -> Seq<char> {
    out_of_sync_prefix(path) + "npm alias '"@ + name + "' is missing its locked package name."@
}

pub open spec fn alias_mismatch_msg(
    path: Seq<char>,
    name: Seq<char>,
    target: Seq<char>,
    locked: Seq<char>,
) -> Seq<char> {
    out_of_sync_prefix(path) + "npm alias '"@ + name + "' targets '"@ + target
        + "' in the manifest but '"@ + locked + "' in the lockfile."@
}

/// A manifest entry `name: "npm:<target>@<version>"` must be installed at
/// `node_modules/<name>` by an entry that names `<target>`.
pub open spec fn spec_alias(name: Seq<char>, raw: Seq<char>, lock: NpmLockView, path: Seq<char>) -> Result<(), Seq<char>> {
    match strip_prefix(raw, "npm:"@) {
        None => Ok(()),
        Some(alias_spec) => match rsplit_once_seq(alias_spec, "@"@) {
            None => Err(unsupported_alias_msg(raw)),
            Some((target, _)) => {
                let entry = match lock.packages {
                    Some(ps) => match first_match(ps, "node_modules/"@ + name) {
                        Some(Some(e)) => Some(e),
                        _ => None,
                    },
                    None => None,
                };
                match entry {
                    None => Err(missing_alias_entry_msg(path, name)),
                    Some(e) => match e.name {
                        None => Err(alias_without_name_msg(path, name)),
                        Some(locked) => if locked != target {
                            Err(alias_mismatch_msg(path, name, target, locked))
                        } else {
                            Ok(())
                        },
                    },
                }
            },
        },
    }
}

pub open spec fn alias_checks(s: Seq<(String, String)>, lock: NpmLockView, path: Seq<char>) -> Seq<Result<(), Seq<char>>> {
    s.map_values(|p: (String, String)| spec_alias(p.0@, p.1@, lock, path))
}

fn validate_alias(name: &str, raw: &str, lockfile: &NpmLockfile, lockfile_path: &str) -> (r: Result<(), String>)
    ensures
        unit_result_view(r) == spec_alias(name@, raw@, lockfile@, lockfile_path@),
{
    proof {
        reveal_strlit("npm:");
        reveal_strlit("@");
    }
    let v = chars_of(raw);
    let n = v.len();
    assert(v@.subrange(0, n as int) == v@);
    let prefix = chars_of("npm:");
    if !range_starts_with(&v, 0, n, &prefix) {
        return Ok(());
    }
    let at = chars_of("@");
    assert(raw@.subrange(4, raw@.len() as int) == v@.subrange(4, n as int));
    let Some((a, _)) = rsplit_once_range(&v, 4, n, &at) else {
        let mut m = string_of_str("Unsupported npm alias '");
        let clean = sanitize_for_terminal(raw);
        push_str(&mut m, clean.as_str());
        push_str(&mut m, "' in package.json: expected npm:<package>@<version>");
        return Err(m);
    };
    let target = string_of_range(&v, 4, a);
    let entry = match &lockfile.packages {
        Some(ps) => {
            let key = concat("node_modules/", name);
            match find_package(ps, key.as_str()) {
                Some(Some(e)) => Some(e),
                _ => None,
            }
        },
        None => None,
    };
    let mut m = string_of_str("Required lockfile '");
    push_str(&mut m, lockfile_path);
    push_str(&mut m, "' is out of sync with package.json: ");
    let Some(e) = entry else {
        push_str(&mut m, "missing npm alias entry for '");
        push_str(&mut m, name);
        push_str(&mut m, "'.");
        return Err(m);
    };
    push_str(&mut m, "npm alias '");
    push_str(&mut m, name);
    match &e.name {
        None => {
            push_str(&mut m, "' is missing its locked package name.");
            Err(m)
        },
        Some(locked) => {
            if !str_eq(locked.as_str(), target.as_str()) {
                push_str(&mut m, "' targets '");
                push_str(&mut m, target.as_str());
                push_str(&mut m, "' in the manifest but '");
                push_str(&mut m, locked.as_str());
                push_str(&mut m, "' in the lockfile.");
                Err(m)
            } else {
                Ok(())
            }
        },
    }
}

fn validate_aliases_in(section: &Vec<(String, String)>, lockfile: &NpmLockfile, lockfile_path: &str) -> (r: Result<(), String>)
    ensures
        unit_result_view(r) == first_error(alias_checks(section@, lockfile@, lockfile_path@)),
{
    let ghost cs = alias_checks(section@, lockfile@, lockfile_path@);
    assert(cs.subrange(0, cs.len() as int) == cs);
    let mut i: usize = 0;
    while i < section.len()
        invariant
            i <= section@.len(),
            cs == alias_checks(section@, lockfile@, lockfile_path@),
            first_error(cs.subrange(i as int, cs.len() as int)) == first_error(cs),
        decreases section.len() - i,
    {
        let r = validate_alias(section[i].0.as_str(), section[i].1.as_str(), lockfile, lockfile_path);
        proof {
            let rest = cs.subrange(i as int, cs.len() as int);
            assert(rest[0] == cs[i as int]);
            assert(rest.drop_first() == cs.subrange(i + 1, cs.len() as int));
        }
        if r.is_err() {
            return r;
        }
        i = i + 1;
    }
    assert(cs.subrange(i as int, cs.len() as int) == Seq::<Result<(), Seq<char>>>::empty());
    Ok(())
}

/// The first error of `a + b`: the first of `a`, else the first of `b`.
pub proof fn lemma_first_error_append(a: Seq<Result<(), Seq<char>>>, b: Seq<Result<(), Seq<char>>>)
    ensures
        first_error(a + b) == (match first_error(a) {
            Err(m) => Err(m),
            Ok(_) => first_error(b),
        }),
    decreases a.len(),
{
    if a.len() > 0 {
        assert((a + b).drop_first() == a.drop_first() + b);
        assert((a + b)[0] == a[0]);
        lemma_first_error_append(a.drop_first(), b);
    } else {
        assert(a + b == b);
    }
}

/// The manifest's entries, section by section.
pub open spec fn manifest_pairs(m: NpmSections) -> Seq<(String, String)> {
    m.dependencies@ + m.dev_dependencies@ + m.optional_dependencies@ + m.peer_dependencies@
}

/// Every package entry's sections name each package once.
pub open spec fn lock_sections_wf(lock: NpmLockfile) -> bool {
    match lock.packages {
        Some(ps) => forall|i: int| 0 <= i < ps@.len() ==> (#[trigger] ps@[i]).1 matches Some(e) && e.sections.wf()
            || ps@[i].1 is None,
        None => true,
    }
}

/// The lockfile still describes the manifest: first `spec_structure`, then
/// each npm alias in the order the manifest's sections list them.
pub open spec fn spec_consistency(
    m: NpmSections,
    lock: NpmLockfile,
    key: Seq<char>,
    path: Seq<char>,
) -> Result<(), Seq<char>> {
    match spec_structure(m@, lock@, key, path) {
        Err(e) => Err(e),
        Ok(_) => first_error(alias_checks(manifest_pairs(m), lock@, path)),
    }
}

fn section_mismatch_error(lockfile_path: &str, key: &str, k: usize) -> (r: String)
    requires
        k < 4,
    ensures
        r@ == section_mismatch_msg(lockfile_path@, key@, k as int),
{
    proof {
        reveal_strlit("<root>");
    }
    let mut m = string_of_str("Required lockfile '");
    push_str(&mut m, lockfile_path);
    push_str(&mut m, "' is out of sync with package.json: package entry '");
    if key.unicode_len() == 0 {
        push_str(&mut m, "<root>");
    } else {
        push_str(&mut m, key);
    }
    push_str(&mut m, "' does not match its '");
    let name = if k == 0 {
        "dependencies"
    } else if k == 1 {
        "devDependencies"
    } else if k == 2 {
        "optionalDependencies"
    } else {
        "peerDependencies"
    };
    push_str(&mut m, name);
    push_str(&mut m, "' declarations. Regenerate the lockfile so it matches the manifest exactly.");
    m
}

/// Checks that a lockfile still describes its manifest (see
/// `spec_consistency`); `package_entry_key` is the project's key in
/// `packages` (empty for the root project).
pub fn validate_npm_lockfile_consistency(
    manifest: &NpmSections,
    lockfile: &NpmLockfile,
    lockfile_path: &str,
    package_entry_key: &str,
) -> (r: Result<(), String>)
    requires
        manifest.wf(),
        lock_sections_wf(*lockfile),
    ensures
        unit_result_view(r) == spec_consistency(*manifest, *lockfile, package_entry_key@, lockfile_path@),
{
    let index = match &lockfile.packages {
        Some(ps) => package_index(ps, package_entry_key),
        None => None,
    };
    let entry = match (&lockfile.packages, index) {
        (Some(ps), Some(i)) => match &ps[i].1 {
            Some(e) => Some(e),
            None => None,
        },
        _ => None,
    };
    match entry {
        Some(e) => {
            if !pairs_equal(&manifest.dependencies, &e.sections.dependencies) {
                return Err(section_mismatch_error(lockfile_path, package_entry_key, 0));
            }
            if !pairs_equal(&manifest.dev_dependencies, &e.sections.dev_dependencies) {
                return Err(section_mismatch_error(lockfile_path, package_entry_key, 1));
            }
            if !pairs_equal(&manifest.optional_dependencies, &e.sections.optional_dependencies) {
                return Err(section_mismatch_error(lockfile_path, package_entry_key, 2));
            }
            if !pairs_equal(&manifest.peer_dependencies, &e.sections.peer_dependencies) {
                return Err(section_mismatch_error(lockfile_path, package_entry_key, 3));
            }
        },
        None => {
            if package_entry_key.unicode_len() > 0 {
                let mut m = string_of_str("Required lockfile '");
                push_str(&mut m, lockfile_path);
                push_str(&mut m, "' is missing workspace package entry '");
                push_str(&mut m, package_entry_key);
                push_str(
                    &mut m,
                    "'. Regenerate the lockfile from the npm workspace root so it records this project explicitly.",
                );
                return Err(m);
            }
            if !same_direct_names(manifest, lockfile) {
                let mut m = string_of_str("Required lockfile '");
                push_str(&mut m, lockfile_path);
                push_str(
                    &mut m,
                    "' is out of sync with package.json: direct dependency entries do not match. Regenerate the lockfile so it matches the manifest exactly.",
                );
                return Err(m);
            }
        },
    }
    let ghost path = lockfile_path@;
    let ghost lock = lockfile@;
    let r1 = validate_aliases_in(&manifest.dependencies, lockfile, lockfile_path);
    if r1.is_err() {
        proof {
            lemma_alias_chain(*manifest, lock, path);
        }
        return r1;
    }
    let r2 = validate_aliases_in(&manifest.dev_dependencies, lockfile, lockfile_path);
    if r2.is_err() {
        proof {
            lemma_alias_chain(*manifest, lock, path);
        }
        return r2;
    }
    let r3 = validate_aliases_in(&manifest.optional_dependencies, lockfile, lockfile_path);
    if r3.is_err() {
        proof {
            lemma_alias_chain(*manifest, lock, path);
        }
        return r3;
    }
    let r4 = validate_aliases_in(&manifest.peer_dependencies, lockfile, lockfile_path);
    proof {
        lemma_alias_chain(*manifest, lock, path);
    }
    r4
}

proof fn lemma_alias_chain(m: NpmSections, lock: NpmLockView, path: Seq<char>)
    ensures
        first_error(alias_checks(manifest_pairs(m), lock, path)) == (match first_error(
            alias_checks(m.dependencies@, lock, path),
        ) {
            Err(e) => Err(e),
            Ok(_) => match first_error(alias_checks(m.dev_dependencies@, lock, path)) {
                Err(e) => Err(e),
                Ok(_) => match first_error(alias_checks(m.optional_dependencies@, lock, path)) {
                    Err(e) => Err(e),
                    Ok(_) => first_error(alias_checks(m.peer_dependencies@, lock, path)),
                },
            },
        }),
{
    let a = alias_checks(m.dependencies@, lock, path);
    let b = alias_checks(m.dev_dependencies@, lock, path);
    let c = alias_checks(m.optional_dependencies@, lock, path);
    let d = alias_checks(m.peer_dependencies@, lock, path);
    assert(alias_checks(manifest_pairs(m), lock, path) == a + (b + (c + d)));
    lemma_first_error_append(a, b + (c + d));
    lemma_first_error_append(b, c + d);
    lemma_first_error_append(c, d);
}

/// A lockfile that holds an entry for the project is accepted only when
/// that entry declares exactly the manifest's dependencies,
/// devDependencies, optionalDependencies and peerDependencies.
pub proof fn lemma_consistent_entry_matches_every_section(
    m: NpmSections,
    lock: NpmLockfile,
    key: Seq<char>,
    path: Seq<char>,
    e: NpmEntryView,
)
    requires
        lock@.packages is Some,
        first_match(lock@.packages->0, key) == Some(Some(e)),
        spec_consistency(m, lock, key, path) is Ok,
    ensures
        m@.dependencies == e.sections.dependencies,
        m@.dev_dependencies == e.sections.dev_dependencies,
        m@.optional_dependencies == e.sections.optional_dependencies,
        m@.peer_dependencies == e.sections.peer_dependencies,
{
}

/// Where the project's entry agrees with the manifest on dependencies and
/// devDependencies but not on optionalDependencies, the lockfile is
/// refused as out of sync, naming `optionalDependencies`.
pub proof fn lemma_optional_mismatch_refused(
    m: NpmSections,
    lock: NpmLockfile,
    key: Seq<char>,
    path: Seq<char>,
    e: NpmEntryView,
)
    requires
        lock@.packages is Some,
        first_match(lock@.packages->0, key) == Some(Some(e)),
        m@.dependencies == e.sections.dependencies,
        m@.dev_dependencies == e.sections.dev_dependencies,
        m@.optional_dependencies != e.sections.optional_dependencies,
    ensures
        spec_consistency(m, lock, key, path) == Err::<(), Seq<char>>(
            "Required lockfile '"@ + path + "' is out of sync with package.json: package entry '"@ + (if key.len()
                == 0 {
                "<root>"@
            } else {
                key
            }) + "' does not match its 'optionalDependencies' declarations. Regenerate the lockfile so it matches the manifest exactly."@,
        ),
{
    assert(section_name(2) == "optionalDependencies"@);
    assert("' does not match its '"@ + "optionalDependencies"@ + "' declarations. Regenerate the lockfile so it matches the manifest exactly."@
        =~= "' does not match its 'optionalDependencies' declarations. Regenerate the lockfile so it matches the manifest exactly."@) by {
        reveal_strlit("' does not match its '");
        reveal_strlit("optionalDependencies");
        reveal_strlit("' declarations. Regenerate the lockfile so it matches the manifest exactly.");
        reveal_strlit("' does not match its 'optionalDependencies' declarations. Regenerate the lockfile so it matches the manifest exactly.");
    }
    let pre = "Required lockfile '"@ + path + "' is out of sync with package.json: package entry '"@ + entry_label(key);
    assert(section_mismatch_msg(path, key, 2) =~= pre + ("' does not match its '"@ + "optionalDependencies"@
        + "' declarations. Regenerate the lockfile so it matches the manifest exactly."@));
}

/// A root project without its own entry in `packages` is accepted only when
/// the top-level entries of the lockfile's dependency tree are exactly the
/// names its manifest declares; a workspace project without an entry is
/// never accepted.
pub proof fn lemma_consistent_without_entry(m: NpmSections, lock: NpmLockfile, key: Seq<char>, path: Seq<char>)
    requires
        !(lock@.packages is Some && first_match(lock@.packages->0, key) matches Some(Some(_))),
        spec_consistency(m, lock, key, path) is Ok,
    ensures
        key.len() == 0,
        m@.dependencies.dom() + m@.dev_dependencies.dom() + m@.optional_dependencies.dom()
            + m@.peer_dependencies.dom() == locked_names(lock@),
{
}

} // verus!
