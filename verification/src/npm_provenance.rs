//! Provenance rules for npm lockfiles: every installed entry must come from
//! the npm registry tarball of exactly the package and version it claims,
//! with integrity metadata, and must not be bundled.
use vstd::prelude::*;
use crate::assoc::{StringTable, map_get};
use crate::checks::names;
use crate::config::SloppyJoeConfig;
use crate::lockfiles::npm::{
    NpmEntry, NpmEntryView, NpmLockfile, NpmLockView, NpmV1Entry, entry_view, packages_view,
    v1_view, first_match, find_package,
};
use crate::report::{Issue, IssueView, Severity, issue_spec, sanitized, sanitize_for_terminal};
use crate::text::{
    chars_of, contains_seq, find_char, index_of, lemma_index_of_bound, range_contains_char,
    range_starts_with, rsplit_once_range, rsplit_once_seq, split_once, str_contains, str_eq,
    string_of_range, string_of_str, strip_prefix, push_str, trim, trim_range,
};

verus! {

// ---- registry tarball URLs ----
/// The registry path of a `resolved` URL: what follows
/// `registry.npmjs.org/` once the URL is trimmed and any `https://` dropped.
pub open spec fn spec_tarball_path(resolved: Seq<char>) -> Option<Seq<char>> {
    let t = trim(resolved);
    let u = match strip_prefix(t, "https://"@) {
        Some(x) => x,
        None => t,
    };
    strip_prefix(u, "registry.npmjs.org/"@)
}

pub open spec fn opt_str(o: Option<String>) -> Option<Seq<char>> {
    match o {
        Some(s) => Some(s@),
        None => None,
    }
}

/// The registry path of a `resolved` URL, if it points at the npm registry.
pub fn npm_registry_tarball_path(resolved: &str) -> (r: Option<String>)
    ensures
        opt_str(r) == spec_tarball_path(resolved@),
{
    proof {
        reveal_strlit("https://");
        reveal_strlit("registry.npmjs.org/");
    }
    let v = chars_of(resolved);
    assert(v@.subrange(0, v@.len() as int) == v@);
    let (a, b) = trim_range(&v, 0, v.len());
    let https = chars_of("https://");
    let registry = chars_of("registry.npmjs.org/");
    let ghost t = v@.subrange(a as int, b as int);
    let a2 = if range_starts_with(&v, a, b, &https) {
        assert(t.subrange(8, t.len() as int) == v@.subrange(a + 8, b as int));
        a + 8
    } else {
        a
    };
    if range_starts_with(&v, a2, b, &registry) {
        assert(v@.subrange(a2 as int, b as int).subrange(19, b - a2) == v@.subrange(
            a2 + 19,
            b as int,
        ));
        Some(string_of_range(&v, a2 + 19, b))
    } else {
        None
    }
}

/// The resolved source is an npm registry tarball URL.
pub fn is_trusted_npm_resolved_source(resolved: &str) -> (b: bool)
    ensures
        b == spec_tarball_path(resolved@) is Some,
{
    npm_registry_tarball_path(resolved).is_some()
}

/// `@scope/leaf` split into `scope` and `leaf`.
pub open spec fn scoped_parts(package_name: Seq<char>) -> Option<(Seq<char>, Seq<char>)> {
    match split_once(package_name, '/') {
        Some((scope, leaf)) => match strip_prefix(scope, "@"@) {
            Some(scope_name) => Some((scope_name, leaf)),
            None => None,
        },
        None => None,
    }
}

/// The registry paths at which the tarball of `package_name` at `version`
/// may be published: `name/-/name-version.tgz`, and for a scoped package
/// `@scope/leaf/-/leaf-version.tgz` and its two percent-encoded spellings.
pub open spec fn spec_expected_paths(package_name: Seq<char>, version: Seq<char>) -> Seq<Seq<char>> {
    match scoped_parts(package_name) {
        Some((scope_name, leaf)) => {
            let filename = leaf + "-"@ + version + ".tgz"@;
            seq![
                package_name + "/-/"@ + filename,
                "%40"@ + scope_name + "%2F"@ + leaf + "/-/"@ + filename,
                "%40"@ + scope_name + "%2f"@ + leaf + "/-/"@ + filename,
            ]
        },
        None => seq![package_name + "/-/"@ + package_name + "-"@ + version + ".tgz"@],
    }
}

pub open spec fn strs(v: Seq<String>) -> Seq<Seq<char>> {
    v.map_values(|s: String| s@)
}

fn join3(a: &str, b: &str, c: &str) -> (r: String)
    ensures
        r@ == a@ + b@ + c@,
{
    let mut r = string_of_str(a);
    push_str(&mut r, b);
    push_str(&mut r, c);
    r
}

/// The registry paths at which this package version's tarball may be
/// published (see `spec_expected_paths`).
pub fn expected_npm_registry_tarball_paths(package_name: &str, version: &str) -> (r: Vec<String>)
    ensures
        strs(r@) == spec_expected_paths(package_name@, version@),
{
    proof {
        reveal_strlit("@");
    }
    let v = chars_of(package_name);
    let n = v.len();
    let k = find_char(&v, 0, n, '/');
    proof {
        assert(v@.subrange(0, n as int) == v@);
        lemma_index_of_bound(v@, '/');
    }
    if k < n && k > 0 && v[0] == '@' {
        let scope_name = string_of_range(&v, 1, k);
        let leaf = string_of_range(&v, k + 1, n);
        proof {
            let scope = v@.subrange(0, k as int);
            assert(split_once(package_name@, '/') == Some((scope, v@.subrange(k + 1, n as int))));
            assert(scope.subrange(0, 1) =~= "@"@);
            assert(scope.subrange(1, scope.len() as int) == v@.subrange(1, k as int));
        }
        let filename = {
            let mut f = join3(leaf.as_str(), "-", version);
            push_str(&mut f, ".tgz");
            f
        };
        let p1 = join3(package_name, "/-/", filename.as_str());
        let mut p2 = join3("%40", scope_name.as_str(), "%2F");
        push_str(&mut p2, leaf.as_str());
        push_str(&mut p2, "/-/");
        push_str(&mut p2, filename.as_str());
        let mut p3 = join3("%40", scope_name.as_str(), "%2f");
        push_str(&mut p3, leaf.as_str());
        push_str(&mut p3, "/-/");
        push_str(&mut p3, filename.as_str());
        let r = vec![p1, p2, p3];
        assert(strs(r@) =~= spec_expected_paths(package_name@, version@));
        r
    } else {
        proof {
            if k < n {
                let scope = v@.subrange(0, k as int);
                assert(split_once(package_name@, '/') == Some((scope, v@.subrange(k + 1, n as int))));
                if k > 0 {
                    assert(scope[0] == v@[0]);
                    assert(scope.subrange(0, 1)[0] == scope[0]);
                    assert(!(scope.subrange(0, 1) =~= "@"@));
                } else {
                    assert(scope.len() == 0);
                }
            }
        }
        let mut p = join3(package_name, "/-/", package_name);
        push_str(&mut p, "-");
        push_str(&mut p, version);
        push_str(&mut p, ".tgz");
        let r = vec![p];
        assert(strs(r@) =~= spec_expected_paths(package_name@, version@));
        r
    }
}

// ---- error messages ----
pub open spec fn untrusted_source_msg(path: Seq<char>, name: Seq<char>, resolved: Seq<char>) -> Seq<char> {
    "Required lockfile '"@ + path + "' entry '"@ + name + "' has untrusted resolved source '"@
        + sanitized(resolved)
        + "'. sloppy-joe only trusts npm registry tarball URLs in package-lock.json and npm-shrinkwrap.json."@
}

pub open spec fn identity_mismatch_msg(
    path: Seq<char>,
    name: Seq<char>,
    version: Seq<char>,
    resolved: Seq<char>,
) -> Seq<char> {
    "Required lockfile '"@ + path + "' entry '"@ + name + "' resolves to '"@ + sanitized(resolved)
        + "', which does not match the locked package identity '"@ + name + "' at version '"@
        + version + "'."@
}

pub open spec fn bundled_msg(path: Seq<char>, name: Seq<char>) -> Seq<char> {
    "Required lockfile '"@ + path + "' entry '"@ + name
        + "' is marked as bundled. sloppy-joe does not trust bundled npm payloads yet because the bundled code cannot be verified independently from package-lock.json."@
}

pub open spec fn no_resolved_msg(path: Seq<char>, name: Seq<char>) -> Seq<char> {
    "Required lockfile '"@ + path + "' entry '"@ + name
        + "' is missing a resolved source URL. sloppy-joe only trusts npm lockfile entries with explicit tarball provenance."@
}

pub open spec fn no_integrity_msg(path: Seq<char>, name: Seq<char>) -> Seq<char> {
    "Required lockfile '"@ + path + "' entry '"@ + name
        + "' is missing integrity metadata. sloppy-joe only trusts npm lockfile entries with explicit integrity hashes."@
}

pub open spec fn bad_integrity_msg(path: Seq<char>, name: Seq<char>, integrity: Seq<char>) -> Seq<char> {
    "Required lockfile '"@ + path + "' entry '"@ + name + "' has malformed integrity metadata '"@
        + sanitized(integrity) + "'."@
}

pub open spec fn claims_other_msg(path: Seq<char>, name: Seq<char>, locked: Seq<char>) -> Seq<char> {
    "Required lockfile '"@ + path + "' entry '"@ + name + "' claims to be '"@ + locked
        + "'. npm lockfile entries must match the package they install exactly."@
}

pub open spec fn package_not_object_msg(path: Seq<char>, key: Seq<char>) -> Seq<char> {
    "Broken lockfile '"@ + path + "': package entry '"@ + key + "' was not an object."@
}

pub open spec fn dependency_not_object_msg(path: Seq<char>, name: Seq<char>) -> Seq<char> {
    "Broken lockfile '"@ + path + "': dependency entry '"@ + name + "' was not an object."@
}

/// `"Required lockfile '<path>' entry '<name>'"`, the start of most messages.
fn entry_prefix(path: &str, name: &str) -> (r: String)
    ensures
        r@ == "Required lockfile '"@ + path@ + "' entry '"@ + name@,
{
    let mut m = join3("Required lockfile '", path, "' entry '");
    push_str(&mut m, name);
    m
}

fn untrusted_source_error(path: &str, name: &str, resolved: &str) -> (r: String)
    ensures
        r@ == untrusted_source_msg(path@, name@, resolved@),
{
    let mut m = entry_prefix(path, name);
    push_str(&mut m, "' has untrusted resolved source '");
    let s = sanitize_for_terminal(resolved);
    push_str(&mut m, s.as_str());
    push_str(
        &mut m,
        "'. sloppy-joe only trusts npm registry tarball URLs in package-lock.json and npm-shrinkwrap.json.",
    );
    m
}

fn claims_other_error(path: &str, name: &str, locked: &str) -> (r: String)
    ensures
        r@ == claims_other_msg(path@, name@, locked@),
{
    let mut m = entry_prefix(path, name);
    push_str(&mut m, "' claims to be '");
    push_str(&mut m, locked);
    push_str(&mut m, "'. npm lockfile entries must match the package they install exactly.");
    m
}

// ---- one entry ----
/// The resolved URL is the registry tarball of exactly `package_name` at
/// `version`.
pub open spec fn spec_resolved_identity(
    package_name: Seq<char>,
    version: Seq<char>,
    resolved: Seq<char>,
    path: Seq<char>,
) -> Result<(), Seq<char>> {
    match spec_tarball_path(resolved) {
        None => Err(untrusted_source_msg(path, package_name, resolved)),
        Some(p) => if spec_expected_paths(package_name, version).contains(p) {
            Ok(())
        } else {
            Err(identity_mismatch_msg(path, package_name, version, resolved))
        },
    }
}

pub open spec fn unit_result_view(r: Result<(), String>) -> Result<(), Seq<char>> {
    match r {
        Ok(_) => Ok(()),
        Err(e) => Err(e@),
    }
}

fn contains_str(v: &Vec<String>, w: &str) -> (b: bool)
    ensures
        b == strs(v@).contains(w@),
{
    let mut i: usize = 0;
    while i < v.len()
        invariant
            i <= v@.len(),
            forall|j: int| 0 <= j < i ==> v@[j]@ != w@,
        decreases v.len() - i,
    {
        if str_eq(v[i].as_str(), w) {
            assert(strs(v@)[i as int] == w@);
            return true;
        }
        i = i + 1;
    }
    proof {
        if strs(v@).contains(w@) {
            let j = choose|j: int| 0 <= j < strs(v@).len() && strs(v@)[j] == w@;
            assert(v@[j]@ == w@);
        }
    }
    false
}

/// Checks that `resolved` is the registry tarball of `package_name` at
/// `version` (see `spec_resolved_identity`).
pub fn validate_npm_resolved_identity(
    package_name: &str,
    version: &str,
    resolved: &str,
    lockfile_path: &str,
) -> (r: Result<(), String>)
    ensures
        unit_result_view(r) == spec_resolved_identity(package_name@, version@, resolved@, lockfile_path@),
{
    let Some(path) = npm_registry_tarball_path(resolved) else {
        return Err(untrusted_source_error(lockfile_path, package_name, resolved));
    };
    let expected = expected_npm_registry_tarball_paths(package_name, version);
    if !contains_str(&expected, path.as_str()) {
        let mut m = entry_prefix(lockfile_path, package_name);
        push_str(&mut m, "' resolves to '");
        let s = sanitize_for_terminal(resolved);
        push_str(&mut m, s.as_str());
        push_str(&mut m, "', which does not match the locked package identity '");
        push_str(&mut m, package_name);
        push_str(&mut m, "' at version '");
        push_str(&mut m, version);
        push_str(&mut m, "'.");
        return Err(m);
    }
    Ok(())
}

/// The checks on one installed entry: links are exempt; bundled entries
/// are refused; an entry with a version must name a trusted registry
/// tarball of exactly that package and version, and carry integrity
/// metadata that holds a `-`.
pub open spec fn spec_entry_fields(name: Seq<char>, e: NpmEntryView, path: Seq<char>) -> Result<(), Seq<char>> {
    if e.link {
        Ok(())
    } else if e.in_bundle || e.bundled {
        Err(bundled_msg(path, name))
    } else {
        match e.version {
            None => Ok(()),
            Some(version) => match e.resolved {
                None => Err(no_resolved_msg(path, name)),
                Some(resolved) => match spec_resolved_identity(name, version, resolved, path) {
                    Err(m) => Err(m),
                    Ok(_) => {
                        let integrity = match e.integrity {
                            Some(i) => trim(i),
                            None => Seq::empty(),
                        };
                        if integrity.len() == 0 {
                            Err(no_integrity_msg(path, name))
                        } else if !integrity.contains('-') {
                            Err(bad_integrity_msg(path, name, integrity))
                        } else {
                            Ok(())
                        }
                    },
                },
            },
        }
    }
}

/// Checks one installed entry (see `spec_entry_fields`).
pub fn validate_npm_lockfile_entry_fields(
    package_name: &str,
    entry: &NpmEntry,
    lockfile_path: &str,
) -> (r: Result<(), String>)
    ensures
        unit_result_view(r) == spec_entry_fields(package_name@, entry@, lockfile_path@),
{
    if entry.link {
        return Ok(());
    }
    if entry.in_bundle || entry.bundled {
        let mut m = entry_prefix(lockfile_path, package_name);
        push_str(
            &mut m,
            "' is marked as bundled. sloppy-joe does not trust bundled npm payloads yet because the bundled code cannot be verified independently from package-lock.json.",
        );
        return Err(m);
    }
    let Some(version) = &entry.version else {
        return Ok(());
    };
    let Some(resolved) = &entry.resolved else {
        let mut m = entry_prefix(lockfile_path, package_name);
        push_str(
            &mut m,
            "' is missing a resolved source URL. sloppy-joe only trusts npm lockfile entries with explicit tarball provenance.",
        );
        return Err(m);
    };
    if !is_trusted_npm_resolved_source(resolved.as_str()) {
        return Err(untrusted_source_error(lockfile_path, package_name, resolved.as_str()));
    }
    match validate_npm_resolved_identity(package_name, version.as_str(), resolved.as_str(), lockfile_path) {
        Err(m) => {
            return Err(m);
        },
        Ok(_) => {},
    }
    let (iv, lo, hi) = match &entry.integrity {
        Some(i) => {
            let v = chars_of(i.as_str());
            assert(v@.subrange(0, v@.len() as int) == v@);
            let (lo, hi) = trim_range(&v, 0, v.len());
            (v, lo, hi)
        },
        None => (Vec::new(), 0, 0),
    };
    let ghost integrity = iv@.subrange(lo as int, hi as int);
    if lo == hi {
        let mut m = entry_prefix(lockfile_path, package_name);
        push_str(
            &mut m,
            "' is missing integrity metadata. sloppy-joe only trusts npm lockfile entries with explicit integrity hashes.",
        );
        return Err(m);
    }
    if !range_contains_char(&iv, lo, hi, '-') {
        let mut m = entry_prefix(lockfile_path, package_name);
        push_str(&mut m, "' has malformed integrity metadata '");
        let t = string_of_range(&iv, lo, hi);
        let s = sanitize_for_terminal(t.as_str());
        push_str(&mut m, s.as_str());
        push_str(&mut m, "'.");
        return Err(m);
    }
    Ok(())
}

/// The checks on one `packages` entry: the root and paths outside
/// `node_modules/` are exempt; the value must be an object; a `name` must be
/// the installed package (the key after its last `node_modules/`) or the
/// alias target recorded for it; then `spec_entry_fields` under that name.
pub open spec fn spec_package_entry(
    key: Seq<char>,
    entry: Option<NpmEntryView>,
    path: Seq<char>,
    aliases: Map<Seq<char>, Seq<char>>,
) -> Result<(), Seq<char>> {
    if key.len() == 0 {
        Ok(())
    } else {
        match entry {
            None => Err(package_not_object_msg(path, key)),
            Some(e) => if !contains_seq(key, "node_modules/"@) {
                Ok(())
            } else {
                let expected = match rsplit_once_seq(key, "node_modules/"@) {
                    Some((_, n)) => n,
                    None => key,
                };
                match e.name {
                    Some(locked) => if locked != expected && Some(locked) != map_get(aliases, expected) {
                        Err(claims_other_msg(path, expected, locked))
                    } else {
                        spec_entry_fields(locked, e, path)
                    },
                    None => spec_entry_fields(expected, e, path),
                }
            },
        }
    }
}

/// Checks one `packages` entry (see `spec_package_entry`).
pub fn validate_npm_lockfile_package_entry(
    key: &str,
    entry: &Option<NpmEntry>,
    lockfile_path: &str,
    allowed_alias_targets: &StringTable,
) -> (r: Result<(), String>)
    requires
        allowed_alias_targets.wf(),
    ensures
        unit_result_view(r) == spec_package_entry(
            key@,
            entry_view(*entry),
            lockfile_path@,
            allowed_alias_targets@,
        ),
{
    proof {
        reveal_strlit("node_modules/");
    }
    if key.unicode_len() == 0 {
        return Ok(());
    }
    let Some(e) = entry else {
        let mut m = join3("Broken lockfile '", lockfile_path, "': package entry '");
        push_str(&mut m, key);
        push_str(&mut m, "' was not an object.");
        return Err(m);
    };
    if !str_contains(key, "node_modules/") {
        return Ok(());
    }
    let v = chars_of(key);
    let pat = chars_of("node_modules/");
    assert(v@.subrange(0, v@.len() as int) == v@);
    let expected = match rsplit_once_range(&v, 0, v.len(), &pat) {
        Some((_, b)) => string_of_range(&v, b, v.len()),
        None => string_of_range(&v, 0, v.len()),
    };
    match &e.name {
        Some(locked) => {
            let alias = allowed_alias_targets.get(expected.as_str());
            let is_alias = match alias {
                Some(a) => str_eq(a.as_str(), locked.as_str()),
                None => false,
            };
            if !str_eq(locked.as_str(), expected.as_str()) && !is_alias {
                return Err(claims_other_error(lockfile_path, expected.as_str(), locked.as_str()));
            }
            validate_npm_lockfile_entry_fields(locked.as_str(), e, lockfile_path)
        },
        None => validate_npm_lockfile_entry_fields(expected.as_str(), e, lockfile_path),
    }
}

/// The checks on one entry of a v1 `dependencies` tree: the value must be an
/// object; a `name` must be the key or the alias target recorded for it;
/// then `spec_entry_fields` under that name.
pub open spec fn spec_dependency_entry(
    name: Seq<char>,
    entry: Option<NpmEntryView>,
    path: Seq<char>,
    aliases: Map<Seq<char>, Seq<char>>,
) -> Result<(), Seq<char>> {
    match entry {
        None => Err(dependency_not_object_msg(path, name)),
        Some(e) => match e.name {
            Some(locked) => if locked != name && Some(locked) != map_get(aliases, name) {
                Err(claims_other_msg(path, name, locked))
            } else {
                spec_entry_fields(locked, e, path)
            },
            None => spec_entry_fields(name, e, path),
        },
    }
}

fn validate_npm_lockfile_dependency_entry(
    item: &NpmV1Entry,
    lockfile_path: &str,
    allowed_alias_targets: &StringTable,
) -> (r: Result<(), String>)
    requires
        allowed_alias_targets.wf(),
    ensures
        unit_result_view(r) == spec_dependency_entry(
            item.name@,
            entry_view(item.entry),
            lockfile_path@,
            allowed_alias_targets@,
        ),
{
    let name = item.name.as_str();
    let Some(e) = &item.entry else {
        let mut m = join3("Broken lockfile '", lockfile_path, "': dependency entry '");
        push_str(&mut m, name);
        push_str(&mut m, "' was not an object.");
        return Err(m);
    };
    match &e.name {
        Some(locked) => {
            let alias = allowed_alias_targets.get(name);
            let is_alias = match alias {
                Some(a) => str_eq(a.as_str(), locked.as_str()),
                None => false,
            };
            if !str_eq(locked.as_str(), name) && !is_alias {
                return Err(claims_other_error(lockfile_path, name, locked.as_str()));
            }
            validate_npm_lockfile_entry_fields(locked.as_str(), e, lockfile_path)
        },
        None => validate_npm_lockfile_entry_fields(name, e, lockfile_path),
    }
}

// ---- whole lockfiles ----
/// The first error among `rs`, in order.
pub open spec fn first_error(rs: Seq<Result<(), Seq<char>>>) -> Result<(), Seq<char>>
    decreases rs.len(),
{
    if rs.len() == 0 {
        Ok(())
    } else {
        match rs[0] {
            Err(m) => Err(m),
            Ok(_) => first_error(rs.drop_first()),
        }
    }
}

pub open spec fn package_checks(
    ps: Seq<(Seq<char>, Option<NpmEntryView>)>,
    path: Seq<char>,
    aliases: Map<Seq<char>, Seq<char>>,
) -> Seq<Result<(), Seq<char>>> {
    ps.map_values(
        |p: (Seq<char>, Option<NpmEntryView>)| spec_package_entry(p.0, p.1, path, aliases),
    )
}

pub open spec fn dependency_checks(
    ds: Seq<(nat, Seq<char>, Option<NpmEntryView>)>,
    path: Seq<char>,
    aliases: Map<Seq<char>, Seq<char>>,
) -> Seq<Result<(), Seq<char>>> {
    ds.map_values(
        |d: (nat, Seq<char>, Option<NpmEntryView>)| spec_dependency_entry(d.1, d.2, path, aliases),
    )
}

/// Checks every entry of a v1 `dependencies` tree, nested ones included,
/// and reports the first failure.
pub fn validate_npm_lockfile_dependency_entries(
    dependencies: &Vec<NpmV1Entry>,
    lockfile_path: &str,
    allowed_alias_targets: &StringTable,
) -> (r: Result<(), String>)
    requires
        allowed_alias_targets.wf(),
    ensures
        unit_result_view(r) == first_error(
            dependency_checks(v1_view(dependencies@), lockfile_path@, allowed_alias_targets@),
        ),
{
    let ghost cs = dependency_checks(v1_view(dependencies@), lockfile_path@, allowed_alias_targets@);
    assert(cs.subrange(0, cs.len() as int) == cs);
    let mut i: usize = 0;
    while i < dependencies.len()
        invariant
            i <= dependencies@.len(),
            allowed_alias_targets.wf(),
            cs == dependency_checks(v1_view(dependencies@), lockfile_path@, allowed_alias_targets@),
            first_error(cs.subrange(i as int, cs.len() as int)) == first_error(cs),
        decreases dependencies.len() - i,
    {
        let r = validate_npm_lockfile_dependency_entry(
            &dependencies[i],
            lockfile_path,
            allowed_alias_targets,
        );
        proof {
            let rest = cs.subrange(i as int, cs.len() as int);
            assert(rest[0] == cs[i as int]);
            assert(rest.drop_first() == cs.subrange(i + 1, cs.len() as int));
        }
        if r.is_err() {
            return r;
        }
        i = i + 1;
    }
    assert(cs.subrange(i as int, cs.len() as int) == Seq::<Result<(), Seq<char>>>::empty());
    Ok(())
}

fn validate_npm_lockfile_package_entries(
    packages: &Vec<(String, Option<NpmEntry>)>,
    lockfile_path: &str,
    allowed_alias_targets: &StringTable,
) -> (r: Result<(), String>)
    requires
        allowed_alias_targets.wf(),
    ensures
        unit_result_view(r) == first_error(
            package_checks(packages_view(packages@), lockfile_path@, allowed_alias_targets@),
        ),
{
    let ghost cs = package_checks(packages_view(packages@), lockfile_path@, allowed_alias_targets@);
    assert(cs.subrange(0, cs.len() as int) == cs);
    let mut i: usize = 0;
    while i < packages.len()
        invariant
            i <= packages@.len(),
            allowed_alias_targets.wf(),
            cs == package_checks(packages_view(packages@), lockfile_path@, allowed_alias_targets@),
            first_error(cs.subrange(i as int, cs.len() as int)) == first_error(cs),
        decreases packages.len() - i,
    {
        let r = validate_npm_lockfile_package_entry(
            packages[i].0.as_str(),
            &packages[i].1,
            lockfile_path,
            allowed_alias_targets,
        );
        proof {
            let rest = cs.subrange(i as int, cs.len() as int);
            assert(rest[0] == cs[i as int]);
            assert(rest.drop_first() == cs.subrange(i + 1, cs.len() as int));
        }
        if r.is_err() {
            return r;
        }
        i = i + 1;
    }
    assert(cs.subrange(i as int, cs.len() as int) == Seq::<Result<(), Seq<char>>>::empty());
    Ok(())
}

/// The provenance rules over a whole lockfile: every `packages` entry when
/// there is that section, else every entry of the v1 `dependencies` tree.
pub open spec fn spec_provenance(
    lock: NpmLockView,
    path: Seq<char>,
    aliases: Map<Seq<char>, Seq<char>>,
) -> Result<(), Seq<char>> {
    match lock.packages {
        Some(ps) => first_error(package_checks(ps, path, aliases)),
        None => match lock.dependencies {
            Some(ds) => first_error(dependency_checks(ds, path, aliases)),
            None => Ok(()),
        },
    }
}

/// Checks the provenance of every installed entry of a lockfile and reports
/// the first failure.
pub fn validate_npm_lockfile_provenance(
    lockfile: &NpmLockfile,
    lockfile_path: &str,
    allowed_alias_targets: &StringTable,
) -> (r: Result<(), String>)
    requires
        allowed_alias_targets.wf(),
    ensures
        unit_result_view(r) == spec_provenance(lockfile@, lockfile_path@, allowed_alias_targets@),
{
    if let Some(packages) = &lockfile.packages {
        return validate_npm_lockfile_package_entries(packages, lockfile_path, allowed_alias_targets);
    }
    if let Some(dependencies) = &lockfile.dependencies {
        return validate_npm_lockfile_dependency_entries(
            dependencies,
            lockfile_path,
            allowed_alias_targets,
        );
    }
    Ok(())
}

// ---- lockfile format versions ----
pub open spec fn legacy_lockfile_msg(path: Seq<char>) -> Seq<char> {
    "This repo is using a legacy npm v5/v6 lockfile ('"@ + path
        + "', lockfileVersion: 1). Regenerate with a modern npm. If you must keep it temporarily, set allow_legacy_npm_v1_lockfile to true."@
}

/// A v1 lockfile is refused unless the configuration allows it.
pub fn validate_npm_lockfile_version(
    lockfile: &NpmLockfile,
    lockfile_path: &str,
    config: &SloppyJoeConfig,
) -> (r: Result<(), String>)
    ensures
        unit_result_view(r) == (if lockfile.lockfile_version == 1 && !config.allow_legacy_npm_v1_lockfile {
            Err(legacy_lockfile_msg(lockfile_path@))
        } else {
            Ok(())
        }),
{
    if lockfile.lockfile_version == 1 && !config.allow_legacy_npm_v1_lockfile {
        let mut m = string_of_str("This repo is using a legacy npm v5/v6 lockfile ('");
        push_str(&mut m, lockfile_path);
        push_str(
            &mut m,
            "', lockfileVersion: 1). Regenerate with a modern npm. If you must keep it temporarily, set allow_legacy_npm_v1_lockfile to true.",
        );
        return Err(m);
    }
    Ok(())
}

pub open spec fn legacy_warnings_spec(path: Seq<char>) -> Seq<IssueView> {
    seq![
        IssueView {
            message: "Legacy npm v5/v6 lockfile '"@ + path
                + "' is allowed by config, but sloppy-joe treats it as reduced-confidence input. package-lock v1 cannot prove modern npm artifact and graph invariants as strongly as current lockfiles."@,
            fix: "Regenerate the lockfile with a modern npm and commit the upgraded package-lock.json or npm-shrinkwrap.json."@,
            ..issue_spec("<lockfile>"@, names::RESOLUTION_NO_TRUSTED_LOCKFILE@, Severity::Warning)
        },
        IssueView {
            message: "Legacy npm v5/v6 lockfile '"@ + path
                + "' is scanned without trusted transitive coverage. sloppy-joe skips transitive dependency extraction for package-lock v1 because the older format is too weak for strict graph trust."@,
            fix: "Upgrade the lockfile with a modern npm if you need trusted transitive npm coverage."@,
            ..issue_spec(
                "<lockfile>"@,
                names::RESOLUTION_NO_TRUSTED_TRANSITIVE_COVERAGE@,
                Severity::Warning,
            )
        },
    ]
}

/// The two warnings raised when a v1 lockfile is scanned by permission.
pub fn legacy_npm_v1_warnings(lockfile_path: &str) -> (r: Vec<Issue>)
    ensures
        r@.len() == 2,
        r@[0]@ == legacy_warnings_spec(lockfile_path@)[0],
        r@[1]@ == legacy_warnings_spec(lockfile_path@)[1],
{
    let mut m1 = string_of_str("Legacy npm v5/v6 lockfile '");
    push_str(&mut m1, lockfile_path);
    push_str(
        &mut m1,
        "' is allowed by config, but sloppy-joe treats it as reduced-confidence input. package-lock v1 cannot prove modern npm artifact and graph invariants as strongly as current lockfiles.",
    );
    let i1 = Issue::new("<lockfile>", names::RESOLUTION_NO_TRUSTED_LOCKFILE, Severity::Warning).message(
        m1.as_str(),
    ).fix(
        "Regenerate the lockfile with a modern npm and commit the upgraded package-lock.json or npm-shrinkwrap.json.",
    );
    let mut m2 = string_of_str("Legacy npm v5/v6 lockfile '");
    push_str(&mut m2, lockfile_path);
    push_str(
        &mut m2,
        "' is scanned without trusted transitive coverage. sloppy-joe skips transitive dependency extraction for package-lock v1 because the older format is too weak for strict graph trust.",
    );
    let i2 = Issue::new(
        "<lockfile>",
        names::RESOLUTION_NO_TRUSTED_TRANSITIVE_COVERAGE,
        Severity::Warning,
    ).message(m2.as_str()).fix(
        "Upgrade the lockfile with a modern npm if you need trusted transitive npm coverage.",
    );
    let r = vec![i1, i2];
    assert(r@[0]@ == legacy_warnings_spec(lockfile_path@)[0]);
    r
}

/// The first error is `Ok` exactly when every check passed; otherwise it
/// is the error of the first failing check.
pub proof fn lemma_first_error_ok(rs: Seq<Result<(), Seq<char>>>)
    ensures
        first_error(rs) is Ok <==> forall|i: int| 0 <= i < rs.len() ==> #[trigger] rs[i] is Ok,
        first_error(rs) is Err ==> exists|i: int|
            0 <= i < rs.len() && #[trigger] rs[i] == first_error(rs) && forall|j: int| 0 <= j < i ==> rs[j] is Ok,
    decreases rs.len(),
{
    if rs.len() > 0 {
        let t = rs.drop_first();
        lemma_first_error_ok(t);
        if rs[0] is Ok {
            assert forall|i: int| 0 < i < rs.len() implies rs[i] == t[i - 1] by {}
            if first_error(rs) is Err {
                let i = choose|i: int|
                    0 <= i < t.len() && #[trigger] t[i] == first_error(t) && forall|j: int| 0 <= j < i ==> t[j] is Ok;
                assert(rs[i + 1] == t[i]);
                assert forall|j: int| 0 <= j < i + 1 implies rs[j] is Ok by {
                    if j > 0 {
                        assert(rs[j] == t[j - 1]);
                    }
                }
            } else {
                assert forall|i: int| 0 <= i < rs.len() implies #[trigger] rs[i] is Ok by {
                    if i > 0 {
                        assert(rs[i] == t[i - 1]);
                    }
                }
            }
        }
    }
}

} // verus!
