//! What a trusted `poetry.lock` must prove before a scan relies on it: its
//! metadata, a content hash that matches `pyproject.toml`, and artifact
//! hashes for every package the project can reach.
use vstd::prelude::*;
use crate::checks::names::RESOLUTION_NO_TRUSTED_LOCKFILE;
use crate::config::PoetryLockPolicy;
use crate::lockfiles::npm::{first_match, lemma_first_match};
use crate::lockfiles::poetry_hash::{TomlValue, poetry_content_hash, result_text, spec_content_hash};
use crate::lockfiles::python::{
    PoetryFileEntry, PoetryLock, PoetryMetadata, PoetryPackage, generated_poetry_version, normalize_name,
    poetry_filename_matches_package_version, poetry_lock_version_supported, spec_filename_matches,
    spec_generated_version, spec_lock_version_supported, spec_normalize,
};
use crate::lockfiles::python_sources::PythonPackageIdentity;
use crate::Dependency;
use crate::preflight::issue_views;
use crate::report::{Issue, IssueView, Severity, issue_spec, sanitize_for_terminal, sanitized, with_text};
use crate::text::{concat_all, concat_parts, str_eq, trim, trim_str};

verus! {

// ---- a missing proof ----
pub open spec fn missing_proof_error(source_path: Seq<char>, detail: Seq<char>) -> Seq<char> {
    "Broken lockfile '"@ + source_path + "': trusted Poetry mode requires stronger proof because "@ + detail
}

pub open spec fn missing_proof_issue(source_path: Seq<char>, detail: Seq<char>, fix: Seq<char>) -> IssueView {
    with_text(
        issue_spec("<lockfile>"@, RESOLUTION_NO_TRUSTED_LOCKFILE@, Severity::Warning),
        "Poetry lockfile '"@ + source_path + "' is being used in reduced-confidence mode because "@ + detail + "."@,
        fix,
    )
}

/// A missing proof, under the policy: the strict policy refuses the
/// lockfile; the lenient one records a warning and marks the lockfile as
/// not fully trusted.
pub open spec fn missing_proof_step(
    state: Result<(Seq<IssueView>, bool), Seq<char>>,
    policy: PoetryLockPolicy,
    source_path: Seq<char>,
    detail: Seq<char>,
    fix: Seq<char>,
) -> Result<(Seq<IssueView>, bool), Seq<char>> {
    match state {
        Err(e) => Err(e),
        Ok((w, _)) => match policy {
            PoetryLockPolicy::Strict => Err(missing_proof_error(source_path, detail)),
            PoetryLockPolicy::WarnMissingProofs => Ok((w.push(missing_proof_issue(source_path, detail, fix)), false)),
        },
    }
}

/// Records a missing proof of a trusted `poetry.lock` (see
/// `missing_proof_step`).
pub fn handle_poetry_missing_proof(
    warnings: &mut Vec<Issue>,
    fully_trusted: &mut bool,
    policy: PoetryLockPolicy,
    source_path: &str,
    detail: &str,
    fix: &str,
) -> (r: Result<(), String>)
    ensures
        match missing_proof_step(
            Ok((issue_views(old(warnings)@), *old(fully_trusted))),
            policy,
            source_path@,
            detail@,
            fix@,
        ) {
            Ok((w, t)) => r is Ok && issue_views(final(warnings)@) == w && *final(fully_trusted) == t,
            Err(e) => r matches Err(x) && x@ == e,
        },
        !*final(fully_trusted),
{
    *fully_trusted = false;
    match policy {
        PoetryLockPolicy::Strict => {
            let m = concat_parts(
                &["Broken lockfile '", source_path, "': trusted Poetry mode requires stronger proof because ", detail],
            );
            proof {
                reveal_with_fuel(concat_all, 5);
            }
            Err(m)
        },
        PoetryLockPolicy::WarnMissingProofs => {
            let msg = concat_parts(
                &["Poetry lockfile '", source_path, "' is being used in reduced-confidence mode because ", detail, "."],
            );
            proof {
                reveal_with_fuel(concat_all, 6);
            }
            let issue = Issue::new("<lockfile>", RESOLUTION_NO_TRUSTED_LOCKFILE, Severity::Warning).message(
                msg.as_str(),
            ).fix(fix);
            let ghost before = issue_views(warnings@);
            warnings.push(issue);
            assert(issue_views(warnings@) =~= before.push(issue@));
            Ok(())
        },
    }
}

// ---- artifact identity ----
/// A file entry that names a file and its hash (neither blank).
pub open spec fn file_has_identity(e: Option<PoetryFileEntry>) -> bool {
    match e {
        Some(f) => match (f.hash, f.file) {
            (Some(h), Some(x)) => trim(h@).len() > 0 && trim(x@).len() > 0,
            _ => false,
        },
        None => false,
    }
}

/// A file entry with identity whose file is an artifact of the package at
/// that version.
pub open spec fn file_matches_version(e: Option<PoetryFileEntry>, package: Seq<char>, version: Seq<char>) -> bool {
    file_has_identity(e) && spec_filename_matches(package, version, e.unwrap().file.unwrap()@)
}

pub open spec fn any_file_matches(files: Seq<Option<PoetryFileEntry>>, package: Seq<char>, version: Seq<char>) -> bool {
    exists|i: int| 0 <= i < files.len() && file_matches_version(#[trigger] files[i], package, version)
}

pub open spec fn metadata_files_view(t: Seq<(String, Option<Vec<Option<PoetryFileEntry>>>)>) -> Seq<
    (Seq<char>, Option<Vec<Option<PoetryFileEntry>>>),
> {
    t.map_values(|e: (String, Option<Vec<Option<PoetryFileEntry>>>)| (e.0@, e.1))
}

/// A package proves its artifacts through its own `files` array, or, where
/// it has none, through the metadata's `files` entry under its name.
pub open spec fn spec_has_artifact_identity(
    pkg: PoetryPackage,
    metadata: Option<PoetryMetadata>,
    name: Seq<char>,
    version: Seq<char>,
) -> bool {
    match pkg.files {
        Some(fs) => any_file_matches(fs@, name, version),
        None => match metadata {
            Some(m) => match m.files {
                Some(t) => match first_match(metadata_files_view(t@), name) {
                    Some(Some(fs)) => any_file_matches(fs@, name, version),
                    _ => false,
                },
                None => false,
            },
            None => false,
        },
    }
}

/// Whether a file entry names a file and its hash.
pub fn poetry_file_entry_has_identity(e: &Option<PoetryFileEntry>) -> (b: bool)
    ensures
        b == file_has_identity(*e),
{
    match e {
        Some(f) => match (&f.hash, &f.file) {
            (Some(h), Some(x)) => {
                let th = trim_str(h.as_str());
                let tx = trim_str(x.as_str());
                proof {
                    reveal_strlit("");
                }
                let blank_h = str_eq(th.as_str(), "");
                let blank_x = str_eq(tx.as_str(), "");
                assert(blank_h == (th@.len() == 0)) by {
                    if th@.len() == 0 {
                        assert(th@ =~= ""@);
                    }
                }
                assert(blank_x == (tx@.len() == 0)) by {
                    if tx@.len() == 0 {
                        assert(tx@ =~= ""@);
                    }
                }
                !blank_h && !blank_x
            },
            _ => false,
        },
        None => false,
    }
}

/// Whether a file entry proves an artifact of the package at that version.
pub fn poetry_metadata_file_entry_matches_version(e: &Option<PoetryFileEntry>, package_name: &str, version: &str) -> (b:
    bool)
    ensures
        b == file_matches_version(*e, package_name@, version@),
{
    if !poetry_file_entry_has_identity(e) {
        return false;
    }
    match e {
        Some(f) => match &f.file {
            Some(x) => poetry_filename_matches_package_version(package_name, version, x.as_str()),
            None => false,
        },
        None => false,
    }
}

fn any_file_entry_matches(files: &Vec<Option<PoetryFileEntry>>, package_name: &str, version: &str) -> (b: bool)
    ensures
        b == any_file_matches(files@, package_name@, version@),
{
    let mut i: usize = 0;
    while i < files.len()
        invariant
            i <= files@.len(),
            forall|j: int| 0 <= j < i ==> !file_matches_version(#[trigger] files@[j], package_name@, version@),
        decreases files.len() - i,
    {
        if poetry_metadata_file_entry_matches_version(&files[i], package_name, version) {
            return true;
        }
        i = i + 1;
    }
    false
}

fn metadata_files_for<'a>(t: &'a Vec<(String, Option<Vec<Option<PoetryFileEntry>>>)>, name: &str) -> (r: Option<
    &'a Option<Vec<Option<PoetryFileEntry>>>,
>)
    ensures
        match r {
            Some(x) => first_match(metadata_files_view(t@), name@) == Some(*x),
            None => first_match(metadata_files_view(t@), name@) is None,
        },
{
    let ghost tv = metadata_files_view(t@);
    let mut i: usize = 0;
    while i < t.len()
        invariant
            i <= t@.len(),
            tv == metadata_files_view(t@),
            forall|j: int| 0 <= j < i ==> #[trigger] tv[j].0 != name@,
        decreases t.len() - i,
    {
        if str_eq(t[i].0.as_str(), name) {
            proof {
                lemma_first_match(tv, name@, i as int);
            }
            return Some(&t[i].1);
        }
        i = i + 1;
    }
    proof {
        lemma_first_match(tv, name@, i as int);
    }
    None
}

/// Whether a package proves its artifacts (see
/// `spec_has_artifact_identity`).
pub fn poetry_package_has_artifact_identity(
    pkg: &PoetryPackage,
    metadata: &Option<PoetryMetadata>,
    package_name: &str,
    version: &str,
) -> (b: bool)
    ensures
        b == spec_has_artifact_identity(*pkg, *metadata, package_name@, version@),
{
    if let Some(files) = &pkg.files {
        return any_file_entry_matches(files, package_name, version);
    }
    match metadata {
        Some(m) => match &m.files {
            Some(t) => match metadata_files_for(t, package_name) {
                Some(Some(fs)) => any_file_entry_matches(fs, package_name, version),
                _ => false,
            },
            None => false,
        },
        None => false,
    }
}

// ---- provenance ----
pub open spec fn reachable_has(reachable: Seq<PythonPackageIdentity>, name: Seq<char>, version: Seq<char>) -> bool {
    exists|i: int|
        0 <= i < reachable.len() && (#[trigger] reachable[i]).normalized_name@ == name && reachable[i].version@
            == version
}

/// Every package table, in order, must have a name and a version; those
/// the project can reach must prove their artifacts, or count as a missing
/// proof.
pub open spec fn provenance_fold(
    pkgs: Seq<Option<PoetryPackage>>,
    metadata: Option<PoetryMetadata>,
    source_path: Seq<char>,
    reachable: Seq<PythonPackageIdentity>,
    policy: PoetryLockPolicy,
    state: Result<(Seq<IssueView>, bool), Seq<char>>,
) -> Result<(Seq<IssueView>, bool), Seq<char>>
    decreases pkgs.len(),
{
    if pkgs.len() == 0 {
        state
    } else {
        let before = provenance_fold(pkgs.drop_last(), metadata, source_path, reachable, policy, state);
        match before {
            Err(e) => Err(e),
            Ok(st) => match pkgs.last() {
                None => Ok(st),
                Some(pkg) => match pkg.name {
                    None => Err("Broken lockfile '"@ + source_path + "': package entry missing name"@),
                    Some(name) => match pkg.version {
                        None => Err(
                            "Broken lockfile '"@ + source_path + "': package '"@ + sanitized(name@)
                                + "' entry missing version"@,
                        ),
                        Some(version) => if !reachable_has(reachable, spec_normalize(name@), version@) {
                            Ok(st)
                        } else if spec_has_artifact_identity(pkg, metadata, name@, version@) {
                            Ok(st)
                        } else {
                            missing_proof_step(
                                Ok(st),
                                policy,
                                source_path,
                                "package '"@ + sanitized(name@) + "' is missing trusted artifact identity"@,
                                "Regenerate poetry.lock with artifact hashes present and commit the refreshed lockfile."@,
                            )
                        },
                    },
                },
            },
        }
    }
}

pub open spec fn lock_packages(lock: PoetryLock) -> Seq<Option<PoetryPackage>> {
    match lock.packages {
        Some(ps) => ps@,
        None => Seq::empty(),
    }
}

fn identity_reachable(reachable: &Vec<PythonPackageIdentity>, name: &str, version: &str) -> (b: bool)
    ensures
        b == reachable_has(reachable@, name@, version@),
{
    let mut i: usize = 0;
    while i < reachable.len()
        invariant
            i <= reachable@.len(),
            forall|j: int|
                0 <= j < i ==> !((#[trigger] reachable@[j]).normalized_name@ == name@ && reachable@[j].version@
                    == version@),
        decreases reachable.len() - i,
    {
        if str_eq(reachable[i].normalized_name.as_str(), name) && str_eq(reachable[i].version.as_str(), version) {
            return true;
        }
        i = i + 1;
    }
    false
}

pub open spec fn state_of(warnings: Seq<Issue>, trusted: bool) -> Result<(Seq<IssueView>, bool), Seq<char>> {
    Ok((issue_views(warnings), trusted))
}

/// Checks the artifact identity of every package the project can reach
/// (see `provenance_fold`).
pub fn validate_provenance(
    parsed: &PoetryLock,
    source_path: &str,
    reachable_packages: &Vec<PythonPackageIdentity>,
    policy: PoetryLockPolicy,
    warnings: &mut Vec<Issue>,
    fully_trusted: &mut bool,
) -> (r: Result<(), String>)
    ensures
        match provenance_fold(
            lock_packages(*parsed),
            parsed.metadata,
            source_path@,
            reachable_packages@,
            policy,
            state_of(old(warnings)@, *old(fully_trusted)),
        ) {
            Ok((w, t)) => r is Ok && issue_views(final(warnings)@) == w && *final(fully_trusted) == t,
            Err(e) => r matches Err(x) && x@ == e,
        },
{
    let ghost start = state_of(warnings@, *fully_trusted);
    let empty: Vec<Option<PoetryPackage>> = Vec::new();
    let pkgs = match &parsed.packages {
        Some(ps) => ps,
        None => &empty,
    };
    let mut i: usize = 0;
    assert(pkgs@.subrange(0, 0) =~= Seq::<Option<PoetryPackage>>::empty());
    while i < pkgs.len()
        invariant
            i <= pkgs@.len(),
            pkgs@ == lock_packages(*parsed),
            start == state_of(old(warnings)@, *old(fully_trusted)),
            provenance_fold(pkgs@.subrange(0, i as int), parsed.metadata, source_path@, reachable_packages@, policy, start)
                == state_of(warnings@, *fully_trusted),
        decreases pkgs.len() - i,
    {
        let ghost pre = pkgs@.subrange(0, i as int);
        assert(pkgs@.subrange(0, i + 1).drop_last() == pre);
        assert(pkgs@.subrange(0, i + 1).last() == pkgs@[i as int]);
        if let Some(pkg) = &pkgs[i] {
            let name = match &pkg.name {
                Some(n) => n,
                None => {
                    let m = concat_parts(&["Broken lockfile '", source_path, "': package entry missing name"]);
                    proof {
                        reveal_with_fuel(concat_all, 4);
                        assert(pkgs@[i as int] == Some(*pkg));
                        assert(provenance_fold(pkgs@.subrange(0, i + 1), parsed.metadata, source_path@, reachable_packages@, policy, start)
                            == Err::<(Seq<IssueView>, bool), Seq<char>>(m@));
                        lemma_provenance_err(pkgs@, parsed.metadata, source_path@, reachable_packages@, policy, start, (i + 1) as nat);
                    }
                    return Err(m);
                },
            };
            let version = match &pkg.version {
                Some(v) => v,
                None => {
                    let shown = sanitize_for_terminal(name.as_str());
                    let m = concat_parts(
                        &["Broken lockfile '", source_path, "': package '", shown.as_str(), "' entry missing version"],
                    );
                    proof {
                        reveal_with_fuel(concat_all, 6);
                        assert(pkgs@[i as int] == Some(*pkg));
                        assert(provenance_fold(pkgs@.subrange(0, i + 1), parsed.metadata, source_path@, reachable_packages@, policy, start)
                            == Err::<(Seq<IssueView>, bool), Seq<char>>(m@));
                        lemma_provenance_err(pkgs@, parsed.metadata, source_path@, reachable_packages@, policy, start, (i + 1) as nat);
                    }
                    return Err(m);
                },
            };
            let normalized = normalize_name(name.as_str());
            if identity_reachable(reachable_packages, normalized.as_str(), version.as_str())
                && !poetry_package_has_artifact_identity(pkg, &parsed.metadata, name.as_str(), version.as_str()) {
                let shown = sanitize_for_terminal(name.as_str());
                let detail = concat_parts(&["package '", shown.as_str(), "' is missing trusted artifact identity"]);
                proof {
                    reveal_with_fuel(concat_all, 4);
                }
                let r = handle_poetry_missing_proof(
                    warnings,
                    fully_trusted,
                    policy,
                    source_path,
                    detail.as_str(),
                    "Regenerate poetry.lock with artifact hashes present and commit the refreshed lockfile.",
                );
                if let Err(e) = r {
                    proof {
                        lemma_provenance_err(pkgs@, parsed.metadata, source_path@, reachable_packages@, policy, start, (i + 1) as nat);
                    }
                    return Err(e);
                }
            }
        }
        i = i + 1;
    }
    assert(pkgs@.subrange(0, pkgs@.len() as int) == pkgs@);
    Ok(())
}

/// A failure among the first `m` packages is the result for the whole
/// list.
proof fn lemma_provenance_err(
    pkgs: Seq<Option<PoetryPackage>>,
    metadata: Option<PoetryMetadata>,
    source_path: Seq<char>,
    reachable: Seq<PythonPackageIdentity>,
    policy: PoetryLockPolicy,
    state: Result<(Seq<IssueView>, bool), Seq<char>>,
    m: nat,
)
    requires
        m <= pkgs.len(),
        provenance_fold(pkgs.subrange(0, m as int), metadata, source_path, reachable, policy, state) is Err,
    ensures
        provenance_fold(pkgs, metadata, source_path, reachable, policy, state) == provenance_fold(
            pkgs.subrange(0, m as int),
            metadata,
            source_path,
            reachable,
            policy,
            state,
        ),
    decreases pkgs.len() - m,
{
    if m < pkgs.len() {
        let next = pkgs.subrange(0, (m + 1) as int);
        assert(next.drop_last() == pkgs.subrange(0, m as int));
        lemma_provenance_err(pkgs, metadata, source_path, reachable, policy, state, m + 1);
    } else {
        assert(pkgs.subrange(0, m as int) == pkgs);
    }
}

// ---- the whole check ----
/// The outcome of the checks on a trusted `poetry.lock`: the warnings it
/// raised, and whether every proof was present.
#[derive(Debug)]
pub struct PoetryLockValidation {
    pub warnings: Vec<Issue>,
    pub fully_trusted: bool,
}

/// `(major, minor, patch)` comes before 2.3.0, in tuple order.
pub open spec fn before_2_3(v: (u64, u64, u64)) -> bool {
    v.0 < 2 || (v.0 == 2 && v.1 < 3)
}

pub open spec fn stale_hash_msg(source_path: Seq<char>) -> Seq<char> {
    "Broken lockfile '"@ + source_path + "': poetry.lock content-hash is stale or contradictory to pyproject.toml"@
}

pub open spec fn regenerate_fix() -> Seq<char> {
    "Regenerate poetry.lock with `poetry lock` and commit the fresh lockfile."@
}

/// The `content-hash` must be the hash of `pyproject.toml` with its
/// dependency groups, or, for a lockfile that a Poetry before 2.3.0
/// generated, the one without them.
pub open spec fn spec_hash_check(
    content_hash: Seq<char>,
    lockfile_content: Seq<char>,
    pyproject: TomlValue,
    source_path: Seq<char>,
) -> Result<(), Seq<char>> {
    match spec_content_hash(pyproject, true) {
        Err(e) => Err(e),
        Ok(expected) => {
            let legacy = match spec_generated_version(lockfile_content) {
                Some(v) => before_2_3(v),
                None => false,
            };
            if legacy {
                match spec_content_hash(pyproject, false) {
                    Err(e) => Err(e),
                    Ok(old_expected) => if content_hash != expected && content_hash != old_expected {
                        Err(stale_hash_msg(source_path))
                    } else {
                        Ok(())
                    },
                }
            } else if content_hash != expected {
                Err(stale_hash_msg(source_path))
            } else {
                Ok(())
            }
        },
    }
}

/// The proofs a trusted `poetry.lock` must carry, in order: a metadata
/// table and a `lock-version` in it (without which nothing more is
/// checked), a supported `lock-version`, a `content-hash` that matches
/// `pyproject.toml` (see `spec_hash_check`), and the artifact identity of
/// every reachable package (see `provenance_fold`). Under the lenient
/// policy each missing proof is a warning.
pub open spec fn spec_lock_proofs(
    lock: PoetryLock,
    lockfile_content: Seq<char>,
    pyproject: TomlValue,
    source_path: Seq<char>,
    reachable: Seq<PythonPackageIdentity>,
    policy: PoetryLockPolicy,
) -> Result<(Seq<IssueView>, bool), Seq<char>> {
    let s0 = Ok::<(Seq<IssueView>, bool), Seq<char>>((Seq::empty(), true));
    match lock.metadata {
        None => missing_proof_step(s0, policy, source_path, "metadata section is missing"@, regenerate_fix()),
        Some(m) => match m.lock_version {
            None => missing_proof_step(
                s0,
                policy,
                source_path,
                "lock-version metadata is missing"@,
                "Regenerate poetry.lock with a current Poetry and commit the updated lockfile."@,
            ),
            Some(v) => {
                let s1 = if spec_lock_version_supported(v@) {
                    s0
                } else {
                    missing_proof_step(
                        s0,
                        policy,
                        source_path,
                        "lock-version '"@ + v@ + "' is outside the supported Poetry trust range"@,
                        "Upgrade Poetry if needed, regenerate poetry.lock, and commit the updated lockfile."@,
                    )
                };
                let s2 = match s1 {
                    Err(e) => Err(e),
                    Ok(st) => match m.content_hash {
                        Some(h) => match spec_hash_check(h@, lockfile_content, pyproject, source_path) {
                            Err(e) => Err(e),
                            Ok(()) => Ok(st),
                        },
                        None => missing_proof_step(
                            Ok(st),
                            policy,
                            source_path,
                            "content-hash metadata is missing"@,
                            regenerate_fix(),
                        ),
                    },
                };
                provenance_fold(lock_packages(lock), lock.metadata, source_path, reachable, policy, s2)
            },
        },
    }
}

/// A failed state stays failed through the package checks.
proof fn lemma_provenance_keeps_err(
    pkgs: Seq<Option<PoetryPackage>>,
    metadata: Option<PoetryMetadata>,
    source_path: Seq<char>,
    reachable: Seq<PythonPackageIdentity>,
    policy: PoetryLockPolicy,
    state: Result<(Seq<IssueView>, bool), Seq<char>>,
)
    requires
        state is Err,
    ensures
        provenance_fold(pkgs, metadata, source_path, reachable, policy, state) == state,
    decreases pkgs.len(),
{
    if pkgs.len() > 0 {
        lemma_provenance_keeps_err(pkgs.drop_last(), metadata, source_path, reachable, policy, state);
    }
}

fn check_content_hash(content_hash: &str, lockfile_content: &str, pyproject: &TomlValue, source_path: &str) -> (r: Result<
    (),
    String,
>)
    ensures
        match spec_hash_check(content_hash@, lockfile_content@, *pyproject, source_path@) {
            Ok(()) => r is Ok,
            Err(e) => r matches Err(x) && x@ == e,
        },
{
    let expected = match poetry_content_hash(pyproject, true) {
        Ok(h) => h,
        Err(e) => {
            return Err(e);
        },
    };
    let legacy = match generated_poetry_version(lockfile_content) {
        Some(v) => v.0 < 2 || (v.0 == 2 && v.1 < 3),
        None => false,
    };
    let stale = concat_parts(
        &[
            "Broken lockfile '",
            source_path,
            "': poetry.lock content-hash is stale or contradictory to pyproject.toml",
        ],
    );
    proof {
        reveal_with_fuel(concat_all, 4);
    }
    if legacy {
        let old_expected = match poetry_content_hash(pyproject, false) {
            Ok(h) => h,
            Err(e) => {
                return Err(e);
            },
        };
        if !str_eq(content_hash, expected.as_str()) && !str_eq(content_hash, old_expected.as_str()) {
            return Err(stale);
        }
        Ok(())
    } else {
        if !str_eq(content_hash, expected.as_str()) {
            return Err(stale);
        }
        Ok(())
    }
}

/// Checks the proofs of a trusted `poetry.lock` (see `spec_lock_proofs`):
/// `lockfile_content` is its text, and `reachable_packages` the packages
/// the project can reach. Whether the lockfile agrees with the manifest's
/// requirements is not part of this check.
pub fn validate_poetry_lock_proofs(
    parsed: &PoetryLock,
    lockfile_content: &str,
    pyproject: &TomlValue,
    source_path: &str,
    reachable_packages: &Vec<PythonPackageIdentity>,
    policy: PoetryLockPolicy,
) -> (r: Result<PoetryLockValidation, String>)
    ensures
        match spec_lock_proofs(*parsed, lockfile_content@, *pyproject, source_path@, reachable_packages@, policy) {
            Ok((w, t)) => r matches Ok(v) && issue_views(v.warnings@) == w && v.fully_trusted == t,
            Err(e) => r matches Err(x) && x@ == e,
        },
{
    let mut warnings: Vec<Issue> = Vec::new();
    let mut fully_trusted = true;
    assert(issue_views(warnings@) =~= Seq::<IssueView>::empty());
    let m = match &parsed.metadata {
        Some(m) => m,
        None => {
            match handle_poetry_missing_proof(
                &mut warnings,
                &mut fully_trusted,
                policy,
                source_path,
                "metadata section is missing",
                "Regenerate poetry.lock with `poetry lock` and commit the fresh lockfile.",
            ) {
                Ok(()) => {
                    return Ok(PoetryLockValidation { warnings, fully_trusted });
                },
                Err(e) => {
                    return Err(e);
                },
            }
        },
    };
    let lock_version = match &m.lock_version {
        Some(v) => v,
        None => {
            match handle_poetry_missing_proof(
                &mut warnings,
                &mut fully_trusted,
                policy,
                source_path,
                "lock-version metadata is missing",
                "Regenerate poetry.lock with a current Poetry and commit the updated lockfile.",
            ) {
                Ok(()) => {
                    return Ok(PoetryLockValidation { warnings, fully_trusted });
                },
                Err(e) => {
                    return Err(e);
                },
            }
        },
    };
    let ghost s0 = Ok::<(Seq<IssueView>, bool), Seq<char>>((Seq::empty(), true));
    if !poetry_lock_version_supported(lock_version.as_str()) {
        let detail = concat_parts(
            &["lock-version '", lock_version.as_str(), "' is outside the supported Poetry trust range"],
        );
        proof {
            reveal_with_fuel(concat_all, 4);
        }
        if let Err(e) = handle_poetry_missing_proof(
            &mut warnings,
            &mut fully_trusted,
            policy,
            source_path,
            detail.as_str(),
            "Upgrade Poetry if needed, regenerate poetry.lock, and commit the updated lockfile.",
        ) {
            proof {
                lemma_provenance_keeps_err(lock_packages(*parsed), parsed.metadata, source_path@, reachable_packages@, policy, Err(e@));
            }
            return Err(e);
        }
    }
    let ghost s1 = state_of(warnings@, fully_trusted);
    match &m.content_hash {
        Some(h) => {
            if let Err(e) = check_content_hash(h.as_str(), lockfile_content, pyproject, source_path) {
                proof {
                    lemma_provenance_keeps_err(lock_packages(*parsed), parsed.metadata, source_path@, reachable_packages@, policy, Err(e@));
                }
                return Err(e);
            }
        },
        None => {
            if let Err(e) = handle_poetry_missing_proof(
                &mut warnings,
                &mut fully_trusted,
                policy,
                source_path,
                "content-hash metadata is missing",
                "Regenerate poetry.lock with `poetry lock` and commit the fresh lockfile.",
            ) {
                proof {
                    lemma_provenance_keeps_err(lock_packages(*parsed), parsed.metadata, source_path@, reachable_packages@, policy, Err(e@));
                }
                return Err(e);
            }
        },
    }
    match validate_provenance(parsed, source_path, reachable_packages, policy, &mut warnings, &mut fully_trusted) {
        Ok(()) => Ok(PoetryLockValidation { warnings, fully_trusted }),
        Err(e) => Err(e),
    }
}

// ---- root requests ----
/// The locked versions of the packages named `name`, in order (`nodes`
/// gives each package's normalized name and version).
pub open spec fn node_versions(nodes: Seq<(String, String)>, name: Seq<char>) -> Seq<Seq<char>>
    decreases nodes.len(),
{
    if nodes.len() == 0 {
        Seq::empty()
    } else {
        let r = node_versions(nodes.drop_last(), name);
        if nodes.last().0@ == name {
            r.push(nodes.last().1@)
        } else {
            r
        }
    }
}

/// The version a direct dependency is trusted at: its exact pin; else the
/// one version the lockfile has of it; none where the lockfile has none;
/// refused where it has several.
pub open spec fn spec_root_request_version(
    exact: Option<Seq<char>>,
    package_name: Seq<char>,
    versions: Seq<Seq<char>>,
) -> Result<Option<Seq<char>>, Seq<char>> {
    match exact {
        Some(v) => Ok(Some(v)),
        None => if versions.len() == 0 {
            Ok(None)
        } else if forall|i: int| 0 <= i < versions.len() ==> #[trigger] versions[i] == versions[0] {
            Ok(Some(versions[0]))
        } else {
            Err(
                "Dependency '"@ + sanitized(package_name)
                    + "' resolves ambiguously in poetry.lock and cannot be trusted exactly"@,
            )
        },
    }
}

/// The version a direct dependency is trusted at (see
/// `spec_root_request_version`): `normalized_name` is its normalized
/// package name, and `nodes` the normalized name and version of each
/// package of the lockfile.
pub fn resolve_root_request_version(dep: &Dependency, normalized_name: &str, nodes: &Vec<(String, String)>) -> (r:
    Result<Option<String>, String>)
    ensures
        match spec_root_request_version(
            dep@.exact(),
            dep@.package(),
            node_versions(nodes@, normalized_name@),
        ) {
            Ok(Some(v)) => r matches Ok(Some(x)) && x@ == v,
            Ok(None) => r matches Ok(None),
            Err(e) => r matches Err(x) && x@ == e,
        },
{
    if let Some(v) = dep.exact_version() {
        return Ok(Some(v));
    }
    let ghost vs = node_versions(nodes@, normalized_name@);
    let mut first: Option<String> = None;
    let mut ambiguous = false;
    let mut i: usize = 0;
    assert(nodes@.subrange(0, 0) =~= Seq::<(String, String)>::empty());
    while i < nodes.len()
        invariant
            i <= nodes@.len(),
            vs == node_versions(nodes@, normalized_name@),
            match first {
                None => node_versions(nodes@.subrange(0, i as int), normalized_name@).len() == 0 && !ambiguous,
                Some(f) => {
                    let pre = node_versions(nodes@.subrange(0, i as int), normalized_name@);
                    &&& pre.len() > 0
                    &&& pre[0] == f@
                    &&& ambiguous == !(forall|j: int| 0 <= j < pre.len() ==> #[trigger] pre[j] == pre[0])
                },
            },
        decreases nodes.len() - i,
    {
        let ghost pre = node_versions(nodes@.subrange(0, i as int), normalized_name@);
        assert(nodes@.subrange(0, i + 1).drop_last() == nodes@.subrange(0, i as int));
        assert(nodes@.subrange(0, i + 1).last() == nodes@[i as int]);
        assert(node_versions(nodes@.subrange(0, i + 1), normalized_name@) == (if nodes@[i as int].0@ == normalized_name@ {
            pre.push(nodes@[i as int].1@)
        } else {
            pre
        }));
        if str_eq(nodes[i].0.as_str(), normalized_name) {
            let ghost next = pre.push(nodes@[i as int].1@);
            match &first {
                None => {
                    first = Some(nodes[i].1.clone());
                    assert(next.len() == 1);
                },
                Some(f) => {
                    if !str_eq(f.as_str(), nodes[i].1.as_str()) {
                        ambiguous = true;
                        assert(next[next.len() - 1] != next[0]);
                    } else {
                        proof {
                            if !ambiguous {
                                assert forall|j: int| 0 <= j < next.len() implies #[trigger] next[j] == next[0] by {
                                    if j < pre.len() {
                                        assert(next[j] == pre[j]);
                                    }
                                }
                            } else {
                                let j = choose|j: int| 0 <= j < pre.len() && !(#[trigger] pre[j] == pre[0]);
                                assert(next[j] == pre[j]);
                            }
                        }
                    }
                    proof {
                        if ambiguous && pre.len() > 0 {
                            if !(forall|j: int| 0 <= j < pre.len() ==> #[trigger] pre[j] == pre[0]) {
                                let j = choose|j: int| 0 <= j < pre.len() && !(#[trigger] pre[j] == pre[0]);
                                assert(next[j] == pre[j]);
                            }
                        }
                    }
                },
            }
        }
        i = i + 1;
    }
    assert(nodes@.subrange(0, nodes@.len() as int) == nodes@);
    match first {
        None => Ok(None),
        Some(f) => {
            if ambiguous {
                let shown = sanitize_for_terminal(dep.package_name());
                let m = concat_parts(
                    &[
                        "Dependency '",
                        shown.as_str(),
                        "' resolves ambiguously in poetry.lock and cannot be trusted exactly",
                    ],
                );
                proof {
                    reveal_with_fuel(concat_all, 4);
                }
                Err(m)
            } else {
                Ok(Some(f))
            }
        },
    }
}

} // verus!
