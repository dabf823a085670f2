//! The authoritative lockfile a JavaScript project must provide before a
//! scan: which files are looked for, and what a missing, unreadable or
//! shadowing lockfile is answered.
use vstd::prelude::*;
use crate::lockfiles::{join, join_strings, strings_view};
use crate::paths::{join_path, spec_join};
use crate::project::{JsPackageManager, ProjectInputSpec, js_lockfile_help, spec_js_lockfile_help};
use crate::text::{push_str, string_of_str};

verus! {

/// What looking for a lockfile found: nothing; a readable file; a file
/// that could not be read (with the error's text); or an entry whose
/// metadata could not be read (with the error's text).
#[derive(Debug)]
pub enum LockfileProbe {
    Missing,
    Readable,
    Unreadable(String),
    Uninspectable(String),
}

/// What a JavaScript project must provide: one of the npm lockfiles in its
/// directory (a project without a workspace binding); or, for a bound
/// project, none of `shadow_candidates` in its own directory (empty where
/// the project is its workspace root) and the binding's lockfile.
#[derive(Debug)]
pub enum JsLockfileRequirement {
    OneOf(Vec<String>),
    Bound { shadow_candidates: Vec<String> },
}

pub open spec fn npm_candidates() -> Seq<Seq<char>> {
    seq!["npm-shrinkwrap.json"@, "package-lock.json"@]
}

pub open spec fn shadow_candidates() -> Seq<Seq<char>> {
    seq![
        "npm-shrinkwrap.json"@,
        "package-lock.json"@,
        "pnpm-lock.yaml"@,
        "yarn.lock"@,
        "bun.lock"@,
        "bun.lockb"@,
    ]
}

/// The requirement for a project (see `JsLockfileRequirement`);
/// `is_workspace_root` says whether its directory is its workspace root's.
pub fn js_lockfile_requirement(spec: &ProjectInputSpec, is_workspace_root: bool) -> (r: JsLockfileRequirement)
    ensures
        match spec.js_binding {
            None => r matches JsLockfileRequirement::OneOf(c) && strings_view(c@) == npm_candidates(),
            Some(_) => r matches JsLockfileRequirement::Bound { shadow_candidates: c } && strings_view(c@) == (
            if is_workspace_root {
                Seq::<Seq<char>>::empty()
            } else {
                shadow_candidates()
            }),
        },
{
    let mut names: Vec<String> = Vec::new();
    match &spec.js_binding {
        None => {
            names.push(string_of_str("npm-shrinkwrap.json"));
            names.push(string_of_str("package-lock.json"));
            assert(strings_view(names@) =~= npm_candidates());
            JsLockfileRequirement::OneOf(names)
        },
        Some(_) => {
            if !is_workspace_root {
                names.push(string_of_str("npm-shrinkwrap.json"));
                names.push(string_of_str("package-lock.json"));
                names.push(string_of_str("pnpm-lock.yaml"));
                names.push(string_of_str("yarn.lock"));
                names.push(string_of_str("bun.lock"));
                names.push(string_of_str("bun.lockb"));
                assert(strings_view(names@) =~= shadow_candidates());
            } else {
                assert(strings_view(names@) =~= Seq::<Seq<char>>::empty());
            }
            JsLockfileRequirement::Bound { shadow_candidates: names }
        },
    }
}

pub open spec fn probe_at(probes: Seq<LockfileProbe>, i: int) -> LockfileProbe {
    if 0 <= i < probes.len() {
        probes[i]
    } else {
        LockfileProbe::Missing
    }
}

pub open spec fn missing_one_of_msg(names: Seq<Seq<char>>, help: Seq<char>) -> Seq<char> {
    "Required lockfile '"@ + join(names, "' or '"@) + "' is missing. Fix: "@ + help
}

/// One of `names` in `dir`, probed in order from `i` on (`found`: one was
/// readable before): the first unreadable or uninspectable one is an
/// error; otherwise a readable one suffices, and none is a missing
/// lockfile.
pub open spec fn one_of_from(
    dir: Seq<char>,
    names: Seq<Seq<char>>,
    probes: Seq<LockfileProbe>,
    help: Seq<char>,
    i: int,
    found: bool,
) -> Result<(), Seq<char>>
    decreases names.len() - i,
{
    if i < 0 || i >= names.len() {
        if found {
            Ok(())
        } else {
            Err(missing_one_of_msg(names, help))
        }
    } else {
        match probe_at(probes, i) {
            LockfileProbe::Missing => one_of_from(dir, names, probes, help, i + 1, found),
            LockfileProbe::Readable => one_of_from(dir, names, probes, help, i + 1, true),
            LockfileProbe::Unreadable(e) => Err(
                "Required lockfile '"@ + spec_join(dir, names[i]) + "' is unreadable: "@ + e@ + ". Fix: "@ + help,
            ),
            LockfileProbe::Uninspectable(e) => Err(
                "Required lockfile '"@ + spec_join(dir, names[i]) + "' could not be inspected: "@ + e@ + ". Fix: "@
                    + help,
            ),
        }
    }
}

pub open spec fn unit_view(r: Result<(), String>) -> Result<(), Seq<char>> {
    match r {
        Ok(()) => Ok(()),
        Err(e) => Err(e@),
    }
}

fn probe_error(dir: &str, name: &str, what: &str, e: &str, help: &str) -> (m: String)
    ensures
        m@ == "Required lockfile '"@ + spec_join(dir@, name@) + what@ + e@ + ". Fix: "@ + help@,
{
    let mut m = string_of_str("Required lockfile '");
    let p = join_path(dir, name);
    push_str(&mut m, p.as_str());
    push_str(&mut m, what);
    push_str(&mut m, e);
    push_str(&mut m, ". Fix: ");
    push_str(&mut m, help);
    m
}

/// Whether one of `names` in `dir` is a readable lockfile, from the probe
/// of each (`probes[i]` for `names[i]`; a missing probe counts as
/// nothing found); see `one_of_from`.
pub fn one_of_lockfiles_verdict(dir: &str, names: &Vec<String>, probes: &Vec<LockfileProbe>, help: &str) -> (r: Result<
    (),
    String,
>)
    ensures
        unit_view(r) == one_of_from(dir@, strings_view(names@), probes@, help@, 0, false),
{
    let ghost ns = strings_view(names@);
    let mut found = false;
    let mut i: usize = 0;
    while i < names.len()
        invariant
            i <= names@.len(),
            ns == strings_view(names@),
            one_of_from(dir@, ns, probes@, help@, 0, false) == one_of_from(dir@, ns, probes@, help@, i as int, found),
        decreases names.len() - i,
    {
        assert(ns[i as int] == names@[i as int]@);
        if i < probes.len() {
            match &probes[i] {
                LockfileProbe::Missing => {},
                LockfileProbe::Readable => {
                    found = true;
                },
                LockfileProbe::Unreadable(e) => {
                    return Err(probe_error(dir, names[i].as_str(), "' is unreadable: ", e.as_str(), help));
                },
                LockfileProbe::Uninspectable(e) => {
                    return Err(probe_error(dir, names[i].as_str(), "' could not be inspected: ", e.as_str(), help));
                },
            }
        }
        i = i + 1;
    }
    if found {
        Ok(())
    } else {
        let mut m = string_of_str("Required lockfile '");
        let joined = join_strings(names, "' or '");
        push_str(&mut m, joined.as_str());
        push_str(&mut m, "' is missing. Fix: ");
        push_str(&mut m, help);
        Err(m)
    }
}

pub open spec fn expected_lockfiles(m: JsPackageManager) -> Seq<char> {
    match m {
        JsPackageManager::Npm => "'npm-shrinkwrap.json' or 'package-lock.json'"@,
        JsPackageManager::Pnpm => "'pnpm-lock.yaml'"@,
        JsPackageManager::Yarn => "'yarn.lock'"@,
        JsPackageManager::Bun => "'bun.lock' or 'bun.lockb'"@,
    }
}

pub open spec fn help_of(spec: ProjectInputSpec) -> Seq<char> {
    spec_js_lockfile_help(
        spec.kind,
        match spec.js_binding {
            Some(b) => Some(b.manager),
            None => None,
        },
    )
}

/// The outcome for a project bound to one package manager: a second
/// lockfile of another manager beside it is refused, naming the expected
/// one; no lockfile at all is reported as missing; otherwise the expected
/// lockfile must be readable (`lockfile_read` holds what reading it gave).
pub open spec fn spec_bound_verdict(
    spec: ProjectInputSpec,
    shadow: Option<Seq<char>>,
    lockfile_read: Option<Result<(), Seq<char>>>,
) -> Result<(), Seq<char>> {
    let b = spec.js_binding->0;
    match shadow {
        Some(s) => Err(
            "Found shadow JS lockfile '"@ + s + "' under workspace project '"@ + spec.manifest_path@
                + "'. The authoritative "@ + b.manager.spec_name() + " lockfile lives at '"@ + match b.lockfile_path {
                Some(p) => p@,
                None => "<missing>"@,
            } + "'. Remove the child lockfile and keep the workspace root lockfile as the single source of truth."@,
        ),
        None => match b.lockfile_path {
            None => Err(
                "Required lockfile "@ + expected_lockfiles(b.manager) + " is missing for "@ + b.manager.spec_name()
                    + " project '"@ + spec.manifest_path@ + "'. Fix: "@ + help_of(spec),
            ),
            Some(p) => match lockfile_read {
                Some(Err(e)) => Err(
                    "Required lockfile '"@ + p@ + "' is missing or unreadable: "@ + e + ". Fix: "@ + help_of(spec),
                ),
                _ => Ok(()),
            },
        },
    }
}

fn expected(m: JsPackageManager) -> (s: &'static str)
    ensures
        s@ == expected_lockfiles(m),
{
    match m {
        JsPackageManager::Npm => "'npm-shrinkwrap.json' or 'package-lock.json'",
        JsPackageManager::Pnpm => "'pnpm-lock.yaml'",
        JsPackageManager::Yarn => "'yarn.lock'",
        JsPackageManager::Bun => "'bun.lock' or 'bun.lockb'",
    }
}

/// The verdict on a bound project's lockfile (see `spec_bound_verdict`):
/// `shadow` is the first of its shadow candidates found in its directory.
pub fn bound_lockfile_verdict(spec: &ProjectInputSpec, shadow: Option<&str>, lockfile_read: Option<Result<(), String>>) -> (r: Result<
    (),
    String,
>)
    requires
        spec.js_binding is Some,
    ensures
        unit_view(r) == spec_bound_verdict(
            *spec,
            match shadow {
                Some(s) => Some(s@),
                None => None,
            },
            match lockfile_read {
                Some(x) => Some(unit_view(x)),
                None => None,
            },
        ),
{
    let b = spec.js_binding.as_ref().unwrap();
    if let Some(s) = shadow {
        let mut m = string_of_str("Found shadow JS lockfile '");
        push_str(&mut m, s);
        push_str(&mut m, "' under workspace project '");
        push_str(&mut m, spec.manifest_path.as_str());
        push_str(&mut m, "'. The authoritative ");
        push_str(&mut m, b.manager.as_str());
        push_str(&mut m, " lockfile lives at '");
        match &b.lockfile_path {
            Some(p) => push_str(&mut m, p.as_str()),
            None => push_str(&mut m, "<missing>"),
        }
        push_str(
            &mut m,
            "'. Remove the child lockfile and keep the workspace root lockfile as the single source of truth.",
        );
        return Err(m);
    }
    let help = js_lockfile_help(spec);
    match &b.lockfile_path {
        None => {
            let mut m = string_of_str("Required lockfile ");
            push_str(&mut m, expected(b.manager));
            push_str(&mut m, " is missing for ");
            push_str(&mut m, b.manager.as_str());
            push_str(&mut m, " project '");
            push_str(&mut m, spec.manifest_path.as_str());
            push_str(&mut m, "'. Fix: ");
            push_str(&mut m, help.as_str());
            Err(m)
        },
        Some(p) => match lockfile_read {
            Some(Err(e)) => {
                let mut m = string_of_str("Required lockfile '");
                push_str(&mut m, p.as_str());
                push_str(&mut m, "' is missing or unreadable: ");
                push_str(&mut m, e.as_str());
                push_str(&mut m, ". Fix: ");
                push_str(&mut m, help.as_str());
                Err(m)
            },
            _ => Ok(()),
        },
    }
}

} // verus!
