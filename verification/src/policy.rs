//! Scan-level policy: which dependencies get which checks, and the issues
//! raised for unresolved versions, npm aliases and local relaxations.
use vstd::prelude::*;
use crate::{Dependency, DependencyView};
use crate::checks::names;
use crate::config::{SloppyJoeConfig, listed, patterns_view};
use crate::ecosystem::Ecosystem;
use crate::lockfiles::{ResolutionResult, ResolutionView, key_of, lookup, dep_views};
use crate::report::{Issue, IssueView, Severity, issue_spec, opt_view};
use crate::text::{string_of_str, push_str};

verus! {

// ---- marking where issues come from ----
/// Each issue keeps its source if it has one, and otherwise takes `source`.
pub open spec fn marked(i: IssueView, source: Seq<char>) -> IssueView {
    match i.source {
        Some(_) => i,
        None => IssueView { source: Some(source), ..i },
    }
}

pub open spec fn issues_view(s: Seq<Issue>) -> Seq<IssueView> {
    s.map_values(|i: Issue| i@)
}

/// Sets the source of every issue that has none to `source`.
pub fn mark_source(issues: &mut Vec<Issue>, source: &str)
    ensures
        final(issues)@.len() == old(issues)@.len(),
        forall|k: int|
            0 <= k < old(issues)@.len() ==> #[trigger] final(issues)@[k]@ == marked(
                old(issues)@[k]@,
                source@,
            ),
{
    let mut i: usize = 0;
    while i < issues.len()
        invariant
            i <= issues@.len(),
            issues@.len() == old(issues)@.len(),
            forall|k: int| 0 <= k < i ==> #[trigger] issues@[k]@ == marked(old(issues)@[k]@, source@),
            forall|k: int| i <= k < issues@.len() ==> #[trigger] issues@[k] == old(issues)@[k],
        decreases issues.len() - i,
    {
        if issues[i].source.is_none() {
            let mut it = issues[i].duplicate();
            it.source = Some(string_of_str(source));
            issues.set(i, it);
        }
        i = i + 1;
    }
}

// ---- npm aliases ----
pub open spec fn alias_spec(d: DependencyView, actual: Seq<char>) -> IssueView {
    IssueView {
        message: "'"@ + d.name + "' is declared as an npm alias for '"@ + actual
            + "'. sloppy-joe scanned the published package identity '"@ + actual
            + "', not the manifest alias."@,
        fix: "Review whether the alias '"@ + d.name + "' should point to '"@ + actual
            + "'. If the indirection is intentional, keep both names under code review because the manifest-visible package name differs from the installed registry identity."@,
        ..issue_spec(d.name, names::RESOLUTION_NPM_ALIAS@, Severity::Warning)
    }
}

/// One warning per dependency that is an alias of another package, in order.
pub open spec fn alias_issues_spec(ds: Seq<DependencyView>) -> Seq<IssueView>
    decreases ds.len(),
{
    if ds.len() == 0 {
        Seq::empty()
    } else {
        alias_issues_spec(ds.drop_last()) + match ds.last().actual_name {
            Some(a) => seq![alias_spec(ds.last(), a)],
            None => Seq::empty(),
        }
    }
}

fn alias_issue(dep: &Dependency, actual: &str) -> (i: Issue)
    ensures
        i@ == alias_spec(dep@, actual@),
{
    let name = dep.name.as_str();
    let mut m = string_of_str("'");
    push_str(&mut m, name);
    push_str(&mut m, "' is declared as an npm alias for '");
    push_str(&mut m, actual);
    push_str(&mut m, "'. sloppy-joe scanned the published package identity '");
    push_str(&mut m, actual);
    push_str(&mut m, "', not the manifest alias.");
    let mut f = string_of_str("Review whether the alias '");
    push_str(&mut f, name);
    push_str(&mut f, "' should point to '");
    push_str(&mut f, actual);
    push_str(
        &mut f,
        "'. If the indirection is intentional, keep both names under code review because the manifest-visible package name differs from the installed registry identity.",
    );
    Issue::new(name, names::RESOLUTION_NPM_ALIAS, Severity::Warning).message(m.as_str()).fix(
        f.as_str(),
    )
}

/// A warning for each dependency declared as an alias of another package.
pub fn alias_identity_issues(deps: &[Dependency]) -> (r: Vec<Issue>)
    ensures
        issues_view(r@) == alias_issues_spec(dep_views(deps@)),
{
    let ghost all = dep_views(deps@);
    let mut r: Vec<Issue> = Vec::new();
    let mut i: usize = 0;
    assert(issues_view(r@) == alias_issues_spec(all.take(0)));
    while i < deps.len()
        invariant
            i <= deps@.len(),
            all == dep_views(deps@),
            issues_view(r@) == alias_issues_spec(all.take(i as int)),
        decreases deps.len() - i,
    {
        let dep = &deps[i];
        proof {
            let t = all.take(i + 1);
            assert(t.drop_last() == all.take(i as int));
            assert(t.last() == dep@);
        }
        let ghost before = r@;
        if let Some(actual) = &dep.actual_name {
            r.push(alias_issue(dep, actual.as_str()));
            assert(issues_view(r@) == issues_view(before) + seq![alias_spec(dep@, actual@)]);
        } else {
            assert(issues_view(r@) == issues_view(before) + Seq::<IssueView>::empty());
        }
        i = i + 1;
    }
    assert(all.take(i as int) == all);
    r
}

// ---- unresolved versions ----
pub open spec fn skipped_checks() -> Seq<char> {
    "version-age, install-script-risk, dependency-explosion, maintainer-change, and known-vulnerability (OSV)."@
}

pub open spec fn unresolved_spec(d: DependencyView, severity: Severity) -> IssueView {
    IssueView {
        message: match d.version {
            Some(req) => "'"@ + d.package() + "' uses the unresolved version requirement '"@ + req
                + "'. Without a resolved version, the following checks are skipped: "@
                + skipped_checks(),
            None => "'"@ + d.package()
                + "' does not declare an exact version and no trusted lockfile resolution was available. The following checks are skipped: "@
                + skipped_checks(),
        },
        fix: "Pin an exact version or provide a trusted lockfile entry. To continue with reduced accuracy, set allow_unresolved_versions to true in the config."@,
        ..issue_spec(d.package(), names::RESOLUTION_NO_EXACT_VERSION@, severity)
    }
}

/// `d` has no exact version from its manifest or the resolution, and no
/// lockfile-sync issue was filed against it already.
pub open spec fn needs_unresolved_issue(r: ResolutionView, d: DependencyView) -> bool {
    &&& d.exact() is None
    &&& lookup(r, d) is None
    &&& !r.keyed.contains((key_of(d), names::RESOLUTION_NO_TRUSTED_LOCKFILE_SYNC@))
}

pub open spec fn unresolved_issues_spec(
    ds: Seq<DependencyView>,
    r: ResolutionView,
    severity: Severity,
) -> Seq<IssueView>
    decreases ds.len(),
{
    if ds.len() == 0 {
        Seq::empty()
    } else {
        unresolved_issues_spec(ds.drop_last(), r, severity) + if needs_unresolved_issue(r, ds.last()) {
            seq![unresolved_spec(ds.last(), severity)]
        } else {
            Seq::empty()
        }
    }
}

/// Errors (warnings when the configuration allows unresolved versions).
pub open spec fn unresolved_severity(allow: bool) -> Severity {
    if allow {
        Severity::Warning
    } else {
        Severity::Error
    }
}

fn unresolved_issue(dep: &Dependency, severity: Severity) -> (i: Issue)
    ensures
        i@ == unresolved_spec(dep@, severity),
{
    let package = dep.package_name();
    let mut m = string_of_str("'");
    push_str(&mut m, package);
    match &dep.version {
        Some(req) => {
            push_str(&mut m, "' uses the unresolved version requirement '");
            push_str(&mut m, req.as_str());
            push_str(&mut m, "'. Without a resolved version, the following checks are skipped: ");
        },
        None => {
            push_str(
                &mut m,
                "' does not declare an exact version and no trusted lockfile resolution was available. The following checks are skipped: ",
            );
        },
    }
    push_str(
        &mut m,
        "version-age, install-script-risk, dependency-explosion, maintainer-change, and known-vulnerability (OSV).",
    );
    Issue::new(package, names::RESOLUTION_NO_EXACT_VERSION, severity).message(m.as_str()).fix(
        "Pin an exact version or provide a trusted lockfile entry. To continue with reduced accuracy, set allow_unresolved_versions to true in the config.",
    )
}

/// An issue for each dependency left without an exact version, unless a
/// lockfile-sync issue already covers it.
pub fn unresolved_version_policy_issues(
    deps: &[Dependency],
    resolution: &ResolutionResult,
    config: &SloppyJoeConfig,
) -> (r: Vec<Issue>)
    requires
        resolution.wf(),
    ensures
        issues_view(r@) == unresolved_issues_spec(
            dep_views(deps@),
            resolution@,
            unresolved_severity(config.allow_unresolved_versions),
        ),
{
    let severity = if config.allow_unresolved_versions {
        Severity::Warning
    } else {
        Severity::Error
    };
    let ghost all = dep_views(deps@);
    let mut r: Vec<Issue> = Vec::new();
    let mut i: usize = 0;
    assert(issues_view(r@) == unresolved_issues_spec(all.take(0), resolution@, severity));
    while i < deps.len()
        invariant
            i <= deps@.len(),
            all == dep_views(deps@),
            resolution.wf(),
            issues_view(r@) == unresolved_issues_spec(all.take(i as int), resolution@, severity),
        decreases deps.len() - i,
    {
        let dep = &deps[i];
        proof {
            let t = all.take(i + 1);
            assert(t.drop_last() == all.take(i as int));
            assert(t.last() == dep@);
        }
        let ghost before = r@;
        if resolution.is_unresolved(dep) && !resolution.has_issue_for(
            dep,
            names::RESOLUTION_NO_TRUSTED_LOCKFILE_SYNC,
        ) {
            r.push(unresolved_issue(dep, severity));
            assert(issues_view(r@) == issues_view(before) + seq![unresolved_spec(dep@, severity)]);
        } else {
            assert(issues_view(r@) == issues_view(before) + Seq::<IssueView>::empty());
        }
        i = i + 1;
    }
    assert(all.take(i as int) == all);
    r
}

/// Each unresolved-version issue is raised for one of the dependencies
/// that neither its manifest nor the resolution gives an exact version.
pub proof fn lemma_unresolved_issues_only_for_unresolved(ds: Seq<DependencyView>, r: ResolutionView, severity: Severity)
    ensures
        unresolved_issues_spec(ds, r, severity).len() <= ds.len(),
        forall|k: int|
            0 <= k < unresolved_issues_spec(ds, r, severity).len() ==> exists|j: int|
                0 <= j < ds.len() && #[trigger] unresolved_issues_spec(ds, r, severity)[k] == unresolved_spec(
                    ds[j],
                    severity,
                ) && ds[j].exact() is None && lookup(r, ds[j]) is None,
    decreases ds.len(),
{
    if ds.len() > 0 {
        let init = ds.drop_last();
        lemma_unresolved_issues_only_for_unresolved(init, r, severity);
        let a = unresolved_issues_spec(init, r, severity);
        let all = unresolved_issues_spec(ds, r, severity);
        assert forall|k: int| 0 <= k < all.len() implies exists|j: int|
            0 <= j < ds.len() && #[trigger] all[k] == unresolved_spec(ds[j], severity) && ds[j].exact() is None
                && lookup(r, ds[j]) is None by {
            if k < a.len() {
                assert(all[k] == a[k]);
                let j = choose|j: int|
                    0 <= j < init.len() && #[trigger] a[k] == unresolved_spec(init[j], severity) && init[j].exact() is None
                        && lookup(r, init[j]) is None;
                assert(init[j] == ds[j]);
            } else {
                assert(needs_unresolved_issue(r, ds.last()));
                assert(all[k] == unresolved_spec(ds.last(), severity));
                assert(ds.last() == ds[ds.len() - 1]);
            }
        }
    }
}

/// A dependency that neither its manifest nor the resolution gives an exact
/// version, and against which no lockfile-sync issue was filed, gets its
/// unresolved-version issue.
pub proof fn lemma_unresolved_dependency_gets_issue(ds: Seq<DependencyView>, r: ResolutionView, severity: Severity, j: int)
    requires
        0 <= j < ds.len(),
        ds[j].exact() is None,
        lookup(r, ds[j]) is None,
        !r.keyed.contains((key_of(ds[j]), names::RESOLUTION_NO_TRUSTED_LOCKFILE_SYNC@)),
    ensures
        unresolved_issues_spec(ds, r, severity).contains(unresolved_spec(ds[j], severity)),
    decreases ds.len(),
{
    let init = ds.drop_last();
    let all = unresolved_issues_spec(ds, r, severity);
    let a = unresolved_issues_spec(init, r, severity);
    if j < ds.len() - 1 {
        assert(init[j] == ds[j]);
        lemma_unresolved_dependency_gets_issue(init, r, severity, j);
        let k = choose|k: int| 0 <= k < a.len() && a[k] == unresolved_spec(ds[j], severity);
        assert(all[k] == a[k]);
    } else {
        assert(ds.last() == ds[j]);
        assert(all[a.len() as int] == unresolved_spec(ds[j], severity));
    }
}

/// Where the resolution gives every dependency an exact version, no
/// unresolved-version issue is raised.
pub proof fn lemma_resolved_dependencies_raise_no_unresolved_issue(
    ds: Seq<DependencyView>,
    r: ResolutionView,
    severity: Severity,
)
    requires
        forall|j: int| 0 <= j < ds.len() ==> lookup(r, #[trigger] ds[j]) is Some,
    ensures
        unresolved_issues_spec(ds, r, severity).len() == 0,
{
    lemma_unresolved_issues_only_for_unresolved(ds, r, severity);
    if unresolved_issues_spec(ds, r, severity).len() > 0 {
        let x = unresolved_issues_spec(ds, r, severity)[0];
        assert(exists|j: int|
            0 <= j < ds.len() && x == unresolved_spec(ds[j], severity) && ds[j].exact() is None && lookup(r, ds[j]) is None);
    }
}

// ---- local overlay relaxations ----
pub open spec fn relaxation_spec(relaxation: Seq<char>) -> IssueView {
    IssueView {
        message: "This scan used a local-only overlay relaxation: "@ + relaxation
            + ". Results may differ from CI."@,
        fix: "Keep local-only provenance relaxations out of CI. Prefer repo-visible, reviewed provenance whenever possible."@,
        ..issue_spec("<local-overlay>"@, names::CONFIG_LOCAL_OVERLAY_RELAXATION@, Severity::Warning)
    }
}

/// A warning for each local-only relaxation that the scan ran with, in order.
pub fn local_overlay_relaxation_issues(config: &SloppyJoeConfig) -> (r: Vec<Issue>)
    ensures
        r@.len() == config.active_local_overlay_relaxations@.len(),
        forall|k: int|
            0 <= k < r@.len() ==> #[trigger] r@[k]@ == relaxation_spec(
                config.active_local_overlay_relaxations@[k]@,
            ),
{
    let rs = &config.active_local_overlay_relaxations;
    let mut r: Vec<Issue> = Vec::new();
    let mut i: usize = 0;
    while i < rs.len()
        invariant
            i <= rs@.len(),
            rs@ == config.active_local_overlay_relaxations@,
            r@.len() == i,
            forall|k: int| 0 <= k < i ==> #[trigger] r@[k]@ == relaxation_spec(rs@[k]@),
        decreases rs.len() - i,
    {
        let mut m = string_of_str("This scan used a local-only overlay relaxation: ");
        push_str(&mut m, rs[i].as_str());
        push_str(&mut m, ". Results may differ from CI.");
        let issue = Issue::new(
            "<local-overlay>",
            names::CONFIG_LOCAL_OVERLAY_RELAXATION,
            Severity::Warning,
        ).message(m.as_str()).fix(
            "Keep local-only provenance relaxations out of CI. Prefer repo-visible, reviewed provenance whenever possible.",
        );
        r.push(issue);
        i = i + 1;
    }
    r
}

// ---- tiers of checks ----
/// The dependencies of `ds` that satisfy `p`, in order.
pub open spec fn filter_deps(ds: Seq<DependencyView>, p: spec_fn(DependencyView) -> bool) -> Seq<
    DependencyView,
>
    decreases ds.len(),
{
    if ds.len() == 0 {
        Seq::empty()
    } else {
        filter_deps(ds.drop_last(), p) + if p(ds.last()) {
            seq![ds.last()]
        } else {
            Seq::empty()
        }
    }
}

pub open spec fn internal_pred(config: SloppyJoeConfig, eco: Ecosystem) -> spec_fn(DependencyView) -> bool {
    |d: DependencyView| listed(patterns_view(config.internal@), eco.spec_name(), d.package())
}

pub open spec fn allowed_pred(config: SloppyJoeConfig, eco: Ecosystem) -> spec_fn(DependencyView) -> bool {
    |d: DependencyView| listed(patterns_view(config.allowed@), eco.spec_name(), d.package())
}

pub open spec fn negated(p: spec_fn(DependencyView) -> bool) -> spec_fn(DependencyView) -> bool {
    |d: DependencyView| !p(d)
}

/// Splits `deps` into those that get every check (neither internal nor
/// allowed), those that are not internal, and the internal ones, each in
/// the order of `deps`.
pub fn classify_deps(deps: &[Dependency], config: &SloppyJoeConfig, ecosystem: Ecosystem) -> (r: (
    Vec<Dependency>,
    Vec<Dependency>,
    Vec<Dependency>,
))
    ensures
        ({
            let internal = internal_pred(*config, ecosystem);
            let allowed = allowed_pred(*config, ecosystem);
            let rest = filter_deps(dep_views(deps@), negated(internal));
            &&& dep_views(r.0@) == filter_deps(rest, negated(allowed))
            &&& dep_views(r.1@) == rest
            &&& dep_views(r.2@) == filter_deps(dep_views(deps@), internal)
        }),
{
    let eco = ecosystem.as_str();
    let ghost internal = internal_pred(*config, ecosystem);
    let ghost allowed = allowed_pred(*config, ecosystem);
    let ghost not_internal = negated(internal);
    let ghost not_allowed = negated(allowed);
    let ghost all = dep_views(deps@);
    let mut checkable: Vec<Dependency> = Vec::new();
    let mut rest: Vec<Dependency> = Vec::new();
    let mut internal_deps: Vec<Dependency> = Vec::new();
    let mut i: usize = 0;
    assert(all.take(0) == Seq::<DependencyView>::empty());
    assert(dep_views(rest@) == Seq::<DependencyView>::empty());
    assert(dep_views(checkable@) == Seq::<DependencyView>::empty());
    assert(dep_views(internal_deps@) == Seq::<DependencyView>::empty());
    while i < deps.len()
        invariant
            i <= deps@.len(),
            all == dep_views(deps@),
            eco@ == ecosystem.spec_name(),
            internal == internal_pred(*config, ecosystem),
            allowed == allowed_pred(*config, ecosystem),
            not_internal == negated(internal),
            not_allowed == negated(allowed),
            dep_views(rest@) == filter_deps(all.take(i as int), not_internal),
            dep_views(checkable@) == filter_deps(filter_deps(all.take(i as int), not_internal), not_allowed),
            dep_views(internal_deps@) == filter_deps(all.take(i as int), internal),
        decreases deps.len() - i,
    {
        let dep = &deps[i];
        proof {
            let t = all.take(i + 1);
            assert(t.drop_last() == all.take(i as int));
            assert(t.last() == dep@);
        }
        let ghost (r0, r1, r2) = (checkable@, rest@, internal_deps@);
        let name = dep.package_name();
        if config.is_internal(eco, name) {
            internal_deps.push(dep.clone());
            assert(dep_views(internal_deps@) == dep_views(r2) + seq![dep@]);
            assert(dep_views(rest@) == dep_views(r1) + Seq::<DependencyView>::empty());
            assert(dep_views(checkable@) == dep_views(r0) + Seq::<DependencyView>::empty());
        } else {
            rest.push(dep.clone());
            assert(dep_views(rest@) == dep_views(r1) + seq![dep@]);
            assert(dep_views(internal_deps@) == dep_views(r2) + Seq::<DependencyView>::empty());
            proof {
                let f = filter_deps(all.take(i + 1), not_internal);
                assert(f.drop_last() == filter_deps(all.take(i as int), not_internal));
                assert(f.last() == dep@);
            }
            if config.is_allowed(eco, name) {
                assert(dep_views(checkable@) == dep_views(r0) + Seq::<DependencyView>::empty());
            } else {
                checkable.push(dep.clone());
                assert(dep_views(checkable@) == dep_views(r0) + seq![dep@]);
            }
        }
        i = i + 1;
    }
    assert(all.take(i as int) == all);
    (checkable, rest, internal_deps)
}

/// Marking an issue again never replaces the source it was first given.
pub proof fn lemma_mark_source_keeps_first(i: IssueView, first: Seq<char>, later: Seq<char>)
    ensures
        marked(marked(i, first), later) == marked(i, first),
        marked(i, first).source is Some,
{
}

/// Filtering by a predicate and by its negation splits a list: the two
/// parts together are as long as the list.
pub proof fn lemma_filter_splits(ds: Seq<DependencyView>, p: spec_fn(DependencyView) -> bool)
    ensures
        filter_deps(ds, p).len() + filter_deps(ds, |d: DependencyView| !p(d)).len() == ds.len(),
    decreases ds.len(),
{
    if ds.len() > 0 {
        lemma_filter_splits(ds.drop_last(), p);
    }
}

/// Each dependency is internal or not, exactly once: the internal ones and
/// the others together are all of them, and every dependency that gets all
/// checks is one of the others.
pub proof fn lemma_classification_partitions(
    ds: Seq<DependencyView>,
    config: SloppyJoeConfig,
    eco: Ecosystem,
)
    ensures
        ({
            let internal = internal_pred(config, eco);
            let allowed = allowed_pred(config, eco);
            let rest = filter_deps(ds, negated(internal));
            &&& filter_deps(ds, internal).len() + rest.len() == ds.len()
            &&& forall|j: int|
                0 <= j < filter_deps(rest, negated(allowed)).len() ==> rest.contains(
                    #[trigger] filter_deps(rest, negated(allowed))[j],
                )
        }),
{
    let internal = internal_pred(config, eco);
    let allowed = allowed_pred(config, eco);
    lemma_filter_splits(ds, internal);
    assert(negated(internal) =~= (|d: DependencyView| !internal(d)));
    let rest = filter_deps(ds, negated(internal));
    lemma_filter_within(rest, negated(allowed));
}

proof fn lemma_filter_within(ds: Seq<DependencyView>, p: spec_fn(DependencyView) -> bool)
    ensures
        forall|j: int| 0 <= j < filter_deps(ds, p).len() ==> ds.contains(#[trigger] filter_deps(ds, p)[j]),
    decreases ds.len(),
{
    if ds.len() > 0 {
        let t = ds.drop_last();
        lemma_filter_within(t, p);
        let f = filter_deps(ds, p);
        assert forall|j: int| 0 <= j < f.len() implies ds.contains(#[trigger] f[j]) by {
            if j < filter_deps(t, p).len() {
                assert(f[j] == filter_deps(t, p)[j]);
                let k = choose|k: int| 0 <= k < t.len() && t[k] == f[j];
                assert(ds[k] == t[k]);
            } else {
                assert(f[j] == ds.last());
                assert(ds[ds.len() - 1] == ds.last());
            }
        }
    }
}

} // verus!
