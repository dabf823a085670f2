//! The decisions of one project's scan, as a state machine: which checks
//! run on which dependencies, in which order, and how their issues are
//! tagged and gathered. Running the checks (registry and advisory
//! lookups) is the caller's part: it performs each `Run` action and hands
//! back the issues found.
use vstd::prelude::*;
use crate::ecosystem::Ecosystem;
use crate::policy::{issues_view, mark_source, marked};
use crate::report::{Issue, IssueView};

verus! {

/// A set of checks that one phase of a scan runs.
#[derive(Clone, Copy, Debug, PartialEq, Eq, Structural)]
pub enum CheckSet {
    /// The local canonical-name check only (the fast mode).
    Canonical,
    /// The whole default pipeline.
    Default,
    /// The malicious-package (advisory) check only.
    Malicious,
    /// Canonical name, metadata, existence and malicious-package checks.
    TransitiveBasic,
}

/// The dependencies a phase checks.
#[derive(Clone, Copy, Debug, PartialEq, Eq, Structural)]
pub enum ScanTarget {
    /// The direct dependencies that are not internal.
    Direct,
    /// The internal direct dependencies.
    Internal,
    /// The transitive dependencies that are neither internal nor allowed.
    Transitive,
}

/// Where a project's scan stands.
#[derive(Clone, Copy, Debug, PartialEq, Eq, Structural)]
pub enum ScanPhase {
    Direct,
    Internal,
    Transitive,
    Done,
}

/// What the caller does next: run a set of checks on a set of
/// dependencies, or report the scan with the number of dependencies it
/// covered.
#[derive(Clone, Copy, Debug, PartialEq, Eq, Structural)]
pub enum ScanAction {
    Run { checks: CheckSet, target: ScanTarget },
    Report { dependency_count: usize },
}

/// One project's scan in progress: the phase it is in, what it knows of
/// the project (full or fast mode, `--deep`, the ecosystem, how many
/// direct non-internal and transitive dependencies it covers, whether
/// some direct dependencies are internal), the issues gathered so far, and
/// the lockfile issues that the fast mode reports beside its one check.
pub struct ProjectScan {
    pub phase: ScanPhase,
    pub full: bool,
    pub deep: bool,
    pub ecosystem: Ecosystem,
    pub direct_count: usize,
    pub has_internal: bool,
    pub transitive_count: usize,
    pub issues: Vec<Issue>,
    pub fast_extra: Vec<Issue>,
}

/// The report of a scan that covered `n` dependencies.
pub open spec fn report_of(n: usize) -> ScanAction {
    ScanAction::Report { dependency_count: n }
}

/// The first checks of a scan with dependencies: the whole pipeline in a
/// full scan, the canonical-name check in a fast one.
pub open spec fn direct_run(full: bool) -> ScanAction {
    ScanAction::Run {
        checks: if full {
            CheckSet::Default
        } else {
            CheckSet::Canonical
        },
        target: ScanTarget::Direct,
    }
}

/// Every issue of `s` tagged with `source` where it has none.
pub open spec fn marked_all(s: Seq<IssueView>, source: Seq<char>) -> Seq<IssueView> {
    s.map_values(|i: IssueView| marked(i, source))
}

/// Every issue of `s` says which part of the scan it came from.
pub open spec fn all_sourced(s: Seq<IssueView>) -> bool {
    forall|k: int| 0 <= k < s.len() ==> (#[trigger] s[k]).source is Some
}

/// Tagging leaves no issue without a source, and tagged issues appended
/// to sourced ones keep the whole list sourced.
pub proof fn lemma_marked_all_sourced(prefix: Seq<IssueView>, s: Seq<IssueView>, source: Seq<char>)
    requires
        all_sourced(prefix),
    ensures
        all_sourced(marked_all(s, source)),
        all_sourced(prefix + marked_all(s, source)),
{
    let m = marked_all(s, source);
    assert forall|k: int| 0 <= k < m.len() implies (#[trigger] m[k]).source is Some by {
        assert(m[k] == marked(s[k], source));
    }
    let t = prefix + m;
    assert forall|k: int| 0 <= k < t.len() implies (#[trigger] t[k]).source is Some by {
        if k < prefix.len() {
            assert(t[k] == prefix[k]);
        } else {
            assert(t[k] == m[k - prefix.len()]);
        }
    }
}

/// The checks run on transitive dependencies: the whole pipeline with
/// `--deep` or for npm, the basic four otherwise.
pub open spec fn transitive_checks(deep: bool, ecosystem: Ecosystem) -> CheckSet {
    if deep || ecosystem == Ecosystem::Npm {
        CheckSet::Default
    } else {
        CheckSet::TransitiveBasic
    }
}

/// What follows once the internal dependencies are dealt with: the
/// transitive checks where there are transitive dependencies, and the
/// report otherwise.
pub open spec fn after_internal(s: ProjectScan) -> (ScanPhase, ScanAction) {
    if s.transitive_count > 0 {
        (
            ScanPhase::Transitive,
            ScanAction::Run { checks: transitive_checks(s.deep, s.ecosystem), target: ScanTarget::Transitive },
        )
    } else {
        (ScanPhase::Done, ScanAction::Report { dependency_count: s.direct_count })
    }
}

/// What follows the direct checks of a full scan: the advisory check of
/// the internal dependencies where there are some, and otherwise what
/// follows them.
pub open spec fn after_direct(s: ProjectScan) -> (ScanPhase, ScanAction) {
    if s.has_internal {
        (ScanPhase::Internal, ScanAction::Run { checks: CheckSet::Malicious, target: ScanTarget::Internal })
    } else {
        after_internal(s)
    }
}

/// Starts a project's scan. A project without dependencies is reported at
/// once, empty. Otherwise the direct dependencies are checked first: by
/// the whole pipeline in a full scan, by the canonical-name check alone in
/// a fast one; `alias_issues` (the npm alias notices) open the issue list.
pub fn begin_project_scan(
    has_dependencies: bool,
    full: bool,
    deep: bool,
    ecosystem: Ecosystem,
    direct_count: usize,
    has_internal: bool,
    transitive_count: usize,
    alias_issues: Vec<Issue>,
    fast_extra: Vec<Issue>,
) -> (r: (ProjectScan, ScanAction))
    ensures
        r.0.full == full && r.0.deep == deep && r.0.ecosystem == ecosystem,
        r.0.direct_count == direct_count && r.0.has_internal == has_internal && r.0.transitive_count
            == transitive_count,
        issues_view(r.0.fast_extra@) == issues_view(fast_extra@),
        !has_dependencies ==> r.0.phase == ScanPhase::Done && r.0.issues@.len() == 0 && r.1 == report_of(0),
        has_dependencies ==> r.0.phase == ScanPhase::Direct && issues_view(r.0.issues@) == issues_view(
            alias_issues@,
        ) && r.1 == direct_run(full),
{
    if !has_dependencies {
        let scan = ProjectScan {
            phase: ScanPhase::Done,
            full,
            deep,
            ecosystem,
            direct_count,
            has_internal,
            transitive_count,
            issues: Vec::new(),
            fast_extra,
        };
        return (scan, ScanAction::Report { dependency_count: 0 });
    }
    let checks = if full {
        CheckSet::Default
    } else {
        CheckSet::Canonical
    };
    let scan = ProjectScan {
        phase: ScanPhase::Direct,
        full,
        deep,
        ecosystem,
        direct_count,
        has_internal,
        transitive_count,
        issues: alias_issues,
        fast_extra,
    };
    (scan, ScanAction::Run { checks, target: ScanTarget::Direct })
}

/// A copy of each issue of `v`, in order.
fn copy_issues(v: &Vec<Issue>) -> (r: Vec<Issue>)
    ensures
        issues_view(r@) == issues_view(v@),
{
    let mut r: Vec<Issue> = Vec::new();
    let mut i: usize = 0;
    while i < v.len()
        invariant
            i <= v@.len(),
            issues_view(r@) == issues_view(v@).take(i as int),
        decreases v.len() - i,
    {
        r.push(v[i].duplicate());
        assert(issues_view(v@).take(i + 1) =~= issues_view(v@).take(i as int).push(v@[i as int]@));
        assert(issues_view(r@) =~= issues_view(v@).take(i as int).push(v@[i as int]@));
        i = i + 1;
    }
    assert(issues_view(v@).take(v@.len() as int) =~= issues_view(v@));
    r
}

/// `issues` with `found` appended, every issue of the result tagged with
/// `source` where it has none.
fn append_marked(issues: &mut Vec<Issue>, found: Vec<Issue>, source: &str)
    ensures
        issues_view(final(issues)@) == marked_all(issues_view(old(issues)@) + issues_view(found@), source@),
{
    let mut found = found;
    let ghost before = issues_view(issues@) + issues_view(found@);
    issues.append(&mut found);
    assert(issues_view(issues@) =~= before);
    mark_source(issues, source);
    assert(issues_view(issues@) =~= marked_all(before, source@));
}

/// `found` tagged with `source` where an issue has none.
fn marked_copy(found: Vec<Issue>, source: &str) -> (r: Vec<Issue>)
    ensures
        issues_view(r@) == marked_all(issues_view(found@), source@),
{
    let mut found = found;
    let ghost before = issues_view(found@);
    mark_source(&mut found, source);
    assert(issues_view(found@) =~= marked_all(before, source@));
    found
}

/// Advances a project's scan with the issues `found` by the checks its
/// last action ran.
/// - Direct, fast scan: `found` and the lockfile issues join the list,
///   every issue tagged `direct`, and the direct dependencies are
///   reported.
/// - Direct, full scan: `found` joins the list, every issue tagged
///   `direct`; then the internal dependencies, the transitive ones or the
///   report follow (`after_direct`).
/// - Internal: `found`, tagged `direct`, joins the list; then the
///   transitive dependencies or the report (`after_internal`).
/// - Transitive: `found`, tagged `transitive`, joins the list, and direct
///   and transitive dependencies are reported together.
pub fn project_scan_step(scan: ProjectScan, found: Vec<Issue>) -> (r: (ProjectScan, ScanAction))
    requires
        scan.phase != ScanPhase::Done,
        scan.direct_count + scan.transitive_count <= usize::MAX,
    ensures
        r.0.full == scan.full && r.0.deep == scan.deep && r.0.ecosystem == scan.ecosystem,
        r.0.direct_count == scan.direct_count && r.0.has_internal == scan.has_internal
            && r.0.transitive_count == scan.transitive_count,
        issues_view(r.0.fast_extra@) == issues_view(scan.fast_extra@),
        scan.phase == ScanPhase::Direct && !scan.full ==> r.0.phase == ScanPhase::Done && r.1 == report_of(
            scan.direct_count,
        ) && issues_view(r.0.issues@)
            == marked_all(issues_view(scan.issues@) + issues_view(found@) + issues_view(scan.fast_extra@), "direct"@),
        scan.phase == ScanPhase::Direct && scan.full ==> (r.0.phase, r.1) == after_direct(scan) && issues_view(
            r.0.issues@,
        ) == marked_all(issues_view(scan.issues@) + issues_view(found@), "direct"@),
        scan.phase == ScanPhase::Internal ==> (r.0.phase, r.1) == after_internal(scan) && issues_view(r.0.issues@)
            == issues_view(scan.issues@) + marked_all(issues_view(found@), "direct"@),
        scan.phase == ScanPhase::Transitive ==> r.0.phase == ScanPhase::Done && r.1 == report_of(
            (scan.direct_count + scan.transitive_count) as usize,
        ) && issues_view(r.0.issues@) == issues_view(scan.issues@) + marked_all(issues_view(found@), "transitive"@),
        scan.phase == ScanPhase::Direct || all_sourced(issues_view(scan.issues@)) ==> all_sourced(
            issues_view(r.0.issues@),
        ),
{
    let ProjectScan {
        phase,
        full,
        deep,
        ecosystem,
        direct_count,
        has_internal,
        transitive_count,
        issues,
        fast_extra,
    } = scan;
    let mut issues = issues;
    let (next_phase, action) = match phase {
        ScanPhase::Direct => {
            if !full {
                let mut gathered = found;
                let mut extra = copy_issues(&fast_extra);
                let ghost with_found = issues_view(gathered@) + issues_view(extra@);
                gathered.append(&mut extra);
                assert(issues_view(gathered@) =~= with_found);
                append_marked(&mut issues, gathered, "direct");
                assert(issues_view(scan.issues@) + with_found =~= issues_view(scan.issues@) + issues_view(found@)
                    + issues_view(scan.fast_extra@));
                (ScanPhase::Done, ScanAction::Report { dependency_count: direct_count })
            } else {
                append_marked(&mut issues, found, "direct");
                if has_internal {
                    (ScanPhase::Internal, ScanAction::Run { checks: CheckSet::Malicious, target: ScanTarget::Internal })
                } else if transitive_count > 0 {
                    let checks = if deep || matches!(ecosystem, Ecosystem::Npm) {
                        CheckSet::Default
                    } else {
                        CheckSet::TransitiveBasic
                    };
                    (ScanPhase::Transitive, ScanAction::Run { checks, target: ScanTarget::Transitive })
                } else {
                    (ScanPhase::Done, ScanAction::Report { dependency_count: direct_count })
                }
            }
        },
        ScanPhase::Internal => {
            let mut tagged = marked_copy(found, "direct");
            issues.append(&mut tagged);
            if transitive_count > 0 {
                let checks = if deep || matches!(ecosystem, Ecosystem::Npm) {
                    CheckSet::Default
                } else {
                    CheckSet::TransitiveBasic
                };
                (ScanPhase::Transitive, ScanAction::Run { checks, target: ScanTarget::Transitive })
            } else {
                (ScanPhase::Done, ScanAction::Report { dependency_count: direct_count })
            }
        },
        _ => {
            let mut tagged = marked_copy(found, "transitive");
            issues.append(&mut tagged);
            (ScanPhase::Done, ScanAction::Report { dependency_count: direct_count + transitive_count })
        },
    };
    proof {
        let empty = Seq::<IssueView>::empty();
        if phase == ScanPhase::Direct {
            if full {
                lemma_marked_all_sourced(empty, issues_view(scan.issues@) + issues_view(found@), "direct"@);
                assert(issues_view(issues@) =~= marked_all(issues_view(scan.issues@) + issues_view(found@), "direct"@));
            } else {
                lemma_marked_all_sourced(
                    empty,
                    issues_view(scan.issues@) + issues_view(found@) + issues_view(scan.fast_extra@),
                    "direct"@,
                );
                assert(issues_view(issues@) =~= marked_all(
                    issues_view(scan.issues@) + issues_view(found@) + issues_view(scan.fast_extra@),
                    "direct"@,
                ));
            }
        } else if all_sourced(issues_view(scan.issues@)) {
            if phase == ScanPhase::Internal {
                lemma_marked_all_sourced(issues_view(scan.issues@), issues_view(found@), "direct"@);
                assert(issues_view(issues@) =~= issues_view(scan.issues@) + marked_all(issues_view(found@), "direct"@));
            } else {
                lemma_marked_all_sourced(issues_view(scan.issues@), issues_view(found@), "transitive"@);
                assert(issues_view(issues@) =~= issues_view(scan.issues@) + marked_all(
                    issues_view(found@),
                    "transitive"@,
                ));
            }
        }
    }
    let next = ProjectScan {
        phase: next_phase,
        full,
        deep,
        ecosystem,
        direct_count,
        has_internal,
        transitive_count,
        issues,
        fast_extra,
    };
    (next, action)
}

} // verus!
