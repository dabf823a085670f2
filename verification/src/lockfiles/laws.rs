//! What every lockfile resolver guarantees, whatever the format: each
//! dependency ends up resolved or named by an issue, and a dependency that
//! the manifest pins exactly always resolves, to that pin.
use vstd::prelude::*;
use crate::DependencyView;
use crate::report::IssueView;
use super::{
    ResolutionMode, ResolutionView, ResolvedView, ResolutionSource, empty_resolution, fallback_all_v,
    fallback_v, fold_multi, fold_single, insert_v, key_of, lookup, multi_step, no_sync_spec, push_issue_for_v,
    push_issue_v, single_step,
};
use super::{bun, python};

verus! {

/// `d` has a resolved version, or some issue names its package or was
/// filed against it.
pub open spec fn accounted(r: ResolutionView, d: DependencyView) -> bool {
    ||| lookup(r, d) is Some
    ||| exists|i: int| 0 <= i < r.issues.len() && #[trigger] r.issues[i].package == d.name
    ||| exists|i: int| 0 <= i < r.keyed.len() && #[trigger] r.keyed[i].0 == key_of(d)
}

/// When the manifest pins `d` exactly, `d` resolves to that pin.
pub open spec fn pinned(r: ResolutionView, d: DependencyView) -> bool {
    d.exact() matches Some(e) ==> lookup(r, d) matches Some(rv) && rv.version == e
}

/// Two dependencies recorded under the same key pin the same version.
pub open spec fn consistent(a: DependencyView, b: DependencyView) -> bool {
    key_of(a) == key_of(b) ==> a.exact() == b.exact()
}

pub open spec fn pins_consistent(ds: Seq<DependencyView>) -> bool {
    forall|i: int, j: int| 0 <= i < ds.len() && 0 <= j < ds.len() ==> consistent(#[trigger] ds[i], #[trigger] ds[j])
}

/// What one resolution step owes: it accounts for and pins its own
/// dependency, and keeps what earlier steps established.
pub open spec fn sound_step(r: ResolutionView, d: DependencyView, r2: ResolutionView) -> bool {
    &&& accounted(r2, d)
    &&& pinned(r2, d)
    &&& forall|x: DependencyView| accounted(r, x) ==> #[trigger] accounted(r2, x)
    &&& forall|x: DependencyView| consistent(x, d) && pinned(r, x) ==> #[trigger] pinned(r2, x)
}

/// Each dependency in turn.
pub open spec fn fold_with(
    r: ResolutionView,
    ds: Seq<DependencyView>,
    step: spec_fn(ResolutionView, DependencyView) -> ResolutionView,
) -> ResolutionView
    decreases ds.len(),
{
    if ds.len() == 0 {
        r
    } else {
        fold_with(step(r, ds[0]), ds.drop_first(), step)
    }
}

proof fn lemma_insert_keeps(r: ResolutionView, d: DependencyView, v: Seq<char>, s: ResolutionSource, x: DependencyView)
    ensures
        lookup(r, x) is Some ==> lookup(insert_v(r, d, v, s), x) is Some,
        key_of(x) != key_of(d) ==> lookup(insert_v(r, d, v, s), x) == lookup(r, x),
        key_of(x) == key_of(d) ==> lookup(insert_v(r, d, v, s), x) == Some(ResolvedView { version: v, source: s }),
{
}

proof fn lemma_insert_accounts(r: ResolutionView, d: DependencyView, v: Seq<char>, s: ResolutionSource, x: DependencyView)
    ensures
        accounted(r, x) ==> accounted(insert_v(r, d, v, s), x),
        accounted(insert_v(r, d, v, s), d),
{
    lemma_insert_keeps(r, d, v, s, x);
    lemma_insert_keeps(r, d, v, s, d);
    let r2 = insert_v(r, d, v, s);
    assert(r2.issues == r.issues && r2.keyed == r.keyed);
}

proof fn lemma_issue_keeps(r: ResolutionView, i: IssueView, x: DependencyView)
    ensures
        accounted(r, x) ==> accounted(push_issue_v(r, i), x),
        lookup(push_issue_v(r, i), x) == lookup(r, x),
        i.package == x.name ==> accounted(push_issue_v(r, i), x),
{
    let r2 = push_issue_v(r, i);
    if exists|k: int| 0 <= k < r.issues.len() && #[trigger] r.issues[k].package == x.name {
        let k = choose|k: int| 0 <= k < r.issues.len() && #[trigger] r.issues[k].package == x.name;
        assert(r2.issues[k] == r.issues[k]);
    }
    if i.package == x.name {
        assert(r2.issues[r.issues.len() as int] == i);
    }
}

proof fn lemma_keyed_issue_keeps(r: ResolutionView, d: DependencyView, i: IssueView, x: DependencyView)
    ensures
        accounted(r, x) ==> accounted(push_issue_for_v(r, d, i), x),
        lookup(push_issue_for_v(r, d, i), x) == lookup(r, x),
        i.package == x.name ==> accounted(push_issue_for_v(r, d, i), x),
{
    lemma_issue_keeps(r, i, x);
    let r2 = push_issue_for_v(r, d, i);
    assert(r2.issues == push_issue_v(r, i).issues);
    assert(r2.exact == push_issue_v(r, i).exact);
    if exists|k: int| 0 <= k < r.keyed.len() && #[trigger] r.keyed[k].0 == key_of(x) {
        let k = choose|k: int| 0 <= k < r.keyed.len() && #[trigger] r.keyed[k].0 == key_of(x);
        assert(r2.keyed[k] == r.keyed[k]);
    }
    if exists|k: int| 0 <= k < r.issues.len() && #[trigger] r.issues[k].package == x.name {
        let k = choose|k: int| 0 <= k < r.issues.len() && #[trigger] r.issues[k].package == x.name;
        assert(r2.issues[k] == r.issues[k]);
    }
}

proof fn lemma_keyed_issue_accounts(r: ResolutionView, d: DependencyView, i: IssueView)
    ensures
        accounted(push_issue_for_v(r, d, i), d),
{
    let r2 = push_issue_for_v(r, d, i);
    assert(r2.keyed[r.keyed.len() as int].0 == key_of(d));
}

proof fn lemma_fallback_sound(r: ResolutionView, d: DependencyView, x: DependencyView)
    ensures
        accounted(r, x) ==> accounted(fallback_v(r, d), x),
        consistent(x, d) && pinned(r, x) ==> pinned(fallback_v(r, d), x),
        pinned(fallback_v(r, d), d),
        lookup(r, d) is Some ==> lookup(fallback_v(r, d), d) is Some,
{
    match d.exact() {
        Some(e) => {
            lemma_insert_keeps(r, d, e, ResolutionSource::ManifestExact, x);
            lemma_insert_keeps(r, d, e, ResolutionSource::ManifestExact, d);
            lemma_insert_accounts(r, d, e, ResolutionSource::ManifestExact, x);
        },
        None => {},
    }
}

/// The step of the single-version resolvers (npm, pnpm, Ruby, Composer)
/// is sound.
pub proof fn lemma_single_step_sound(
    r: ResolutionView,
    d: DependencyView,
    found: Option<Seq<char>>,
    lockfile: Seq<char>,
    mode: ResolutionMode,
    check_sync: bool,
    keyed: bool,
)
    ensures
        sound_step(r, d, single_step(r, d, found, lockfile, mode, check_sync, keyed)),
{
    let r2 = single_step(r, d, found, lockfile, mode, check_sync, keyed);
    assert forall|x: DependencyView| accounted(r, x) implies #[trigger] accounted(r2, x) by {
        lemma_step_keeps(r, d, found, lockfile, mode, check_sync, keyed, x);
    }
    assert forall|x: DependencyView| consistent(x, d) && pinned(r, x) implies #[trigger] pinned(r2, x) by {
        lemma_step_keeps(r, d, found, lockfile, mode, check_sync, keyed, x);
    }
    lemma_step_keeps(r, d, found, lockfile, mode, check_sync, keyed, d);
}

proof fn lemma_step_keeps(
    r: ResolutionView,
    d: DependencyView,
    found: Option<Seq<char>>,
    lockfile: Seq<char>,
    mode: ResolutionMode,
    check_sync: bool,
    keyed: bool,
    x: DependencyView,
)
    ensures
        accounted(r, x) ==> accounted(single_step(r, d, found, lockfile, mode, check_sync, keyed), x),
        consistent(x, d) && pinned(r, x) ==> pinned(single_step(r, d, found, lockfile, mode, check_sync, keyed), x),
        x == d ==> accounted(single_step(r, d, found, lockfile, mode, check_sync, keyed), x),
        x == d ==> pinned(single_step(r, d, found, lockfile, mode, check_sync, keyed), x),
{
    let file = |r: ResolutionView, i: IssueView|
        if keyed {
            push_issue_for_v(r, d, i)
        } else {
            push_issue_v(r, i)
        };
    match found {
        Some(version) => {
            if d.exact() is Some && d.exact() != Some(version) {
                let i = super::out_of_sync_spec(d, version);
                lemma_keyed_issue_keeps(r, d, i, x);
                lemma_issue_keeps(r, i, x);
                lemma_fallback_sound(file(r, i), d, x);
            } else if check_sync && mode == ResolutionMode::Direct && d.version is Some && d.exact() is None {
                let i = super::no_sync_spec(d, lockfile);
                lemma_keyed_issue_keeps(r, d, i, x);
                lemma_issue_keeps(r, i, x);
            } else {
                lemma_insert_keeps(r, d, version, ResolutionSource::Lockfile, x);
                lemma_insert_accounts(r, d, version, ResolutionSource::Lockfile, x);
            }
        },
        None => {
            let i = super::missing_entry_spec(d, lockfile);
            lemma_keyed_issue_keeps(r, d, i, x);
            lemma_issue_keeps(r, i, x);
            lemma_fallback_sound(file(r, i), d, x);
        },
    }
}

/// The step of the multi-version resolvers (Cargo, Gradle, .NET) is sound.
pub proof fn lemma_multi_step_sound(
    r: ResolutionView,
    d: DependencyView,
    cands: Option<Seq<Seq<char>>>,
    lockfile: Seq<char>,
    mode: ResolutionMode,
)
    ensures
        sound_step(r, d, multi_step(r, d, cands, lockfile, mode)),
{
    let r2 = multi_step(r, d, cands, lockfile, mode);
    match cands {
        None => {
            let i = super::missing_entry_spec(d, lockfile);
            assert forall|x: DependencyView| accounted(r, x) implies #[trigger] accounted(r2, x) by {
                lemma_issue_keeps(r, i, x);
                lemma_fallback_sound(push_issue_v(r, i), d, x);
            }
            assert forall|x: DependencyView| consistent(x, d) && pinned(r, x) implies #[trigger] pinned(r2, x) by {
                lemma_issue_keeps(r, i, x);
                lemma_fallback_sound(push_issue_v(r, i), d, x);
            }
            lemma_issue_keeps(r, i, d);
            lemma_fallback_sound(push_issue_v(r, i), d, d);
        },
        Some(vs) => {
            if vs.len() == 1 {
                lemma_single_step_sound(r, d, Some(vs[0]), lockfile, mode, true, false);
            } else {
                let wanted = if d.exact() is Some {
                    d.exact()
                } else {
                    d.version
                };
                if wanted is Some && vs.contains(wanted->0) {
                    assert forall|x: DependencyView| accounted(r, x) implies #[trigger] accounted(r2, x) by {
                        lemma_insert_accounts(r, d, wanted->0, ResolutionSource::Lockfile, x);
                    }
                    assert forall|x: DependencyView| consistent(x, d) && pinned(r, x) implies #[trigger] pinned(r2, x) by {
                        lemma_insert_keeps(r, d, wanted->0, ResolutionSource::Lockfile, x);
                    }
                    lemma_insert_keeps(r, d, wanted->0, ResolutionSource::Lockfile, d);
                    lemma_insert_accounts(r, d, wanted->0, ResolutionSource::Lockfile, d);
                } else if d.exact() is Some {
                    let i = super::out_of_sync_spec(d, super::join(vs, ", "@));
                    assert forall|x: DependencyView| accounted(r, x) implies #[trigger] accounted(r2, x) by {
                        lemma_issue_keeps(r, i, x);
                        lemma_fallback_sound(push_issue_v(r, i), d, x);
                    }
                    assert forall|x: DependencyView| consistent(x, d) && pinned(r, x) implies #[trigger] pinned(r2, x) by {
                        lemma_issue_keeps(r, i, x);
                        lemma_fallback_sound(push_issue_v(r, i), d, x);
                    }
                    lemma_issue_keeps(r, i, d);
                    lemma_fallback_sound(push_issue_v(r, i), d, d);
                } else {
                    let i = super::ambiguous_spec(d);
                    assert forall|x: DependencyView| accounted(r, x) implies #[trigger] accounted(r2, x) by {
                        lemma_issue_keeps(r, i, x);
                    }
                    assert forall|x: DependencyView| consistent(x, d) && pinned(r, x) implies #[trigger] pinned(r2, x) by {
                        lemma_issue_keeps(r, i, x);
                    }
                    lemma_issue_keeps(r, i, d);
                }
            }
        },
    }
}

/// Folding sound steps over dependencies whose pins agree accounts for and
/// pins each of them.
pub proof fn lemma_fold_with_sound(
    r: ResolutionView,
    ds: Seq<DependencyView>,
    step: spec_fn(ResolutionView, DependencyView) -> ResolutionView,
)
    requires
        forall|a: ResolutionView, d: DependencyView| sound_step(a, d, #[trigger] step(a, d)),
    ensures
        forall|j: int| 0 <= j < ds.len() ==> accounted(fold_with(r, ds, step), #[trigger] ds[j]),
        forall|x: DependencyView| accounted(r, x) ==> #[trigger] accounted(fold_with(r, ds, step), x),
        pins_consistent(ds) ==> forall|j: int|
            0 <= j < ds.len() ==> pinned(fold_with(r, ds, step), #[trigger] ds[j]),
        forall|x: DependencyView|
            (forall|j: int| 0 <= j < ds.len() ==> consistent(x, #[trigger] ds[j])) && pinned(r, x) ==> #[trigger] pinned(
                fold_with(r, ds, step),
                x,
            ),
    decreases ds.len(),
{
    if ds.len() > 0 {
        let r1 = step(r, ds[0]);
        let tail = ds.drop_first();
        assert(sound_step(r, ds[0], r1));
        lemma_fold_with_sound(r1, tail, step);
        let fin = fold_with(r, ds, step);
        assert(fin == fold_with(r1, tail, step));
        assert forall|j: int| 0 <= j < ds.len() implies accounted(fin, #[trigger] ds[j]) by {
            if j > 0 {
                assert(ds[j] == tail[j - 1]);
            }
        }
        if pins_consistent(ds) {
            assert(pins_consistent(tail)) by {
                assert forall|a: int, b: int| 0 <= a < tail.len() && 0 <= b < tail.len() implies consistent(
                    #[trigger] tail[a],
                    #[trigger] tail[b],
                ) by {
                    assert(tail[a] == ds[a + 1] && tail[b] == ds[b + 1]);
                }
            }
            assert forall|j: int| 0 <= j < ds.len() implies pinned(fin, #[trigger] ds[j]) by {
                if j > 0 {
                    assert(ds[j] == tail[j - 1]);
                } else {
                    assert forall|k: int| 0 <= k < tail.len() implies consistent(ds[0], #[trigger] tail[k]) by {
                        assert(tail[k] == ds[k + 1]);
                    }
                }
            }
        }
        assert forall|x: DependencyView|
            (forall|j: int| 0 <= j < ds.len() ==> consistent(x, #[trigger] ds[j])) && pinned(r, x) implies #[trigger] pinned(
            fin,
            x,
        ) by {
            assert(consistent(x, ds[0]));
            assert forall|k: int| 0 <= k < tail.len() implies consistent(x, #[trigger] tail[k]) by {
                assert(tail[k] == ds[k + 1]);
            }
        }
    }
}

proof fn lemma_fold_single_is_fold_with(
    r: ResolutionView,
    ds: Seq<DependencyView>,
    lk: spec_fn(DependencyView) -> Option<Seq<char>>,
    lockfile: Seq<char>,
    mode: ResolutionMode,
    check_sync: bool,
    keyed: bool,
)
    ensures
        fold_single(r, ds, lk, lockfile, mode, check_sync, keyed) == fold_with(
            r,
            ds,
            |a: ResolutionView, d: DependencyView| single_step(a, d, lk(d), lockfile, mode, check_sync, keyed),
        ),
    decreases ds.len(),
{
    if ds.len() > 0 {
        lemma_fold_single_is_fold_with(
            single_step(r, ds[0], lk(ds[0]), lockfile, mode, check_sync, keyed),
            ds.drop_first(),
            lk,
            lockfile,
            mode,
            check_sync,
            keyed,
        );
    }
}

proof fn lemma_fold_multi_is_fold_with(
    r: ResolutionView,
    ds: Seq<DependencyView>,
    lk: spec_fn(DependencyView) -> Option<Seq<Seq<char>>>,
    lockfile: Seq<char>,
    mode: ResolutionMode,
)
    ensures
        fold_multi(r, ds, lk, lockfile, mode) == fold_with(
            r,
            ds,
            |a: ResolutionView, d: DependencyView| multi_step(a, d, lk(d), lockfile, mode),
        ),
    decreases ds.len(),
{
    if ds.len() > 0 {
        lemma_fold_multi_is_fold_with(
            multi_step(r, ds[0], lk(ds[0]), lockfile, mode),
            ds.drop_first(),
            lk,
            lockfile,
            mode,
        );
    }
}

/// Single-version resolution (npm, pnpm, Ruby, Composer) accounts for every
/// dependency: each is resolved or named by an issue.
pub proof fn lemma_single_resolution_accounts_for_every_dependency(
    ds: Seq<DependencyView>,
    lk: spec_fn(DependencyView) -> Option<Seq<char>>,
    lockfile: Seq<char>,
    mode: ResolutionMode,
    check_sync: bool,
    keyed: bool,
)
    ensures
        forall|j: int|
            0 <= j < ds.len() ==> accounted(
                fold_single(empty_resolution(), ds, lk, lockfile, mode, check_sync, keyed),
                #[trigger] ds[j],
            ),
{
    let step = |a: ResolutionView, d: DependencyView| single_step(a, d, lk(d), lockfile, mode, check_sync, keyed);
    assert forall|a: ResolutionView, d: DependencyView| sound_step(a, d, #[trigger] step(a, d)) by {
        lemma_single_step_sound(a, d, lk(d), lockfile, mode, check_sync, keyed);
    }
    lemma_fold_single_is_fold_with(empty_resolution(), ds, lk, lockfile, mode, check_sync, keyed);
    lemma_fold_with_sound(empty_resolution(), ds, step);
}

/// Single-version resolution resolves every exactly pinned dependency to
/// its pin (when dependencies recorded under one key pin alike).
pub proof fn lemma_single_resolution_keeps_exact_pins(
    ds: Seq<DependencyView>,
    lk: spec_fn(DependencyView) -> Option<Seq<char>>,
    lockfile: Seq<char>,
    mode: ResolutionMode,
    check_sync: bool,
    keyed: bool,
)
    requires
        pins_consistent(ds),
    ensures
        forall|j: int|
            0 <= j < ds.len() ==> pinned(
                fold_single(empty_resolution(), ds, lk, lockfile, mode, check_sync, keyed),
                #[trigger] ds[j],
            ),
{
    let step = |a: ResolutionView, d: DependencyView| single_step(a, d, lk(d), lockfile, mode, check_sync, keyed);
    assert forall|a: ResolutionView, d: DependencyView| sound_step(a, d, #[trigger] step(a, d)) by {
        lemma_single_step_sound(a, d, lk(d), lockfile, mode, check_sync, keyed);
    }
    lemma_fold_single_is_fold_with(empty_resolution(), ds, lk, lockfile, mode, check_sync, keyed);
    lemma_fold_with_sound(empty_resolution(), ds, step);
}

/// Multi-version resolution (Cargo, Gradle, .NET) accounts for every
/// dependency, and resolves every exactly pinned one to its pin (when
/// dependencies recorded under one key pin alike).
pub proof fn lemma_multi_resolution_accounts_and_keeps_pins(
    ds: Seq<DependencyView>,
    lk: spec_fn(DependencyView) -> Option<Seq<Seq<char>>>,
    lockfile: Seq<char>,
    mode: ResolutionMode,
)
    ensures
        forall|j: int|
            0 <= j < ds.len() ==> accounted(fold_multi(empty_resolution(), ds, lk, lockfile, mode), #[trigger] ds[j]),
        pins_consistent(ds) ==> forall|j: int|
            0 <= j < ds.len() ==> pinned(fold_multi(empty_resolution(), ds, lk, lockfile, mode), #[trigger] ds[j]),
{
    let step = |a: ResolutionView, d: DependencyView| multi_step(a, d, lk(d), lockfile, mode);
    assert forall|a: ResolutionView, d: DependencyView| sound_step(a, d, #[trigger] step(a, d)) by {
        lemma_multi_step_sound(a, d, lk(d), lockfile, mode);
    }
    lemma_fold_multi_is_fold_with(empty_resolution(), ds, lk, lockfile, mode);
    lemma_fold_with_sound(empty_resolution(), ds, step);
}

/// Without a usable lockfile, every exactly pinned dependency still
/// resolves, to its pin.
pub proof fn lemma_fallback_keeps_exact_pins(r: ResolutionView, ds: Seq<DependencyView>)
    requires
        pins_consistent(ds),
    ensures
        forall|j: int| 0 <= j < ds.len() ==> pinned(fallback_all_v(r, ds), #[trigger] ds[j]),
{
    lemma_fallback_pins(r, ds);
}

proof fn lemma_fallback_pins(r: ResolutionView, ds: Seq<DependencyView>)
    requires
        pins_consistent(ds),
    ensures
        forall|j: int| 0 <= j < ds.len() ==> pinned(fallback_all_v(r, ds), #[trigger] ds[j]),
        forall|x: DependencyView|
            (forall|j: int| 0 <= j < ds.len() ==> consistent(x, #[trigger] ds[j])) && pinned(r, x) ==> #[trigger] pinned(
                fallback_all_v(r, ds),
                x,
            ),
    decreases ds.len(),
{
    if ds.len() > 0 {
        let r1 = fallback_v(r, ds[0]);
        let tail = ds.drop_first();
        assert(pins_consistent(tail)) by {
            assert forall|a: int, b: int| 0 <= a < tail.len() && 0 <= b < tail.len() implies consistent(
                #[trigger] tail[a],
                #[trigger] tail[b],
            ) by {
                assert(tail[a] == ds[a + 1] && tail[b] == ds[b + 1]);
            }
        }
        lemma_fallback_pins(r1, tail);
        lemma_fallback_sound(r, ds[0], ds[0]);
        assert(fallback_all_v(r, ds) == fallback_all_v(r1, tail));
        assert forall|j: int| 0 <= j < ds.len() implies pinned(fallback_all_v(r, ds), #[trigger] ds[j]) by {
            if j > 0 {
                assert(ds[j] == tail[j - 1]);
            } else {
                assert forall|k: int| 0 <= k < tail.len() implies consistent(ds[0], #[trigger] tail[k]) by {
                    assert(tail[k] == ds[k + 1]);
                }
            }
        }
        assert forall|x: DependencyView|
            (forall|j: int| 0 <= j < ds.len() ==> consistent(x, #[trigger] ds[j])) && pinned(r, x) implies #[trigger] pinned(
            fallback_all_v(r, ds),
            x,
        ) by {
            assert(consistent(x, ds[0]));
            lemma_fallback_sound(r, ds[0], x);
            assert forall|k: int| 0 <= k < tail.len() implies consistent(x, #[trigger] tail[k]) by {
                assert(tail[k] == ds[k + 1]);
            }
        }
    }
}

/// Filing an issue against a dependency is what a later lookup of its
/// key and check finds.
pub proof fn lemma_filed_issue_is_found(r: ResolutionView, d: DependencyView, i: IssueView)
    ensures
        push_issue_for_v(r, d, i).keyed.contains((key_of(d), i.check)),
        forall|k: (super::KeyView, Seq<char>)| r.keyed.contains(k) ==> #[trigger] push_issue_for_v(r, d, i).keyed.contains(k),
{
    let r2 = push_issue_for_v(r, d, i);
    assert(r2.keyed[r.keyed.len() as int] == (key_of(d), i.check));
    assert forall|k: (super::KeyView, Seq<char>)| r.keyed.contains(k) implies #[trigger] r2.keyed.contains(k) by {
        let j = choose|j: int| 0 <= j < r.keyed.len() && r.keyed[j] == k;
        assert(r2.keyed[j] == k);
    }
}

proof fn lemma_poetry_step_sound(r: ResolutionView, d: DependencyView, cands: Seq<Seq<char>>, mode: ResolutionMode)
    ensures
        sound_step(r, d, python::poetry_step(r, d, cands, mode)),
{
    let r2 = python::poetry_step(r, d, cands, mode);
    match d.exact() {
        Some(e) => {
            if cands.contains(e) {
                assert forall|x: DependencyView| accounted(r, x) implies #[trigger] accounted(r2, x) by {
                    lemma_insert_keeps(r, d, e, ResolutionSource::Lockfile, x);
                    lemma_insert_accounts(r, d, e, ResolutionSource::Lockfile, x);
                }
                assert forall|x: DependencyView| consistent(x, d) && pinned(r, x) implies #[trigger] pinned(r2, x) by {
                    lemma_insert_keeps(r, d, e, ResolutionSource::Lockfile, x);
                }
                lemma_insert_keeps(r, d, e, ResolutionSource::Lockfile, d);
            } else {
                let i = if cands.len() > 0 {
                    super::out_of_sync_spec(d, cands[0])
                } else {
                    super::missing_entry_spec(d, "poetry.lock"@)
                };
                assert(r2 == fallback_v(push_issue_for_v(r, d, i), d));
                assert forall|x: DependencyView| accounted(r, x) implies #[trigger] accounted(r2, x) by {
                    lemma_keyed_issue_keeps(r, d, i, x);
                    lemma_fallback_sound(push_issue_for_v(r, d, i), d, x);
                }
                assert forall|x: DependencyView| consistent(x, d) && pinned(r, x) implies #[trigger] pinned(r2, x) by {
                    lemma_keyed_issue_keeps(r, d, i, x);
                    lemma_fallback_sound(push_issue_for_v(r, d, i), d, x);
                }
                lemma_keyed_issue_keeps(r, d, i, d);
                lemma_fallback_sound(push_issue_for_v(r, d, i), d, d);
            }
        },
        None => {
            if cands.len() > 0 {
                if mode == ResolutionMode::Direct && d.version is Some {
                    let i = super::no_sync_spec(d, "poetry.lock"@);
                    assert forall|x: DependencyView| accounted(r, x) implies #[trigger] accounted(r2, x) by {
                        lemma_keyed_issue_keeps(r, d, i, x);
                    }
                    assert forall|x: DependencyView| consistent(x, d) && pinned(r, x) implies #[trigger] pinned(r2, x) by {
                        lemma_keyed_issue_keeps(r, d, i, x);
                    }
                    lemma_keyed_issue_keeps(r, d, i, d);
                } else {
                    let v = cands[0];
                    assert forall|x: DependencyView| accounted(r, x) implies #[trigger] accounted(r2, x) by {
                        lemma_insert_keeps(r, d, v, ResolutionSource::Lockfile, x);
                        lemma_insert_accounts(r, d, v, ResolutionSource::Lockfile, x);
                    }
                    assert forall|x: DependencyView| consistent(x, d) && pinned(r, x) implies #[trigger] pinned(r2, x) by {
                        lemma_insert_keeps(r, d, v, ResolutionSource::Lockfile, x);
                    }
                    lemma_insert_keeps(r, d, v, ResolutionSource::Lockfile, d);
                }
            } else {
                let i = super::missing_entry_spec(d, "poetry.lock"@);
                assert forall|x: DependencyView| accounted(r, x) implies #[trigger] accounted(r2, x) by {
                    lemma_keyed_issue_keeps(r, d, i, x);
                    lemma_fallback_sound(push_issue_for_v(r, d, i), d, x);
                }
                assert forall|x: DependencyView| consistent(x, d) && pinned(r, x) implies #[trigger] pinned(r2, x) by {
                    lemma_keyed_issue_keeps(r, d, i, x);
                    lemma_fallback_sound(push_issue_for_v(r, d, i), d, x);
                }
                lemma_keyed_issue_keeps(r, d, i, d);
                lemma_fallback_sound(push_issue_for_v(r, d, i), d, d);
            }
        },
    }
}

proof fn lemma_poetry_fold_is_fold_with(
    r: ResolutionView,
    ds: Seq<DependencyView>,
    ps: Seq<(Seq<char>, Seq<char>)>,
    mode: ResolutionMode,
)
    ensures
        python::poetry_fold(r, ds, ps, mode) == fold_with(
            r,
            ds,
            |a: ResolutionView, d: DependencyView|
                python::poetry_step(a, d, python::candidates(ps, python::spec_normalize(d.name)), mode),
        ),
    decreases ds.len(),
{
    if ds.len() > 0 {
        lemma_poetry_fold_is_fold_with(
            python::poetry_step(r, ds[0], python::candidates(ps, python::spec_normalize(ds[0].name)), mode),
            ds.drop_first(),
            ps,
            mode,
        );
    }
}

/// Poetry resolution accounts for every dependency, and resolves every
/// exactly pinned one to its pin (when dependencies recorded under one key
/// pin alike).
pub proof fn lemma_poetry_resolution_accounts_and_keeps_pins(
    ds: Seq<DependencyView>,
    ps: Seq<(Seq<char>, Seq<char>)>,
    mode: ResolutionMode,
)
    ensures
        forall|j: int| 0 <= j < ds.len() ==> accounted(python::poetry_fold(empty_resolution(), ds, ps, mode), #[trigger] ds[j]),
        pins_consistent(ds) ==> forall|j: int|
            0 <= j < ds.len() ==> pinned(python::poetry_fold(empty_resolution(), ds, ps, mode), #[trigger] ds[j]),
{
    let step = |a: ResolutionView, d: DependencyView|
        python::poetry_step(a, d, python::candidates(ps, python::spec_normalize(d.name)), mode);
    assert forall|a: ResolutionView, d: DependencyView| sound_step(a, d, #[trigger] step(a, d)) by {
        lemma_poetry_step_sound(a, d, python::candidates(ps, python::spec_normalize(d.name)), mode);
    }
    lemma_poetry_fold_is_fold_with(empty_resolution(), ds, ps, mode);
    lemma_fold_with_sound(empty_resolution(), ds, step);
}

proof fn lemma_bun_step_sound(r: ResolutionView, d: DependencyView, specifier: Option<Seq<char>>, versions: Seq<Seq<char>>)
    ensures
        sound_step(r, d, bun::bun_step(r, d, specifier, versions)),
{
    let r2 = bun::bun_step(r, d, specifier, versions);
    if specifier is None || versions.len() == 0 || versions.len() > 1 || (d.exact() is Some && d.exact()
        != Some(versions[0])) || (d.version is Some && d.version != specifier) {
        let i = if specifier is None || versions.len() == 0 {
            super::missing_entry_spec(d, "bun.lock"@)
        } else if versions.len() > 1 {
            super::parse_failed_spec("bun.lock"@, bun::multiple_entries_detail(d.package()))
        } else {
            super::out_of_sync_spec(d, versions[0])
        };
        assert(r2 == fallback_v(push_issue_for_v(r, d, i), d));
        assert forall|x: DependencyView| accounted(r, x) implies #[trigger] accounted(r2, x) by {
            lemma_keyed_issue_keeps(r, d, i, x);
            lemma_fallback_sound(push_issue_for_v(r, d, i), d, x);
        }
        assert forall|x: DependencyView| consistent(x, d) && pinned(r, x) implies #[trigger] pinned(r2, x) by {
            lemma_keyed_issue_keeps(r, d, i, x);
            lemma_fallback_sound(push_issue_for_v(r, d, i), d, x);
        }
        lemma_keyed_issue_keeps(r, d, i, d);
        lemma_keyed_issue_accounts(r, d, i);
        lemma_fallback_sound(push_issue_for_v(r, d, i), d, d);
    } else {
        let v = versions[0];
        assert forall|x: DependencyView| accounted(r, x) implies #[trigger] accounted(r2, x) by {
            lemma_insert_keeps(r, d, v, ResolutionSource::Lockfile, x);
            lemma_insert_accounts(r, d, v, ResolutionSource::Lockfile, x);
        }
        assert forall|x: DependencyView| consistent(x, d) && pinned(r, x) implies #[trigger] pinned(r2, x) by {
            lemma_insert_keeps(r, d, v, ResolutionSource::Lockfile, x);
        }
        lemma_insert_keeps(r, d, v, ResolutionSource::Lockfile, d);
        lemma_insert_accounts(r, d, v, ResolutionSource::Lockfile, d);
    }
}

proof fn lemma_bun_fold_is_fold_with(
    r: ResolutionView,
    ds: Seq<DependencyView>,
    w: crate::lockfiles::npm::NpmSections,
    descs: Seq<Option<Seq<char>>>,
)
    ensures
        bun::bun_fold(r, ds, w, descs) == fold_with(
            r,
            ds,
            |a: ResolutionView, d: DependencyView|
                bun::bun_step(a, d, bun::spec_specifier(w, d.package()), bun::versions_of(descs, d.package())),
        ),
    decreases ds.len(),
{
    if ds.len() > 0 {
        lemma_bun_fold_is_fold_with(
            bun::bun_step(r, ds[0], bun::spec_specifier(w, ds[0].package()), bun::versions_of(descs, ds[0].package())),
            ds.drop_first(),
            w,
            descs,
        );
    }
}

/// Bun resolution accounts for every dependency, and resolves every
/// exactly pinned one to its pin (when dependencies recorded under one key
/// pin alike).
pub proof fn lemma_bun_resolution_accounts_and_keeps_pins(
    ds: Seq<DependencyView>,
    w: crate::lockfiles::npm::NpmSections,
    descs: Seq<Option<Seq<char>>>,
)
    ensures
        forall|j: int| 0 <= j < ds.len() ==> accounted(bun::bun_fold(empty_resolution(), ds, w, descs), #[trigger] ds[j]),
        pins_consistent(ds) ==> forall|j: int|
            0 <= j < ds.len() ==> pinned(bun::bun_fold(empty_resolution(), ds, w, descs), #[trigger] ds[j]),
{
    let step = |a: ResolutionView, d: DependencyView|
        bun::bun_step(a, d, bun::spec_specifier(w, d.package()), bun::versions_of(descs, d.package()));
    assert forall|a: ResolutionView, d: DependencyView| sound_step(a, d, #[trigger] step(a, d)) by {
        lemma_bun_step_sound(a, d, bun::spec_specifier(w, d.package()), bun::versions_of(descs, d.package()));
    }
    lemma_bun_fold_is_fold_with(empty_resolution(), ds, w, descs);
    lemma_fold_with_sound(empty_resolution(), ds, step);
}

/// A direct dependency whose requirement pins no exact version is not
/// trusted to the one version a lockfile locks for it: resolving it only
/// files the no-trusted-lockfile-sync issue, and resolves nothing new.
pub proof fn lemma_direct_range_not_trusted_to_lockfile(
    r: ResolutionView,
    d: DependencyView,
    locked: Seq<char>,
    lockfile: Seq<char>,
)
    requires
        d.version is Some,
        d.exact() is None,
    ensures
        multi_step(r, d, Some(seq![locked]), lockfile, ResolutionMode::Direct) == push_issue_v(
            r,
            no_sync_spec(d, lockfile),
        ),
        lookup(multi_step(r, d, Some(seq![locked]), lockfile, ResolutionMode::Direct), d) == lookup(r, d),
{
}

} // verus!
