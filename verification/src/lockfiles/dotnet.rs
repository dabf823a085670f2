//! NuGet's `packages.lock.json`.
use vstd::prelude::*;
use crate::{Dependency, DependencyView};
use crate::ecosystem::Ecosystem;
use crate::assoc::{CandidateTable, list_or_empty};
use crate::order::sorted_insert;
use crate::registry::{valid_package_name, validate_package_name};
use crate::report::opt_view;
use crate::text::{ascii_lower, to_ascii_lowercase};
use super::{
    ResolutionResult, ResolutionView, empty_resolution, fold_multi, by_key, dep_views,
    resolve_all_multi, ResolutionMode,
};

verus! {

/// A parsed `packages.lock.json`: the `dependencies` object, when present,
/// as its target frameworks in order; a target that is not an object is
/// `None`, else its packages with their `resolved` strings.
#[derive(Debug)]
pub struct DotnetLock {
    pub dependencies: Option<Vec<Option<Vec<(String, Option<String>)>>>>,
}

pub open spec fn target_view(t: Option<Vec<(String, Option<String>)>>) -> Option<Seq<(Seq<char>, Option<Seq<char>>)>> {
    match t {
        Some(v) => Some(v@.map_values(|p: (String, Option<String>)| (p.0@, opt_view(p.1)))),
        None => None,
    }
}

pub open spec fn targets_view(lock: DotnetLock) -> Seq<Option<Seq<(Seq<char>, Option<Seq<char>>)>>> {
    match lock.dependencies {
        Some(ts) => ts@.map_values(|t: Option<Vec<(String, Option<String>)>>| target_view(t)),
        None => Seq::empty(),
    }
}

/// The `(name, resolved)` pairs of one target with a valid name and a
/// resolved version.
pub open spec fn target_entries(es: Seq<(Seq<char>, Option<Seq<char>>)>) -> Seq<(Seq<char>, Seq<char>)>
    decreases es.len(),
{
    if es.len() == 0 {
        seq![]
    } else {
        (match es[0].1 {
            Some(r) => if valid_package_name(es[0].0) {
                seq![(es[0].0, r)]
            } else {
                seq![]
            },
            None => seq![],
        }) + target_entries(es.drop_first())
    }
}

pub open spec fn entries_of(ts: Seq<Option<Seq<(Seq<char>, Option<Seq<char>>)>>>) -> Seq<(Seq<char>, Seq<char>)>
    decreases ts.len(),
{
    if ts.len() == 0 {
        seq![]
    } else {
        (match ts[0] {
            Some(es) => target_entries(es),
            None => seq![],
        }) + entries_of(ts.drop_first())
    }
}

/// Every resolved package of every target, in order.
pub open spec fn spec_entries(lock: DotnetLock) -> Seq<(Seq<char>, Seq<char>)> {
    entries_of(targets_view(lock))
}

pub open spec fn pairs_view(s: Seq<(String, String)>) -> Seq<(Seq<char>, Seq<char>)> {
    s.map_values(|p: (String, String)| (p.0@, p.1@))
}

fn add_target(out: &mut Vec<(String, String)>, entries: &Vec<(String, Option<String>)>)
    ensures
        pairs_view(final(out)@) == pairs_view(old(out)@) + target_entries(target_view(Some(*entries))->0),
{
    let ghost es = target_view(Some(*entries))->0;
    let mut i: usize = 0;
    assert(es.subrange(0, es.len() as int) == es);
    assert(pairs_view(out@) + target_entries(es) == pairs_view(old(out)@) + target_entries(es));
    while i < entries.len()
        invariant
            i <= entries@.len(),
            es == target_view(Some(*entries))->0,
            pairs_view(out@) + target_entries(es.subrange(i as int, es.len() as int)) == pairs_view(old(out)@) + target_entries(es),
        decreases entries.len() - i,
    {
        let ghost before = pairs_view(out@);
        let ghost rest = es.subrange(i as int, es.len() as int);
        proof {
            assert(rest.drop_first() == es.subrange(i + 1, es.len() as int));
            assert(rest[0] == es[i as int]);
        }
        let mut pushed = false;
        if let Some(resolved) = &entries[i].1 {
            if validate_package_name(entries[i].0.as_str()) {
                out.push((entries[i].0.clone(), resolved.clone()));
                pushed = true;
                proof {
                    let e = (es[i as int].0, resolved@);
                    assert(pairs_view(out@) =~= before.push(e));
                    assert(before + (seq![e] + target_entries(rest.drop_first())) == before.push(e) + target_entries(rest.drop_first()));
                }
            }
        }
        if !pushed {
            assert(seq![] + target_entries(rest.drop_first()) == target_entries(rest.drop_first()));
        }
        i = i + 1;
    }
    assert(es.subrange(i as int, es.len() as int) == Seq::<(Seq<char>, Option<Seq<char>>)>::empty());
    assert(pairs_view(out@) + Seq::<(Seq<char>, Seq<char>)>::empty() == pairs_view(out@));
}

/// Every resolved package of every target framework, in order.
pub fn extract_packages(parsed: &DotnetLock) -> (r: Vec<(String, String)>)
    ensures
        pairs_view(r@) == spec_entries(*parsed),
{
    let mut out: Vec<(String, String)> = Vec::new();
    let Some(targets) = &parsed.dependencies else {
        assert(pairs_view(out@) =~= Seq::<(Seq<char>, Seq<char>)>::empty());
        return out;
    };
    let ghost ts = targets_view(*parsed);
    let mut i: usize = 0;
    assert(ts.subrange(0, ts.len() as int) == ts);
    assert(pairs_view(out@) =~= Seq::<(Seq<char>, Seq<char>)>::empty());
    while i < targets.len()
        invariant
            i <= targets@.len(),
            parsed.dependencies == Some(*targets),
            ts == targets_view(*parsed),
            pairs_view(out@) + entries_of(ts.subrange(i as int, ts.len() as int)) == entries_of(ts),
        decreases targets.len() - i,
    {
        let ghost before = pairs_view(out@);
        let ghost rest = ts.subrange(i as int, ts.len() as int);
        proof {
            assert(rest.drop_first() == ts.subrange(i + 1, ts.len() as int));
            assert(rest[0] == target_view(targets@[i as int]));
        }
        match &targets[i] {
            Some(entries) => {
                add_target(&mut out, entries);
                assert(before + (target_entries(target_view(Some(*entries))->0) + entries_of(rest.drop_first())) == pairs_view(out@) + entries_of(rest.drop_first()));
            },
            None => {
                assert(seq![] + entries_of(rest.drop_first()) == entries_of(rest.drop_first()));
            },
        }
        i = i + 1;
    }
    assert(ts.subrange(i as int, ts.len() as int) == Seq::<Option<Seq<(Seq<char>, Option<Seq<char>>)>>>::empty());
    assert(pairs_view(out@) + Seq::<(Seq<char>, Seq<char>)>::empty() == pairs_view(out@));
    out
}

/// The versions under each ASCII-lowercased name: sorted, each once.
pub open spec fn versions_from(
    es: Seq<(Seq<char>, Seq<char>)>,
    m: Map<Seq<char>, Seq<Seq<char>>>,
) -> Map<Seq<char>, Seq<Seq<char>>>
    decreases es.len(),
{
    if es.len() == 0 {
        m
    } else {
        let k = ascii_lower(es[0].0);
        versions_from(es.drop_first(), m.insert(k, sorted_insert(list_or_empty(m, k), es[0].1)))
    }
}

pub open spec fn spec_resolve(lock: DotnetLock, deps: Seq<DependencyView>) -> ResolutionView {
    fold_multi(
        empty_resolution(),
        deps,
        by_key(versions_from(spec_entries(lock), Map::empty()), true),
        "packages.lock.json"@,
        ResolutionMode::Transitive,
    )
}

/// Resolves against a parsed `packages.lock.json`; names match without
/// regard to ASCII case.
pub fn resolve_from_value(parsed: &DotnetLock, deps: &[Dependency]) -> (r: ResolutionResult)
    ensures
        r.wf(),
        r@ == spec_resolve(*parsed, dep_views(deps@)),
{
    let packages = extract_packages(parsed);
    let ghost es = pairs_view(packages@);
    let mut table = CandidateTable::new();
    let mut i: usize = 0;
    assert(es.subrange(0, es.len() as int) == es);
    while i < packages.len()
        invariant
            i <= packages@.len(),
            es == pairs_view(packages@),
            es == spec_entries(*parsed),
            table.wf(),
            versions_from(es.subrange(i as int, es.len() as int), table@) == versions_from(es, Map::empty()),
        decreases packages.len() - i,
    {
        proof {
            let rest = es.subrange(i as int, es.len() as int);
            assert(rest.drop_first() == es.subrange(i + 1, es.len() as int));
            assert(rest[0] == (packages@[i as int].0@, packages@[i as int].1@));
        }
        let key = to_ascii_lowercase(packages[i].0.as_str());
        table.add_sorted(key, packages[i].1.clone());
        i = i + 1;
    }
    assert(es.subrange(i as int, es.len() as int) == Seq::<(Seq<char>, Seq<char>)>::empty());
    resolve_all_multi(deps, &table, "packages.lock.json", true, ResolutionMode::Transitive)
}

/// Every resolved package of a parsed `packages.lock.json`, as a .NET
/// dependency.
pub fn parse_all_from_value(parsed: &DotnetLock) -> (r: Vec<Dependency>)
    ensures
        r@.len() == spec_entries(*parsed).len(),
        forall|i: int|
            0 <= i < r@.len() ==> (#[trigger] r@[i])@ == (DependencyView {
                name: spec_entries(*parsed)[i].0,
                version: Some(spec_entries(*parsed)[i].1),
                ecosystem: Ecosystem::Dotnet,
                actual_name: None,
            }),
{
    let entries = extract_packages(parsed);
    let mut r: Vec<Dependency> = Vec::new();
    let mut i: usize = 0;
    while i < entries.len()
        invariant
            i <= entries@.len(),
            pairs_view(entries@) == spec_entries(*parsed),
            r@.len() == i,
            forall|j: int|
                0 <= j < i ==> (#[trigger] r@[j])@ == (DependencyView {
                    name: spec_entries(*parsed)[j].0,
                    version: Some(spec_entries(*parsed)[j].1),
                    ecosystem: Ecosystem::Dotnet,
                    actual_name: None,
                }),
        decreases entries.len() - i,
    {
        assert(pairs_view(entries@)[i as int] == (entries@[i as int].0@, entries@[i as int].1@));
        r.push(
            Dependency {
                name: entries[i].0.clone(),
                version: Some(entries[i].1.clone()),
                ecosystem: Ecosystem::Dotnet,
                actual_name: None,
            },
        );
        i = i + 1;
    }
    r
}

} // verus!
