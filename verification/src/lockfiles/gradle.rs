//! Gradle dependency locking's `gradle.lockfile`.
use vstd::prelude::*;
use crate::{Dependency, DependencyView};
use crate::ecosystem::Ecosystem;
use crate::assoc::{CandidateTable, list_or_empty};
use crate::order::sorted_insert;
use crate::registry::{valid_package_name, validate_package_name};
use crate::text::{
    lines, trim, split_once, chars_of, line_at, trim_range, range_eq, find_char,
    string_of_range, string_push, lemma_index_of_bound,
};
use super::{
    ResolutionResult, ResolutionView, empty_resolution, fold_multi, by_key, dep_views,
    resolve_all_multi, ResolutionMode,
};

verus! {

/// The `(group:artifact, version)` entry of one line of `gradle.lockfile`:
/// blank lines, `#` comments and the `empty=` line have none; the
/// coordinates are what precedes `=`; they need a group, an artifact and a
/// version separated by `:` (the version keeps any further `:`), and the
/// name `group:artifact` must be a valid package name.
pub open spec fn gradle_line(line: Seq<char>) -> Option<(Seq<char>, Seq<char>)> {
    let t = trim(line);
    if t.len() == 0 || t[0] == '#' {
        None
    } else {
        let coords = match split_once(t, '=') {
            Some((left, _)) => left,
            None => t,
        };
        if coords == "empty"@ {
            None
        } else {
            match split_once(coords, ':') {
                None => None,
                Some((group, rest)) => match split_once(rest, ':') {
                    None => None,
                    Some((artifact, version)) => {
                        let name = group.push(':') + artifact;
                        if valid_package_name(name) {
                            Some((name, version))
                        } else {
                            None
                        }
                    },
                },
            }
        }
    }
}

pub open spec fn entries_of(ls: Seq<Seq<char>>) -> Seq<(Seq<char>, Seq<char>)>
    decreases ls.len(),
{
    if ls.len() == 0 {
        seq![]
    } else {
        (match gradle_line(ls[0]) {
            Some(e) => seq![e],
            None => seq![],
        }) + entries_of(ls.drop_first())
    }
}

/// The entries of `content`, in order.
pub open spec fn spec_entries(content: Seq<char>) -> Seq<(Seq<char>, Seq<char>)> {
    entries_of(lines(content))
}

pub open spec fn pairs_view(s: Seq<(String, String)>) -> Seq<(Seq<char>, Seq<char>)> {
    s.map_values(|p: (String, String)| (p.0@, p.1@))
}

proof fn lemma_entries_cons(l: Seq<char>, rest: Seq<Seq<char>>)
    ensures
        entries_of(seq![l] + rest) == (match gradle_line(l) {
            Some(e) => seq![e],
            None => seq![],
        }) + entries_of(rest),
{
    assert((seq![l] + rest).drop_first() == rest);
}

/// The coordinates of one line of `gradle.lockfile` (`v[lo..hi]`).
fn parse_line(v: &Vec<char>, lo: usize, hi: usize, empty: &Vec<char>) -> (r: Option<(String, String)>)
    requires
        lo <= hi <= v.len(),
        empty@ == "empty"@,
    ensures
        match r {
            Some(p) => gradle_line(v@.subrange(lo as int, hi as int)) == Some((p.0@, p.1@)),
            None => gradle_line(v@.subrange(lo as int, hi as int)) is None,
        },
{
    let (tlo, thi) = trim_range(v, lo, hi);
    let ghost t = v@.subrange(tlo as int, thi as int);
    if tlo == thi || v[tlo] == '#' {
        assert(tlo < thi ==> t[0] == v@[tlo as int]);
        return None;
    }
    assert(t[0] == v@[tlo as int]);
    let eq = find_char(v, tlo, thi, '=');
    proof {
        lemma_index_of_bound(t, '=');
        if eq < thi {
            assert(t.subrange(0, (eq - tlo) as int) == v@.subrange(tlo as int, eq as int));
        } else {
            assert(v@.subrange(tlo as int, eq as int) == t);
        }
    }
    let ghost coords = v@.subrange(tlo as int, eq as int);
    if range_eq(v, tlo, eq, empty) {
        return None;
    }
    let c1 = find_char(v, tlo, eq, ':');
    proof {
        lemma_index_of_bound(coords, ':');
    }
    if c1 == eq {
        return None;
    }
    let ghost rest = v@.subrange(c1 + 1, eq as int);
    proof {
        assert(coords.subrange(0, (c1 - tlo) as int) == v@.subrange(tlo as int, c1 as int));
        assert(coords.subrange(c1 - tlo + 1, coords.len() as int) == rest);
    }
    let c2 = find_char(v, c1 + 1, eq, ':');
    proof {
        lemma_index_of_bound(rest, ':');
    }
    if c2 == eq {
        return None;
    }
    proof {
        assert(rest.subrange(0, (c2 - c1 - 1) as int) == v@.subrange(c1 + 1, c2 as int));
        assert(rest.subrange(c2 - c1, rest.len() as int) == v@.subrange(c2 + 1, eq as int));
    }
    let mut name = string_of_range(v, tlo, c1);
    string_push(&mut name, ':');
    let artifact = string_of_range(v, c1 + 1, c2);
    crate::text::push_str(&mut name, artifact.as_str());
    if !validate_package_name(name.as_str()) {
        return None;
    }
    let version = string_of_range(v, c2 + 1, eq);
    Some((name, version))
}

/// The `(group:artifact, version)` entries of a `gradle.lockfile`, in order.
pub fn parse_entries(content: &str) -> (r: Vec<(String, String)>)
    ensures
        pairs_view(r@) == spec_entries(content@),
{
    let v = chars_of(content);
    let empty = chars_of("empty");
    let mut entries: Vec<(String, String)> = Vec::new();
    let mut pos: usize = 0;
    assert(v@.subrange(0, v@.len() as int) == v@);
    assert(pairs_view(entries@) =~= Seq::<(Seq<char>, Seq<char>)>::empty());
    while pos < v.len()
        invariant
            pos <= v@.len(),
            v@ == content@,
            empty@ == "empty"@,
            pairs_view(entries@) + entries_of(lines(v@.subrange(pos as int, v@.len() as int)))
                == spec_entries(content@),
        decreases v.len() - pos,
    {
        let (lo, hi, next) = line_at(&v, pos);
        let ghost line = v@.subrange(lo as int, hi as int);
        let ghost later = lines(v@.subrange(next as int, v@.len() as int));
        let ghost before = pairs_view(entries@);
        proof {
            lemma_entries_cons(line, later);
        }
        match parse_line(&v, lo, hi, &empty) {
            Some(p) => {
                entries.push(p);
                assert(pairs_view(entries@) =~= before.push((p.0@, p.1@)));
                assert(before + (seq![(p.0@, p.1@)] + entries_of(later)) == before.push((p.0@, p.1@))
                    + entries_of(later));
            },
            None => {
                assert(seq![] + entries_of(later) == entries_of(later));
            },
        }
        pos = next;
    }
    proof {
        assert(v@.subrange(pos as int, v@.len() as int) == Seq::<char>::empty());
        assert(pairs_view(entries@) + Seq::<(Seq<char>, Seq<char>)>::empty() == pairs_view(entries@));
    }
    entries
}

/// The versions locked for each name: sorted, each once.
pub open spec fn versions_from(
    es: Seq<(Seq<char>, Seq<char>)>,
    m: Map<Seq<char>, Seq<Seq<char>>>,
) -> Map<Seq<char>, Seq<Seq<char>>>
    decreases es.len(),
{
    if es.len() == 0 {
        m
    } else {
        versions_from(
            es.drop_first(),
            m.insert(es[0].0, sorted_insert(list_or_empty(m, es[0].0), es[0].1)),
        )
    }
}

pub open spec fn spec_versions(content: Seq<char>) -> Map<Seq<char>, Seq<Seq<char>>> {
    versions_from(spec_entries(content), Map::empty())
}

/// The locked versions of each name of a `gradle.lockfile`, sorted and
/// without repeats.
pub fn parse_versions(content: &str) -> (t: CandidateTable)
    ensures
        t.wf(),
        t@ == spec_versions(content@),
{
    let entries = parse_entries(content);
    let ghost es = pairs_view(entries@);
    let mut table = CandidateTable::new();
    let mut i: usize = 0;
    assert(es.subrange(0, es.len() as int) == es);
    while i < entries.len()
        invariant
            i <= entries@.len(),
            es == pairs_view(entries@),
            es == spec_entries(content@),
            table.wf(),
            versions_from(es.subrange(i as int, es.len() as int), table@) == spec_versions(content@),
        decreases entries.len() - i,
    {
        proof {
            let rest = es.subrange(i as int, es.len() as int);
            assert(rest.drop_first() == es.subrange(i + 1, es.len() as int));
            assert(rest[0] == (entries@[i as int].0@, entries@[i as int].1@));
        }
        table.add_sorted(entries[i].0.clone(), entries[i].1.clone());
        i = i + 1;
    }
    assert(es.subrange(i as int, es.len() as int) == Seq::<(Seq<char>, Seq<char>)>::empty());
    table
}

/// Resolution of `deps` against the versions of `content`.
pub open spec fn spec_resolve(content: Seq<char>, deps: Seq<DependencyView>) -> ResolutionView {
    fold_multi(
        empty_resolution(),
        deps,
        by_key(spec_versions(content), false),
        "gradle.lockfile"@,
        ResolutionMode::Transitive,
    )
}

/// Resolves versions from a pre-read `gradle.lockfile`.
pub fn resolve_from_content(content: &str, deps: &[Dependency]) -> (r: ResolutionResult)
    ensures
        r.wf(),
        r@ == spec_resolve(content@, dep_views(deps@)),
{
    let versions = parse_versions(content);
    resolve_all_multi(deps, &versions, "gradle.lockfile", false, ResolutionMode::Transitive)
}

/// Every entry of a pre-read `gradle.lockfile`, as a JVM dependency.
pub fn parse_all_from_content(content: &str) -> (r: Vec<Dependency>)
    ensures
        r@.len() == spec_entries(content@).len(),
        forall|i: int|
            0 <= i < r@.len() ==> (#[trigger] r@[i])@ == (DependencyView {
                name: spec_entries(content@)[i].0,
                version: Some(spec_entries(content@)[i].1),
                ecosystem: Ecosystem::Jvm,
                actual_name: None,
            }),
{
    let entries = parse_entries(content);
    let mut r: Vec<Dependency> = Vec::new();
    let mut i: usize = 0;
    while i < entries.len()
        invariant
            i <= entries@.len(),
            pairs_view(entries@) == spec_entries(content@),
            r@.len() == i,
            forall|j: int|
                0 <= j < i ==> (#[trigger] r@[j])@ == (DependencyView {
                    name: spec_entries(content@)[j].0,
                    version: Some(spec_entries(content@)[j].1),
                    ecosystem: Ecosystem::Jvm,
                    actual_name: None,
                }),
        decreases entries.len() - i,
    {
        assert(pairs_view(entries@)[i as int] == (entries@[i as int].0@, entries@[i as int].1@));
        r.push(
            Dependency {
                name: entries[i].0.clone(),
                version: Some(entries[i].1.clone()),
                ecosystem: Ecosystem::Jvm,
                actual_name: None,
            },
        );
        i = i + 1;
    }
    r
}

} // verus!
