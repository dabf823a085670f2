//! Composer's `composer.lock`.
use vstd::prelude::*;
use crate::{Dependency, DependencyView};
use crate::ecosystem::Ecosystem;
use crate::assoc::StringTable;
use crate::registry::{valid_package_name, validate_package_name};
use crate::report::opt_view;
use super::{
    ResolutionMode, ResolutionResult, ResolutionView, empty_resolution, fold_single, by_name,
    dep_views, resolve_all_single, deps_from_table, lists_table,
};

verus! {

/// One entry of the `packages` or `packages-dev` array: its `name` and
/// `version` strings (`None` where missing or not a string).
#[derive(Debug)]
pub struct ComposerEntry {
    pub name: Option<String>,
    pub version: Option<String>,
}

/// A parsed `composer.lock`: its `packages` and `packages-dev` arrays, when
/// present.
#[derive(Debug)]
pub struct ComposerLock {
    pub packages: Option<Vec<ComposerEntry>>,
    pub packages_dev: Option<Vec<ComposerEntry>>,
}

pub open spec fn entry_views(s: Seq<ComposerEntry>) -> Seq<(Option<Seq<char>>, Option<Seq<char>>)> {
    s.map_values(|e: ComposerEntry| (opt_view(e.name), opt_view(e.version)))
}

pub open spec fn section_view(s: Option<Vec<ComposerEntry>>) -> Seq<(Option<Seq<char>>, Option<Seq<char>>)> {
    match s {
        Some(v) => entry_views(v@),
        None => Seq::empty(),
    }
}

/// The versions of validly named entries; a later entry of a name wins.
pub open spec fn table_from(
    es: Seq<(Option<Seq<char>>, Option<Seq<char>>)>,
    m: Map<Seq<char>, Seq<char>>,
) -> Map<Seq<char>, Seq<char>>
    decreases es.len(),
{
    if es.len() == 0 {
        m
    } else {
        let next = match es[0] {
            (Some(n), Some(v)) => if valid_package_name(n) {
                m.insert(n, v)
            } else {
                m
            },
            _ => m,
        };
        table_from(es.drop_first(), next)
    }
}

/// Package versions of `packages`, then of `packages-dev`.
pub open spec fn spec_packages(lock: ComposerLock) -> Map<Seq<char>, Seq<char>> {
    table_from(section_view(lock.packages_dev), table_from(section_view(lock.packages), Map::empty()))
}

fn add_section(table: &mut StringTable, section: &Option<Vec<ComposerEntry>>)
    requires
        old(table).wf(),
    ensures
        final(table).wf(),
        final(table)@ == table_from(section_view(*section), old(table)@),
{
    let Some(entries) = section else {
        return ;
    };
    let ghost es = entry_views(entries@);
    let mut i: usize = 0;
    assert(es.subrange(0, es.len() as int) == es);
    while i < entries.len()
        invariant
            i <= entries@.len(),
            es == entry_views(entries@),
            table.wf(),
            table_from(es.subrange(i as int, es.len() as int), table@) == table_from(es, old(table)@),
        decreases entries.len() - i,
    {
        proof {
            let rest = es.subrange(i as int, es.len() as int);
            assert(rest.drop_first() == es.subrange(i + 1, es.len() as int));
            assert(rest[0] == es[i as int]);
        }
        if let (Some(name), Some(version)) = (&entries[i].name, &entries[i].version) {
            if validate_package_name(name.as_str()) {
                table.insert(name.clone(), version.clone());
            }
        }
        i = i + 1;
    }
    assert(es.subrange(i as int, es.len() as int) == Seq::<(Option<Seq<char>>, Option<Seq<char>>)>::empty());
}

/// The locked version of each package of `packages` and `packages-dev`.
pub fn extract_packages(parsed: &ComposerLock) -> (t: StringTable)
    ensures
        t.wf(),
        t@ == spec_packages(*parsed),
{
    let mut table = StringTable::new();
    add_section(&mut table, &parsed.packages);
    add_section(&mut table, &parsed.packages_dev);
    table
}

pub open spec fn spec_resolve(lock: ComposerLock, deps: Seq<DependencyView>, mode: ResolutionMode) -> ResolutionView {
    fold_single(empty_resolution(), deps, by_name(spec_packages(lock)), "composer.lock"@, mode, true, true)
}

/// Resolves against a parsed `composer.lock`; in `Direct` mode a range
/// requirement is not taken as proven by the locked version.
pub fn resolve_from_value_with_mode(parsed: &ComposerLock, deps: &[Dependency], mode: ResolutionMode) -> (r: ResolutionResult)
    ensures
        r.wf(),
        r@ == spec_resolve(*parsed, dep_views(deps@), mode),
{
    let packages = extract_packages(parsed);
    resolve_all_single(deps, &packages, "composer.lock", mode, true, true)
}

/// `resolve_from_value_with_mode` for direct dependencies.
pub fn resolve_from_value(parsed: &ComposerLock, deps: &[Dependency]) -> (r: ResolutionResult)
    ensures
        r.wf(),
        r@ == spec_resolve(*parsed, dep_views(deps@), ResolutionMode::Direct),
{
    resolve_from_value_with_mode(parsed, deps, ResolutionMode::Direct)
}

/// Every package of a parsed `composer.lock`, with its version.
pub fn parse_all_from_value(parsed: &ComposerLock) -> (r: Vec<Dependency>)
    ensures
        lists_table(dep_views(r@), spec_packages(*parsed), Ecosystem::Php),
{
    let packages = extract_packages(parsed);
    deps_from_table(&packages, Ecosystem::Php)
}

/// One step of `table_from`: the table after the first entry.
pub open spec fn table_step(e: (Option<Seq<char>>, Option<Seq<char>>), m: Map<Seq<char>, Seq<char>>) -> Map<Seq<char>, Seq<char>> {
    match e {
        (Some(n), Some(v)) => if valid_package_name(n) {
            m.insert(n, v)
        } else {
            m
        },
        _ => m,
    }
}

/// Whether entry `e` sets a version for `n`.
pub open spec fn sets(e: (Option<Seq<char>>, Option<Seq<char>>), n: Seq<char>) -> bool {
    e.0 == Some(n) && e.1 is Some
}

/// Reading more entries never drops a name already in the table.
pub proof fn lemma_table_from_keeps(es: Seq<(Option<Seq<char>>, Option<Seq<char>>)>, m: Map<Seq<char>, Seq<char>>, k: Seq<char>)
    requires
        m.dom().contains(k),
    ensures
        table_from(es, m).dom().contains(k),
    decreases es.len(),
{
    if es.len() > 0 {
        assert(table_from(es, m) == table_from(es.drop_first(), table_step(es[0], m)));
        lemma_table_from_keeps(es.drop_first(), table_step(es[0], m), k);
    }
}

/// Entries that set no version for `n` leave its binding alone.
pub proof fn lemma_table_from_untouched(es: Seq<(Option<Seq<char>>, Option<Seq<char>>)>, m: Map<Seq<char>, Seq<char>>, n: Seq<char>)
    requires
        m.dom().contains(n),
        forall|j: int| 0 <= j < es.len() ==> !sets(#[trigger] es[j], n),
    ensures
        table_from(es, m).dom().contains(n),
        table_from(es, m)[n] == m[n],
    decreases es.len(),
{
    if es.len() > 0 {
        assert(table_from(es, m) == table_from(es.drop_first(), table_step(es[0], m)));
        assert(!sets(es[0], n));
        assert forall|j: int| 0 <= j < es.drop_first().len() implies !sets(#[trigger] es.drop_first()[j], n) by {
            assert(es.drop_first()[j] == es[j + 1]);
        }
        lemma_table_from_untouched(es.drop_first(), table_step(es[0], m), n);
    }
}

/// A validly named, versioned entry puts its name in the table; where no
/// later entry sets a version for that name, its own version stays.
pub proof fn lemma_table_from_entry(
    es: Seq<(Option<Seq<char>>, Option<Seq<char>>)>,
    m: Map<Seq<char>, Seq<char>>,
    i: int,
    n: Seq<char>,
    v: Seq<char>,
)
    requires
        0 <= i < es.len(),
        es[i] == (Some(n), Some(v)),
        valid_package_name(n),
    ensures
        table_from(es, m).dom().contains(n),
        (forall|j: int| i < j < es.len() ==> !sets(#[trigger] es[j], n)) ==> table_from(es, m)[n] == v,
    decreases es.len(),
{
    assert(table_from(es, m) == table_from(es.drop_first(), table_step(es[0], m)));
    if i == 0 {
        lemma_table_from_keeps(es.drop_first(), table_step(es[0], m), n);
        if forall|j: int| i < j < es.len() ==> !sets(#[trigger] es[j], n) {
            assert forall|j: int| 0 <= j < es.drop_first().len() implies !sets(#[trigger] es.drop_first()[j], n) by {
                assert(es.drop_first()[j] == es[j + 1]);
            }
            lemma_table_from_untouched(es.drop_first(), table_step(es[0], m), n);
        }
    } else {
        assert(es.drop_first()[i - 1] == es[i]);
        lemma_table_from_entry(es.drop_first(), table_step(es[0], m), i - 1, n, v);
        if forall|j: int| i < j < es.len() ==> !sets(#[trigger] es[j], n) {
            assert forall|j: int| i - 1 < j < es.drop_first().len() implies !sets(#[trigger] es.drop_first()[j], n) by {
                assert(es.drop_first()[j] == es[j + 1]);
            }
        }
    }
}

/// The locked versions of `composer.lock` hold every validly named,
/// versioned package of `packages` and of `packages-dev`; a package of
/// `packages-dev` whose name no later `packages-dev` entry sets again is
/// locked at its own version.
pub proof fn lemma_composer_locks_both_sections(lock: ComposerLock, i: int, n: Seq<char>, v: Seq<char>)
    requires
        valid_package_name(n),
    ensures
        0 <= i < section_view(lock.packages).len() && section_view(lock.packages)[i] == (Some(n), Some(v))
            ==> spec_packages(lock).dom().contains(n),
        0 <= i < section_view(lock.packages_dev).len() && section_view(lock.packages_dev)[i] == (Some(n), Some(v))
            ==> spec_packages(lock).dom().contains(n),
        0 <= i < section_view(lock.packages_dev).len() && section_view(lock.packages_dev)[i] == (Some(n), Some(v))
            && (forall|j: int|
            i < j < section_view(lock.packages_dev).len() ==> !sets(#[trigger] section_view(lock.packages_dev)[j], n))
            ==> spec_packages(lock)[n] == v,
{
    let p = section_view(lock.packages);
    let d = section_view(lock.packages_dev);
    if 0 <= i < p.len() && p[i] == (Some(n), Some(v)) {
        lemma_table_from_entry(p, Map::empty(), i, n, v);
        lemma_table_from_keeps(d, table_from(p, Map::empty()), n);
    }
    if 0 <= i < d.len() && d[i] == (Some(n), Some(v)) {
        lemma_table_from_entry(d, table_from(p, Map::empty()), i, n, v);
    }
}

/// Every binding of the table comes from the starting table or from a
/// validly named, versioned entry.
pub proof fn lemma_table_from_sound(es: Seq<(Option<Seq<char>>, Option<Seq<char>>)>, m: Map<Seq<char>, Seq<char>>, n: Seq<char>)
    requires
        table_from(es, m).dom().contains(n),
    ensures
        (m.dom().contains(n) && table_from(es, m)[n] == m[n]) || exists|i: int|
            0 <= i < es.len() && #[trigger] es[i] == (Some(n), Some(table_from(es, m)[n])) && valid_package_name(n),
    decreases es.len(),
{
    if es.len() > 0 {
        let next = table_step(es[0], m);
        assert(table_from(es, m) == table_from(es.drop_first(), next));
        lemma_table_from_sound(es.drop_first(), next, n);
        let t = table_from(es, m);
        if next.dom().contains(n) && t[n] == next[n] {
            if !(m.dom().contains(n) && next[n] == m[n]) {
                assert(es[0] == (Some(n), Some(t[n])));
            }
        } else {
            let i = choose|i: int|
                0 <= i < es.drop_first().len() && #[trigger] es.drop_first()[i] == (Some(n), Some(t[n]))
                    && valid_package_name(n);
            assert(es[i + 1] == es.drop_first()[i]);
        }
    }
}

/// Every locked version of `composer.lock` is the version of a validly
/// named entry of that name in `packages` or `packages-dev`.
pub proof fn lemma_composer_locked_versions_come_from_entries(lock: ComposerLock, n: Seq<char>)
    requires
        spec_packages(lock).dom().contains(n),
    ensures
        valid_package_name(n),
        (exists|i: int|
            0 <= i < section_view(lock.packages).len() && #[trigger] section_view(lock.packages)[i] == (
            Some(n),
            Some(spec_packages(lock)[n]),
        )) || (exists|i: int|
            0 <= i < section_view(lock.packages_dev).len() && #[trigger] section_view(lock.packages_dev)[i] == (
            Some(n),
            Some(spec_packages(lock)[n]),
        )),
{
    let p = section_view(lock.packages);
    let d = section_view(lock.packages_dev);
    let base = table_from(p, Map::empty());
    lemma_table_from_sound(d, base, n);
    if base.dom().contains(n) && spec_packages(lock)[n] == base[n] {
        lemma_table_from_sound(p, Map::empty(), n);
    }
}

/// A dependency that pins the version of a `packages-dev` package (one that
/// no later `packages-dev` entry sets again) resolves to that version from
/// the lockfile, and no issue is filed.
pub proof fn lemma_dev_package_resolves_from_lockfile(
    lock: ComposerLock,
    d: DependencyView,
    i: int,
    v: Seq<char>,
    mode: ResolutionMode,
)
    requires
        valid_package_name(d.name),
        d.exact() == Some(v),
        0 <= i < section_view(lock.packages_dev).len(),
        section_view(lock.packages_dev)[i] == (Some(d.name), Some(v)),
        forall|j: int|
            i < j < section_view(lock.packages_dev).len() ==> !sets(#[trigger] section_view(lock.packages_dev)[j], d.name),
    ensures
        super::lookup(spec_resolve(lock, seq![d], mode), d) == Some(
            (super::ResolvedView { version: v, source: super::ResolutionSource::Lockfile }),
        ),
        spec_resolve(lock, seq![d], mode).issues.len() == 0,
{
    lemma_composer_locks_both_sections(lock, i, d.name, v);
    let ds = seq![d];
    assert(ds[0] == d);
    assert(ds.drop_first() =~= Seq::<DependencyView>::empty());
    let lk = by_name(spec_packages(lock));
    assert(lk(d) == Some(v));
    let r1 = super::single_step(empty_resolution(), d, Some(v), "composer.lock"@, mode, true, true);
    assert(r1 == super::insert_v(empty_resolution(), d, v, super::ResolutionSource::Lockfile));
    assert(fold_single(r1, ds.drop_first(), lk, "composer.lock"@, mode, true, true) == r1);
    assert(spec_resolve(lock, ds, mode) == fold_single(r1, ds.drop_first(), lk, "composer.lock"@, mode, true, true));
}

} // verus!
