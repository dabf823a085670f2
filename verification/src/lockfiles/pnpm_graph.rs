//! The packages an importer of `pnpm-lock.yaml` reaches: its dependencies,
//! theirs, and so on, each package and version taken once.
use vstd::prelude::*;
use vstd::set_lib::*;
use crate::{Dependency, DependencyView};
use crate::ecosystem::Ecosystem;
use crate::lockfiles::dep_views;
use crate::lockfiles::js_names::{
    name_version_split, pair_view, pnpm_key_base, pnpm_key_base_range, pnpm_package_key_parts,
    spec_pnpm_key_parts, split_npm_package_and_spec,
};
use crate::lockfiles::npm::first_match;
use crate::lockfiles::pnpm::{
    PnpmImporter, PnpmImporterEntry, PnpmLockfile, PnpmPackage, PnpmSection, importer_index, importers_view,
    is_local_reference,
};
use crate::npm_provenance::opt_str;
use crate::registry::{valid_package_name, validate_package_name};
use crate::text::{
    chars_of, range_starts_with, str_eq, string_of_range, string_of_str, strip_prefix, trim, trim_range,
};

verus! {

pub type NameVersion = (Seq<char>, Seq<char>);

/// The `(name, reference)` an entry declares: its `version`, else the entry
/// itself where it is a string; none for an entry without a string name or
/// reference.
pub open spec fn entry_ref(e: PnpmImporterEntry) -> Option<NameVersion> {
    match opt_str(e.name) {
        None => None,
        Some(n) => match opt_str(e.version) {
            Some(r) => Some((n, r)),
            None => match opt_str(e.inline_reference) {
                Some(r) => Some((n, r)),
                None => None,
            },
        },
    }
}

/// The references that entries declare, in order.
pub open spec fn entries_refs(es: Seq<PnpmImporterEntry>) -> Seq<NameVersion>
    decreases es.len(),
{
    if es.len() == 0 {
        Seq::empty()
    } else {
        match entry_ref(es[0]) {
            Some(p) => seq![p] + entries_refs(es.drop_first()),
            None => entries_refs(es.drop_first()),
        }
    }
}

pub open spec fn section_refs(s: PnpmSection) -> Seq<NameVersion> {
    match s {
        PnpmSection::Entries(es) => entries_refs(es@),
        PnpmSection::NotMapping => Seq::empty(),
    }
}

/// An importer's references, section after section.
pub open spec fn importer_refs(imp: PnpmImporter) -> Seq<NameVersion> {
    section_refs(imp.dependencies) + section_refs(imp.dev_dependencies) + section_refs(imp.optional_dependencies)
        + section_refs(imp.peer_dependencies)
}

/// A package's references: its `dependencies`, `optionalDependencies` and
/// `peerDependencies`.
pub open spec fn package_refs(p: PnpmPackage) -> Seq<NameVersion> {
    section_refs(p.dependencies) + section_refs(p.optional_dependencies) + section_refs(p.peer_dependencies)
}

/// The entry's key names that package and version.
pub open spec fn keyed(p: PnpmPackage, name: Seq<char>, version: Seq<char>) -> bool {
    match opt_str(p.key) {
        Some(k) => spec_pnpm_key_parts(k) == Some((name, version)),
        None => false,
    }
}

/// The references of the entries keyed by that package and version.
pub open spec fn matching_refs(ps: Seq<PnpmPackage>, name: Seq<char>, version: Seq<char>) -> Seq<NameVersion>
    decreases ps.len(),
{
    if ps.len() == 0 {
        Seq::empty()
    } else {
        (if keyed(ps[0], name, version) {
            package_refs(ps[0])
        } else {
            Seq::empty()
        }) + matching_refs(ps.drop_first(), name, version)
    }
}

/// The references of all entries.
pub open spec fn all_refs(ps: Seq<PnpmPackage>) -> Seq<NameVersion>
    decreases ps.len(),
{
    if ps.len() == 0 {
        Seq::empty()
    } else {
        package_refs(ps[0]) + all_refs(ps.drop_first())
    }
}

pub open spec fn opt_packages(o: Option<Vec<PnpmPackage>>) -> Seq<PnpmPackage> {
    match o {
        Some(v) => v@,
        None => Seq::empty(),
    }
}

/// The references of a package: those of its `snapshots` entries, then of
/// its `packages` entries.
pub open spec fn children_refs(lock: PnpmLockfile, name: Seq<char>, version: Seq<char>) -> Seq<NameVersion> {
    matching_refs(opt_packages(lock.snapshots), name, version) + matching_refs(
        opt_packages(lock.packages),
        name,
        version,
    )
}

/// The package and version a reference under `name` points at: none for
/// local references; for an `npm:<package>@<version>` alias, that package;
/// for a `<package>@<version>` reference, that package; else `name` at the
/// reference (without peer suffixes).
pub open spec fn spec_normalized_dependency(name: Seq<char>, reference: Seq<char>) -> Option<NameVersion> {
    let r = trim(reference);
    if is_local_reference(r) {
        None
    } else {
        let base = pnpm_key_base(r);
        match strip_prefix(base, "npm:"@) {
            Some(alias) if name_version_split(alias) is Some => name_version_split(alias),
            _ => match spec_pnpm_key_parts(base) {
                Some(p) => Some(p),
                None => Some((name, base)),
            },
        }
    }
}

/// What each reference points at, skipping local ones.
pub open spec fn normalize_all(refs: Seq<NameVersion>) -> Seq<NameVersion>
    decreases refs.len(),
{
    if refs.len() == 0 {
        Seq::empty()
    } else {
        match spec_normalized_dependency(refs[0].0, refs[0].1) {
            Some(p) => seq![p] + normalize_all(refs.drop_first()),
            None => normalize_all(refs.drop_first()),
        }
    }
}

/// Every package and version that any entry points at.
pub open spec fn universe(lock: PnpmLockfile) -> Set<NameVersion> {
    normalize_all(all_refs(opt_packages(lock.snapshots)) + all_refs(opt_packages(lock.packages))).to_set()
}

pub open spec fn dep_of(p: NameVersion) -> DependencyView {
    DependencyView { name: p.0, version: Some(p.1), ecosystem: Ecosystem::Npm, actual_name: None }
}

pub proof fn lemma_normalize_append(a: Seq<NameVersion>, b: Seq<NameVersion>)
    ensures
        normalize_all(a + b) == normalize_all(a) + normalize_all(b),
    decreases a.len(),
{
    if a.len() == 0 {
        assert(a + b == b);
    } else {
        assert((a + b).drop_first() == a.drop_first() + b);
        assert((a + b)[0] == a[0]);
        lemma_normalize_append(a.drop_first(), b);
        match spec_normalized_dependency(a[0].0, a[0].1) {
            Some(p) => {
                assert(seq![p] + (normalize_all(a.drop_first()) + normalize_all(b)) == (seq![p] + normalize_all(
                    a.drop_first(),
                )) + normalize_all(b));
            },
            None => {},
        }
    }
}

/// What the entries keyed by a package point at is among what all entries
/// point at.
pub proof fn lemma_matching_within(ps: Seq<PnpmPackage>, name: Seq<char>, version: Seq<char>, x: NameVersion)
    requires
        normalize_all(matching_refs(ps, name, version)).contains(x),
    ensures
        normalize_all(all_refs(ps)).contains(x),
    decreases ps.len(),
{
    if ps.len() > 0 {
        let head = if keyed(ps[0], name, version) {
            package_refs(ps[0])
        } else {
            Seq::<NameVersion>::empty()
        };
        let rest = ps.drop_first();
        lemma_normalize_append(head, matching_refs(rest, name, version));
        lemma_normalize_append(package_refs(ps[0]), all_refs(rest));
        let nh = normalize_all(head);
        let nm = normalize_all(matching_refs(rest, name, version));
        let k = choose|k: int| 0 <= k < (nh + nm).len() && (nh + nm)[k] == x;
        if k < nh.len() {
            assert(normalize_all(package_refs(ps[0])) == nh);
            assert((normalize_all(package_refs(ps[0])) + normalize_all(all_refs(rest)))[k] == x);
        } else {
            assert(nm[k - nh.len()] == x);
            lemma_matching_within(rest, name, version, x);
            let j = choose|j: int| 0 <= j < normalize_all(all_refs(rest)).len() && normalize_all(all_refs(rest))[j] == x;
            let np = normalize_all(package_refs(ps[0]));
            assert((np + normalize_all(all_refs(rest)))[np.len() + j] == x);
        }
    }
}

/// Everything a package's references point at is in the universe.
pub proof fn lemma_children_in_universe(lock: PnpmLockfile, p: NameVersion)
    ensures
        forall|x: NameVersion| #[trigger] normalize_all(children_refs(lock, p.0, p.1)).to_set().contains(x) ==> universe(
            lock,
        ).contains(x),
{
    let ss = opt_packages(lock.snapshots);
    let ps = opt_packages(lock.packages);
    lemma_normalize_append(matching_refs(ss, p.0, p.1), matching_refs(ps, p.0, p.1));
    lemma_normalize_append(all_refs(ss), all_refs(ps));
    assert forall|x: NameVersion| #[trigger] normalize_all(children_refs(lock, p.0, p.1)).to_set().contains(x) implies universe(
        lock,
    ).contains(x) by {
        let ms = normalize_all(matching_refs(ss, p.0, p.1));
        let mp = normalize_all(matching_refs(ps, p.0, p.1));
        let as_ = normalize_all(all_refs(ss));
        let ap = normalize_all(all_refs(ps));
        let k = choose|k: int| 0 <= k < (ms + mp).len() && (ms + mp)[k] == x;
        if k < ms.len() {
            assert(ms.contains(x));
            lemma_matching_within(ss, p.0, p.1, x);
            let j = choose|j: int| 0 <= j < as_.len() && as_[j] == x;
            assert((as_ + ap)[j] == x);
        } else {
            assert(mp[k - ms.len()] == x);
            assert(mp.contains(x));
            lemma_matching_within(ps, p.0, p.1, x);
            let j = choose|j: int| 0 <= j < ap.len() && ap[j] == x;
            assert((as_ + ap)[as_.len() + j] == x);
        }
    }
}

/// The measure the traversal decreases: the packages not yet taken among
/// those any entry points at and those waiting.
pub open spec fn pending_measure(lock: PnpmLockfile, queue: Seq<NameVersion>, seen: Set<NameVersion>) -> nat {
    universe(lock).union(queue.to_set()).difference(seen).len()
}

pub proof fn lemma_measure_skip(lock: PnpmLockfile, queue: Seq<NameVersion>, seen: Set<NameVersion>)
    requires
        queue.len() > 0,
    ensures
        pending_measure(lock, queue.drop_first(), seen) <= pending_measure(lock, queue, seen),
{
    broadcast use vstd::seq_lib::seq_to_set_is_finite;
    let a = universe(lock).union(queue.to_set()).difference(seen);
    let b = universe(lock).union(queue.drop_first().to_set()).difference(seen);
    assert forall|x: NameVersion| b.contains(x) implies a.contains(x) by {
        if queue.drop_first().to_set().contains(x) {
            let k = choose|k: int| 0 <= k < queue.drop_first().len() && queue.drop_first()[k] == x;
            assert(queue[k + 1] == x);
        }
    }
    lemma_len_subset(b, a);
}

pub proof fn lemma_measure_take(lock: PnpmLockfile, queue: Seq<NameVersion>, seen: Set<NameVersion>, kids: Seq<NameVersion>)
    requires
        queue.len() > 0,
        !seen.contains(queue[0]),
        forall|x: NameVersion| #[trigger] kids.to_set().contains(x) ==> universe(lock).contains(x),
    ensures
        pending_measure(lock, queue.drop_first() + kids, seen.insert(queue[0])) < pending_measure(lock, queue, seen),
{
    broadcast use vstd::seq_lib::seq_to_set_is_finite;
    let p = queue[0];
    let a = universe(lock).union(queue.to_set()).difference(seen);
    let next = queue.drop_first() + kids;
    let b = universe(lock).union(next.to_set()).difference(seen.insert(p));
    assert(queue.to_set().contains(p));
    assert(a.contains(p));
    assert forall|x: NameVersion| b.contains(x) implies a.remove(p).contains(x) by {
        if next.to_set().contains(x) {
            let k = choose|k: int| 0 <= k < next.len() && next[k] == x;
            if k < queue.drop_first().len() {
                assert(queue[k + 1] == x);
            } else {
                assert(kids[k - queue.drop_first().len()] == x);
                assert(kids.to_set().contains(x));
            }
        }
    }
    lemma_len_subset(b, a.remove(p));
}

/// The traversal: take the next waiting package; one taken before is
/// skipped; otherwise it is recorded (when its name is a safe package name)
/// and what its references point at waits after the rest.
pub open spec fn bfs(
    lock: PnpmLockfile,
    queue: Seq<NameVersion>,
    seen: Set<NameVersion>,
    out: Seq<DependencyView>,
) -> Seq<DependencyView>
    decreases pending_measure(lock, queue, seen), queue.len(),
{
    if queue.len() == 0 {
        out
    } else {
        let p = queue[0];
        if seen.contains(p) {
            proof {
                lemma_measure_skip(lock, queue, seen);
            }
            bfs(lock, queue.drop_first(), seen, out)
        } else {
            let kids = normalize_all(children_refs(lock, p.0, p.1));
            proof {
                lemma_children_in_universe(lock, p);
                lemma_measure_take(lock, queue, seen, kids);
            }
            bfs(
                lock,
                queue.drop_first() + kids,
                seen.insert(p),
                if valid_package_name(p.0) {
                    out.push(dep_of(p))
                } else {
                    out
                },
            )
        }
    }
}

/// The packages the importer `key` reaches, in the order the traversal
/// takes them from the importer's references (none without that importer).
pub open spec fn spec_reachable(lock: PnpmLockfile, key: Seq<char>) -> Seq<DependencyView> {
    match lock.importers {
        None => Seq::empty(),
        Some(is) => match first_match(importers_view(is@), key) {
            None => Seq::empty(),
            Some(imp) => bfs(lock, normalize_all(importer_refs(imp)), Set::empty(), Seq::empty()),
        },
    }
}

// ---- the traversal, executed ----
pub open spec fn pairs_view(v: Seq<(String, String)>) -> Seq<NameVersion> {
    v.map_values(|p: (String, String)| (p.0@, p.1@))
}

fn push_pair(out: &mut Vec<(String, String)>, a: &String, b: &String)
    ensures
        pairs_view(final(out)@) == pairs_view(old(out)@).push((a@, b@)),
{
    let ghost before = pairs_view(out@);
    out.push((a.clone(), b.clone()));
    assert(pairs_view(out@) =~= before.push((a@, b@)));
}

fn append_entry_refs(es: &Vec<PnpmImporterEntry>, out: &mut Vec<(String, String)>)
    ensures
        pairs_view(final(out)@) == pairs_view(old(out)@) + entries_refs(es@),
{
    let ghost start = pairs_view(out@);
    let mut i: usize = 0;
    assert(es@.subrange(0, es@.len() as int) == es@);
    while i < es.len()
        invariant
            i <= es@.len(),
            pairs_view(out@) + entries_refs(es@.subrange(i as int, es@.len() as int)) == start + entries_refs(es@),
        decreases es.len() - i,
    {
        let ghost rest = es@.subrange(i as int, es@.len() as int);
        let ghost before = pairs_view(out@);
        assert(rest[0] == es@[i as int]);
        assert(rest.drop_first() == es@.subrange(i + 1, es@.len() as int));
        let e = &es[i];
        if let Some(n) = &e.name {
            if let Some(v) = &e.version {
                push_pair(out, n, v);
                assert(before.push((n@, v@)) + entries_refs(rest.drop_first()) =~= before + (seq![(n@, v@)]
                    + entries_refs(rest.drop_first())));
            } else if let Some(v) = &e.inline_reference {
                push_pair(out, n, v);
                assert(before.push((n@, v@)) + entries_refs(rest.drop_first()) =~= before + (seq![(n@, v@)]
                    + entries_refs(rest.drop_first())));
            }
        }
        i = i + 1;
    }
    assert(es@.subrange(i as int, es@.len() as int) =~= Seq::<PnpmImporterEntry>::empty());
    assert(pairs_view(out@) + Seq::<NameVersion>::empty() =~= pairs_view(out@));
}

fn append_section_refs(s: &PnpmSection, out: &mut Vec<(String, String)>)
    ensures
        pairs_view(final(out)@) == pairs_view(old(out)@) + section_refs(*s),
{
    match s {
        PnpmSection::Entries(es) => append_entry_refs(es, out),
        PnpmSection::NotMapping => {
            assert(pairs_view(out@) + Seq::<NameVersion>::empty() =~= pairs_view(out@));
        },
    }
}

fn importer_references(imp: &PnpmImporter) -> (r: Vec<(String, String)>)
    ensures
        pairs_view(r@) == importer_refs(*imp),
{
    let mut out: Vec<(String, String)> = Vec::new();
    assert(pairs_view(out@) =~= Seq::<NameVersion>::empty());
    append_section_refs(&imp.dependencies, &mut out);
    append_section_refs(&imp.dev_dependencies, &mut out);
    append_section_refs(&imp.optional_dependencies, &mut out);
    append_section_refs(&imp.peer_dependencies, &mut out);
    assert(pairs_view(out@) =~= importer_refs(*imp));
    out
}

fn append_package_refs(p: &PnpmPackage, out: &mut Vec<(String, String)>)
    ensures
        pairs_view(final(out)@) == pairs_view(old(out)@) + package_refs(*p),
{
    let ghost start = pairs_view(out@);
    append_section_refs(&p.dependencies, out);
    append_section_refs(&p.optional_dependencies, out);
    append_section_refs(&p.peer_dependencies, out);
    assert(pairs_view(out@) =~= start + package_refs(*p));
}

fn is_keyed(p: &PnpmPackage, name: &str, version: &str) -> (b: bool)
    ensures
        b == keyed(*p, name@, version@),
{
    match &p.key {
        None => false,
        Some(k) => match crate::lockfiles::js_names::pnpm_package_key_parts(k.as_str()) {
            Some((n, v)) => crate::text::str_eq(n.as_str(), name) && crate::text::str_eq(v.as_str(), version),
            None => false,
        },
    }
}

fn append_matching_refs(ps: &Vec<PnpmPackage>, name: &str, version: &str, out: &mut Vec<(String, String)>)
    ensures
        pairs_view(final(out)@) == pairs_view(old(out)@) + matching_refs(ps@, name@, version@),
{
    let ghost start = pairs_view(out@);
    let mut i: usize = 0;
    assert(ps@.subrange(0, ps@.len() as int) == ps@);
    while i < ps.len()
        invariant
            i <= ps@.len(),
            pairs_view(out@) + matching_refs(ps@.subrange(i as int, ps@.len() as int), name@, version@) == start
                + matching_refs(ps@, name@, version@),
        decreases ps.len() - i,
    {
        let ghost rest = ps@.subrange(i as int, ps@.len() as int);
        let ghost before = pairs_view(out@);
        assert(rest[0] == ps@[i as int]);
        assert(rest.drop_first() == ps@.subrange(i + 1, ps@.len() as int));
        if is_keyed(&ps[i], name, version) {
            append_package_refs(&ps[i], out);
            assert(pairs_view(out@) + matching_refs(rest.drop_first(), name@, version@) =~= before + (package_refs(
                ps@[i as int],
            ) + matching_refs(rest.drop_first(), name@, version@)));
        } else {
            assert(Seq::<NameVersion>::empty() + matching_refs(rest.drop_first(), name@, version@) =~= matching_refs(
                rest.drop_first(),
                name@,
                version@,
            ));
        }
        i = i + 1;
    }
    assert(ps@.subrange(i as int, ps@.len() as int) =~= Seq::<PnpmPackage>::empty());
    assert(pairs_view(out@) + Seq::<NameVersion>::empty() =~= pairs_view(out@));
}

fn children_references(lock: &PnpmLockfile, name: &str, version: &str) -> (r: Vec<(String, String)>)
    ensures
        pairs_view(r@) == children_refs(*lock, name@, version@),
{
    let mut out: Vec<(String, String)> = Vec::new();
    assert(pairs_view(out@) =~= Seq::<NameVersion>::empty());
    let empty: Vec<PnpmPackage> = Vec::new();
    let snapshots = match &lock.snapshots {
        Some(v) => v,
        None => &empty,
    };
    let packages = match &lock.packages {
        Some(v) => v,
        None => &empty,
    };
    append_matching_refs(snapshots, name, version, &mut out);
    append_matching_refs(packages, name, version, &mut out);
    assert(pairs_view(out@) =~= children_refs(*lock, name@, version@));
    out
}

/// What a reference under `name` points at (see
/// `spec_normalized_dependency`).
pub fn normalized_pnpm_dependency(name: &str, reference: &str) -> (r: Option<(String, String)>)
    ensures
        pair_view(r) == spec_normalized_dependency(name@, reference@),
{
    proof {
        reveal_strlit("link:");
        reveal_strlit("file:");
        reveal_strlit("workspace:");
        reveal_strlit("npm:");
    }
    let v = chars_of(reference);
    assert(v@.subrange(0, v@.len() as int) == v@);
    let (a, b) = trim_range(&v, 0, v.len());
    let link = chars_of("link:");
    let file = chars_of("file:");
    let workspace = chars_of("workspace:");
    if a == b || range_starts_with(&v, a, b, &link) || range_starts_with(&v, a, b, &file)
        || range_starts_with(&v, a, b, &workspace) {
        return None;
    }
    let (c, d) = pnpm_key_base_range(&v, a, b);
    let base = string_of_range(&v, c, d);
    let npm = chars_of("npm:");
    if range_starts_with(&v, c, d, &npm) {
        proof {
            assert(base@.subrange(4, base@.len() as int) == v@.subrange(c + 4, d as int));
        }
        let alias = string_of_range(&v, c + 4, d);
        if let Some(p) = split_npm_package_and_spec(alias.as_str()) {
            return Some(p);
        }
    }
    match pnpm_package_key_parts(base.as_str()) {
        Some(p) => Some(p),
        None => Some((string_of_str(name), base)),
    }
}

fn normalize_references(refs: &Vec<(String, String)>) -> (r: Vec<(String, String)>)
    ensures
        pairs_view(r@) == normalize_all(pairs_view(refs@)),
{
    let ghost all = pairs_view(refs@);
    let mut out: Vec<(String, String)> = Vec::new();
    let mut i: usize = 0;
    assert(all.subrange(0, all.len() as int) == all);
    assert(pairs_view(out@) =~= Seq::<NameVersion>::empty());
    while i < refs.len()
        invariant
            i <= refs@.len(),
            all == pairs_view(refs@),
            pairs_view(out@) + normalize_all(all.subrange(i as int, all.len() as int)) == normalize_all(all),
        decreases refs.len() - i,
    {
        let ghost rest = all.subrange(i as int, all.len() as int);
        let ghost before = pairs_view(out@);
        assert(rest[0] == (refs@[i as int].0@, refs@[i as int].1@));
        assert(rest.drop_first() == all.subrange(i + 1, all.len() as int));
        match normalized_pnpm_dependency(refs[i].0.as_str(), refs[i].1.as_str()) {
            Some(p) => {
                let ghost pv = (p.0@, p.1@);
                out.push(p);
                assert(pairs_view(out@) =~= before.push(pv));
                assert(before.push(pv) + normalize_all(rest.drop_first()) =~= before + (seq![pv] + normalize_all(
                    rest.drop_first(),
                )));
            },
            None => {},
        }
        i = i + 1;
    }
    assert(all.subrange(i as int, all.len() as int) =~= Seq::<NameVersion>::empty());
    assert(pairs_view(out@) + Seq::<NameVersion>::empty() =~= pairs_view(out@));
    out
}

pub proof fn lemma_to_set_push(s: Seq<NameVersion>, a: NameVersion)
    ensures
        s.push(a).to_set() == s.to_set().insert(a),
{
    assert forall|x: NameVersion| s.push(a).to_set().contains(x) == s.to_set().insert(a).contains(x) by {
        if s.push(a).to_set().contains(x) {
            let k = choose|k: int| 0 <= k < s.push(a).len() && s.push(a)[k] == x;
            if k < s.len() {
                assert(s[k] == x);
            }
        }
        if s.to_set().contains(x) {
            let k = choose|k: int| 0 <= k < s.len() && s[k] == x;
            assert(s.push(a)[k] == x);
        }
        if x == a {
            assert(s.push(a)[s.len() as int] == x);
        }
    }
    assert(s.push(a).to_set() =~= s.to_set().insert(a));
}

/// The pairs in `v`.
pub open spec fn pair_set(v: Seq<(String, String)>) -> Set<NameVersion> {
    pairs_view(v).to_set()
}

fn contains_pair(v: &Vec<(String, String)>, a: &str, b: &str) -> (r: bool)
    ensures
        r == pair_set(v@).contains((a@, b@)),
{
    let ghost pv = pairs_view(v@);
    let mut i: usize = 0;
    while i < v.len()
        invariant
            i <= v@.len(),
            pv == pairs_view(v@),
            forall|j: int| 0 <= j < i ==> #[trigger] pv[j] != (a@, b@),
        decreases v.len() - i,
    {
        if str_eq(v[i].0.as_str(), a) && str_eq(v[i].1.as_str(), b) {
            assert(pv[i as int] == (a@, b@));
            return true;
        }
        i = i + 1;
    }
    false
}

/// The packages the importer `importer_key` reaches (see
/// `spec_reachable`).
pub fn parse_all_from_value_for_importer(parsed: &PnpmLockfile, importer_key: &str) -> (r: Vec<Dependency>)
    ensures
        dep_views(r@) == spec_reachable(*parsed, importer_key@),
{
    let mut out: Vec<Dependency> = Vec::new();
    assert(dep_views(out@) =~= Seq::<DependencyView>::empty());
    let Some(importers) = &parsed.importers else {
        return out;
    };
    let Some(ii) = importer_index(importers, importer_key) else {
        return out;
    };
    let refs = importer_references(&importers[ii].1);
    let mut queue = normalize_references(&refs);
    let mut seen: Vec<(String, String)> = Vec::new();
    assert(pair_set(seen@) =~= Set::<NameVersion>::empty());
    let ghost target = spec_reachable(*parsed, importer_key@);
    let mut head: usize = 0;
    assert(pairs_view(queue@).subrange(0, pairs_view(queue@).len() as int) == pairs_view(queue@));
    while head < queue.len()
        invariant
            head <= queue@.len(),
            target == bfs(
                *parsed,
                pairs_view(queue@).subrange(head as int, queue@.len() as int),
                pair_set(seen@),
                dep_views(out@),
            ),
        decreases pending_measure(
            *parsed,
            pairs_view(queue@).subrange(head as int, queue@.len() as int),
            pair_set(seen@),
        ),
            queue@.len() - head,
    {
        let ghost q = pairs_view(queue@).subrange(head as int, queue@.len() as int);
        let ghost seen_before = pair_set(seen@);
        let ghost out_before = dep_views(out@);
        let name = queue[head].0.clone();
        let version = queue[head].1.clone();
        assert(q[0] == (name@, version@));
        assert(q.drop_first() == pairs_view(queue@).subrange(head + 1, queue@.len() as int));
        head = head + 1;
        if contains_pair(&seen, name.as_str(), version.as_str()) {
            proof {
                lemma_measure_skip(*parsed, q, seen_before);
                assert(bfs(*parsed, q, seen_before, out_before) == bfs(*parsed, q.drop_first(), seen_before, out_before));
            }
        } else {
            let ghost kids_v = normalize_all(children_refs(*parsed, name@, version@));
            let ghost old_pv = pairs_view(seen@);
            seen.push((name.clone(), version.clone()));
            proof {
                assert(pairs_view(seen@) =~= old_pv.push((name@, version@)));
                lemma_to_set_push(old_pv, (name@, version@));
                assert(pair_set(seen@) == seen_before.insert((name@, version@)));
            }
            if validate_package_name(name.as_str()) {
                let dep = Dependency {
                    name: name.clone(),
                    version: Some(version.clone()),
                    ecosystem: Ecosystem::Npm,
                    actual_name: None,
                };
                assert(dep@ == dep_of((name@, version@)));
                out.push(dep);
                assert(dep_views(out@) =~= out_before.push(dep_of((name@, version@))));
            }
            let children = children_references(parsed, name.as_str(), version.as_str());
            let kids = normalize_references(&children);
            let ghost qbefore = pairs_view(queue@);
            let mut k: usize = 0;
            assert(qbefore + pairs_view(kids@).subrange(0, 0) =~= qbefore);
            while k < kids.len()
                invariant
                    k <= kids@.len(),
                    pairs_view(queue@) == qbefore + pairs_view(kids@).subrange(0, k as int),
                decreases kids.len() - k,
            {
                let ghost before = pairs_view(queue@);
                queue.push((kids[k].0.clone(), kids[k].1.clone()));
                assert(pairs_view(queue@) =~= before.push(pairs_view(kids@)[k as int]));
                assert(pairs_view(kids@).subrange(0, k + 1) =~= pairs_view(kids@).subrange(0, k as int).push(
                    pairs_view(kids@)[k as int],
                ));
                assert(qbefore + pairs_view(kids@).subrange(0, k + 1) =~= (qbefore + pairs_view(kids@).subrange(
                    0,
                    k as int,
                )).push(pairs_view(kids@)[k as int]));
                k = k + 1;
            }
            proof {
                assert(pairs_view(kids@).subrange(0, kids@.len() as int) == kids_v);
                assert(pairs_view(queue@).subrange(head as int, queue@.len() as int) =~= q.drop_first() + kids_v);
                lemma_children_in_universe(*parsed, (name@, version@));
                lemma_measure_take(*parsed, q, seen_before, kids_v);
                assert(dep_views(out@) == if valid_package_name(name@) {
                    out_before.push(dep_of((name@, version@)))
                } else {
                    out_before
                });
                assert(bfs(*parsed, q, seen_before, out_before) == bfs(
                    *parsed,
                    q.drop_first() + kids_v,
                    seen_before.insert((name@, version@)),
                    dep_views(out@),
                ));
            }
        }
    }
    assert(pairs_view(queue@).subrange(head as int, queue@.len() as int) =~= Seq::<NameVersion>::empty());
    out
}

// ---- laws ----
/// Recorded package `i` is `dep_of` some taken pair with a safe name.
pub open spec fn recorded_at(out: Seq<DependencyView>, seen: Set<NameVersion>, i: int) -> bool {
    exists|p: NameVersion| #[trigger] seen.contains(p) && out[i] == dep_of(p) && valid_package_name(p.0)
}

pub open spec fn recorded_from(out: Seq<DependencyView>, seen: Set<NameVersion>) -> bool {
    forall|i: int| 0 <= i < out.len() ==> #[trigger] recorded_at(out, seen, i)
}

/// An npm package with a safe name and a version.
pub open spec fn safe_dep(d: DependencyView) -> bool {
    valid_package_name(d.name) && d.ecosystem == Ecosystem::Npm && d.version is Some
}

pub open spec fn all_safe(s: Seq<DependencyView>) -> bool {
    forall|i: int| 0 <= i < s.len() ==> #[trigger] safe_dep(s[i])
}

proof fn lemma_bfs_distinct(lock: PnpmLockfile, q: Seq<NameVersion>, seen: Set<NameVersion>, out: Seq<DependencyView>)
    requires
        out.no_duplicates(),
        recorded_from(out, seen),
    ensures
        bfs(lock, q, seen, out).no_duplicates(),
        all_safe(bfs(lock, q, seen, out)),
    decreases pending_measure(lock, q, seen), q.len(),
{
    if q.len() == 0 {
        assert(bfs(lock, q, seen, out) == out);
        assert forall|i: int| 0 <= i < out.len() implies #[trigger] safe_dep(out[i]) by {
            assert(recorded_at(out, seen, i));
            let p = choose|p: NameVersion| #[trigger] seen.contains(p) && out[i] == dep_of(p) && valid_package_name(p.0);
        }
    } else {
        let p = q[0];
        if seen.contains(p) {
            lemma_measure_skip(lock, q, seen);
            lemma_bfs_distinct(lock, q.drop_first(), seen, out);
            assert(bfs(lock, q, seen, out) == bfs(lock, q.drop_first(), seen, out));
        } else {
            let kids = normalize_all(children_refs(lock, p.0, p.1));
            lemma_children_in_universe(lock, p);
            lemma_measure_take(lock, q, seen, kids);
            let seen2 = seen.insert(p);
            let out2 = if valid_package_name(p.0) {
                out.push(dep_of(p))
            } else {
                out
            };
            assert forall|i: int| 0 <= i < out.len() implies #[trigger] recorded_at(out, seen2, i) by {
                assert(recorded_at(out, seen, i));
                let x = choose|x: NameVersion| #[trigger] seen.contains(x) && out[i] == dep_of(x) && valid_package_name(x.0);
                assert(seen2.contains(x));
            }
            if valid_package_name(p.0) {
                assert forall|i: int| 0 <= i < out.len() implies out[i] != dep_of(p) by {
                    assert(recorded_at(out, seen, i));
                    let x = choose|x: NameVersion| #[trigger] seen.contains(x) && out[i] == dep_of(x) && valid_package_name(x.0);
                    if out[i] == dep_of(p) {
                        assert(x.0 == p.0 && x.1 == p.1);
                        assert(x == p);
                    }
                }
                assert(out2.no_duplicates()) by {
                    assert forall|i: int, j: int| 0 <= i < out2.len() && 0 <= j < out2.len() && i != j implies out2[i]
                        != out2[j] by {
                        if i < out.len() && j < out.len() {
                            assert(out2[i] == out[i] && out2[j] == out[j]);
                        }
                    }
                }
                assert forall|i: int| 0 <= i < out2.len() implies #[trigger] recorded_at(out2, seen2, i) by {
                    if i < out.len() {
                        assert(out2[i] == out[i]);
                        assert(recorded_at(out, seen2, i));
                    } else {
                        assert(out2[i] == dep_of(p));
                        assert(seen2.contains(p));
                    }
                }
            }
            lemma_bfs_distinct(lock, q.drop_first() + kids, seen2, out2);
            assert(bfs(lock, q, seen, out) == bfs(lock, q.drop_first() + kids, seen2, out2));
        }
    }
}

/// The packages an importer reaches are each recorded once (per name and
/// version), each with a safe package name and its version, as npm
/// packages.
pub proof fn lemma_reachable_packages_distinct(lock: PnpmLockfile, key: Seq<char>)
    ensures
        spec_reachable(lock, key).no_duplicates(),
        all_safe(spec_reachable(lock, key)),
{
    match lock.importers {
        None => {},
        Some(is) => match first_match(importers_view(is@), key) {
            None => {},
            Some(imp) => {
                lemma_bfs_distinct(lock, normalize_all(importer_refs(imp)), Set::empty(), Seq::empty());
            },
        },
    }
}

} // verus!
