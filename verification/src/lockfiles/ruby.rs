//! Bundler's `Gemfile.lock`.
use vstd::prelude::*;
use crate::Dependency;
use crate::ecosystem::Ecosystem;
use crate::assoc::{StringTable, map_get};
use crate::text::{
    lines, trim, starts_with, split_once, trim_start_char, trim_end_char, chars_of, line_at,
    trim_range, range_eq, range_starts_with, find_char, trim_chars_range, string_of_range,
    lemma_index_of_bound,
};
use super::{
    ResolutionMode, ResolutionResult, ResolutionView, empty_resolution, fold_single, by_name,
    dep_views, resolve_all_single, deps_from_table, lists_table,
};

verus! {

/// Where the scan of a `Gemfile.lock` stands: inside a `specs:` section or
/// not, and the gem versions found so far.
pub struct GemState {
    pub in_specs: bool,
    pub versions: Map<Seq<char>, Seq<char>>,
}

/// One line of `Gemfile.lock`:
/// - `specs:` opens a specs section;
/// - inside one, a non-blank line not indented by four spaces closes it;
/// - inside one, a line indented by six or more spaces is a sub-dependency
///   and is skipped;
/// - inside one, `name (version)` records `version` for `name` (the last
///   record of a name wins); lines without a space, or with an empty name
///   or version, are skipped.
pub open spec fn gem_step(st: GemState, line: Seq<char>) -> GemState {
    let t = trim(line);
    if t == "specs:"@ {
        GemState { in_specs: true, ..st }
    } else if st.in_specs && !starts_with(line, "    "@) && t.len() > 0 {
        GemState { in_specs: false, ..st }
    } else if !st.in_specs {
        st
    } else if starts_with(line, "      "@) {
        st
    } else {
        match split_once(t, ' ') {
            Some((name, rest)) => {
                let version = trim_end_char(trim_start_char(rest, '('), ')');
                if name.len() > 0 && version.len() > 0 {
                    GemState { versions: st.versions.insert(name, version), ..st }
                } else {
                    st
                }
            },
            None => st,
        }
    }
}

pub open spec fn gem_fold(ls: Seq<Seq<char>>, st: GemState) -> GemState
    decreases ls.len(),
{
    if ls.len() == 0 {
        st
    } else {
        gem_fold(ls.drop_first(), gem_step(st, ls[0]))
    }
}

/// The gem versions that the `specs:` sections of `content` list.
pub open spec fn spec_gem_versions(content: Seq<char>) -> Map<Seq<char>, Seq<char>> {
    gem_fold(lines(content), GemState { in_specs: false, versions: Map::empty() }).versions
}

proof fn lemma_gem_fold_cons(l: Seq<char>, rest: Seq<Seq<char>>, st: GemState)
    ensures
        gem_fold(seq![l] + rest, st) == gem_fold(rest, gem_step(st, l)),
{
    assert((seq![l] + rest).drop_first() == rest);
}

/// Parses the top-level gem entries of the `specs:` sections of a
/// `Gemfile.lock`:
/// ```text
/// GEM
///   remote: https://rubygems.org/
///   specs:
///     rails (7.0.4)
///       actioncable (= 7.0.4)
///     actioncable (7.0.4)
/// ```
pub fn parse_gem_versions(content: &str) -> (t: StringTable)
    ensures
        t.wf(),
        t@ == spec_gem_versions(content@),
{
    let v = chars_of(content);
    let specs = chars_of("specs:");
    let four = chars_of("    ");
    let six = chars_of("      ");
    let mut table = StringTable::new();
    let mut in_specs = false;
    let mut pos: usize = 0;
    let ghost init = GemState { in_specs: false, versions: Map::empty() };
    assert(v@.subrange(0, v@.len() as int) == v@);
    while pos < v.len()
        invariant
            pos <= v@.len(),
            v@ == content@,
            specs@ == "specs:"@,
            four@ == "    "@,
            six@ == "      "@,
            table.wf(),
            gem_fold(
                lines(v@.subrange(pos as int, v@.len() as int)),
                GemState { in_specs, versions: table@ },
            ) == gem_fold(lines(content@), init),
        decreases v.len() - pos,
    {
        let (lo, hi, next) = line_at(&v, pos);
        let ghost line = v@.subrange(lo as int, hi as int);
        let ghost st = GemState { in_specs, versions: table@ };
        proof {
            lemma_gem_fold_cons(line, lines(v@.subrange(next as int, v@.len() as int)), st);
        }
        let (tlo, thi) = trim_range(&v, lo, hi);
        if range_eq(&v, tlo, thi, &specs) {
            in_specs = true;
        } else if in_specs && !range_starts_with(&v, lo, hi, &four) && tlo < thi {
            in_specs = false;
        } else if !in_specs {
        } else if range_starts_with(&v, lo, hi, &six) {
        } else {
            let sp = find_char(&v, tlo, thi, ' ');
            let ghost t = v@.subrange(tlo as int, thi as int);
            proof {
                lemma_index_of_bound(t, ' ');
            }
            if sp < thi {
                let (vlo, vhi) = trim_chars_range(&v, sp + 1, thi, '(', ')');
                proof {
                    assert(t.subrange(0, (sp - tlo) as int) == v@.subrange(tlo as int, sp as int));
                    assert(t.subrange(sp - tlo + 1, t.len() as int) == v@.subrange(
                        sp + 1,
                        thi as int,
                    ));
                }
                if sp > tlo && vlo < vhi {
                    let name = string_of_range(&v, tlo, sp);
                    let version = string_of_range(&v, vlo, vhi);
                    table.insert(name, version);
                }
            }
        }
        pos = next;
    }
    proof {
        assert(v@.subrange(pos as int, v@.len() as int) == Seq::<char>::empty());
        assert(lines(Seq::<char>::empty()) == Seq::<Seq<char>>::empty());
    }
    table
}

/// Resolution of `deps` against the gem versions of `content`.
pub open spec fn spec_resolve(content: Seq<char>, deps: Seq<crate::DependencyView>) -> ResolutionView {
    fold_single(
        empty_resolution(),
        deps,
        by_name(spec_gem_versions(content)),
        "Gemfile.lock"@,
        ResolutionMode::Transitive,
        false,
        false,
    )
}

/// Resolves versions from a pre-read `Gemfile.lock`: a gem listed there
/// resolves to its listed version unless the manifest pins a different
/// one; a gem missing there is reported and falls back to the manifest pin.
pub fn resolve_from_content(content: &str, deps: &[Dependency]) -> (r: ResolutionResult)
    ensures
        r.wf(),
        r@ == spec_resolve(content@, dep_views(deps@)),
{
    let versions = parse_gem_versions(content);
    resolve_all_single(deps, &versions, "Gemfile.lock", ResolutionMode::Transitive, false, false)
}

/// Every gem of a pre-read `Gemfile.lock`, with its version.
pub fn parse_all_from_content(content: &str) -> (r: Vec<Dependency>)
    ensures
        lists_table(dep_views(r@), spec_gem_versions(content@), Ecosystem::Ruby),
{
    let versions = parse_gem_versions(content);
    deps_from_table(&versions, Ecosystem::Ruby)
}

} // verus!
