//! Which package indexes a `poetry.lock` may resolve packages from.
use vstd::prelude::*;
use crate::assoc::{amap, akeys_unique, lemma_amap_dom, lemma_amap_index, lemma_amap_absent, lemma_amap_update, lemma_amap_push_new};
use crate::config::{
    SloppyJoeConfig, default_pypi_index, normalize_python_index_url, normalized_default_pypi_index,
    patterns_view, spec_normalize_index_url, trusted_index,
};
use crate::report::{sanitized, sanitize_for_terminal};
use crate::text::{str_eq, string_of_str, push_str};
use super::python::{
    PoetryLock, PoetryPackage, PoetrySource, normalize_name, spec_normalize, str_lowercase, to_lowercase,
};

verus! {

/// A source that `pyproject.toml` declares: its name and normalized URL.
#[derive(Debug)]
pub struct PythonSourceDecl {
    pub name: String,
    pub normalized_url: String,
}

/// A dependency that `pyproject.toml` pins to a declared source.
#[derive(Debug)]
pub struct PythonDependencySourceIntent {
    pub package: String,
    pub source_name: String,
    pub normalized_url: String,
}

/// A locked package: its PEP 503 name and its version.
#[derive(Debug)]
pub struct PythonPackageIdentity {
    pub normalized_name: String,
    pub version: String,
}

pub open spec fn opt_s(o: Option<String>) -> Option<Seq<char>> {
    match o {
        Some(s) => Some(s@),
        None => None,
    }
}

// ---- one package's source ----
pub type SourceView = Option<Option<(Option<Seq<char>>, Option<Seq<char>>, Option<Seq<char>>)>>;

pub open spec fn source_view(s: Option<Option<PoetrySource>>) -> SourceView {
    match s {
        None => None,
        Some(None) => Some(None),
        Some(Some(t)) => Some(Some((opt_s(t.source_type), opt_s(t.url), opt_s(t.reference)))),
    }
}

pub open spec fn broken(path: Seq<char>) -> Seq<char> {
    "Broken lockfile '"@ + path + "': "@
}

pub open spec fn package_prefix(path: Seq<char>, name: Seq<char>) -> Seq<char> {
    broken(path) + "package '"@ + sanitized(name) + "'"@
}

pub open spec fn is_poetry_source_type(t: Seq<char>) -> bool {
    t == "legacy"@ || t == "explicit"@ || t == "supplemental"@ || t == "primary"@
}

/// The index a package resolves from and the name of its source: the
/// default PyPI index without a `source` table; else the table's normalized
/// `url` and its `reference`, for the source types Poetry uses for indexes.
pub open spec fn spec_package_source(src: SourceView, path: Seq<char>, name: Seq<char>) -> Result<
    (Seq<char>, Option<Seq<char>>),
    Seq<char>,
> {
    match src {
        None => Ok((default_pypi_index(), None)),
        Some(None) => Err(package_prefix(path, name) + " has malformed source metadata"@),
        Some(Some((source_type, url, reference))) => match source_type {
            None => Err(package_prefix(path, name) + " source metadata is missing type"@),
            Some(t) => match url {
                None => Err(package_prefix(path, name) + " source metadata is missing URL"@),
                Some(u) => if is_poetry_source_type(t) {
                    Ok((spec_normalize_index_url(u), reference))
                } else {
                    Err(
                        package_prefix(path, name) + " uses unsupported Poetry source provenance '"@
                            + sanitized(t) + "'"@,
                    )
                },
            },
        },
    }
}

fn package_prefix_text(path: &str, name: &str) -> (r: String)
    ensures
        r@ == package_prefix(path@, name@),
{
    let mut m = string_of_str("Broken lockfile '");
    push_str(&mut m, path);
    push_str(&mut m, "': ");
    push_str(&mut m, "package '");
    let s = sanitize_for_terminal(name);
    push_str(&mut m, s.as_str());
    push_str(&mut m, "'");
    m
}

/// The index a package resolves from and the name of its source (see
/// `spec_package_source`).
pub fn poetry_package_source(
    source: &Option<Option<PoetrySource>>,
    source_path: &str,
    package_name: &str,
) -> (r: Result<(String, Option<String>), String>)
    ensures
        match (r, spec_package_source(source_view(*source), source_path@, package_name@)) {
            (Ok((u, n)), Ok((su, sn))) => u@ == su && opt_s(n) == sn,
            (Err(e), Err(m)) => e@ == m,
            _ => false,
        },
{
    proof {
        reveal_strlit("legacy");
        reveal_strlit("explicit");
        reveal_strlit("supplemental");
        reveal_strlit("primary");
    }
    let table = match source {
        None => {
            return Ok((string_of_str(normalized_default_pypi_index()), None));
        },
        Some(None) => {
            let mut m = package_prefix_text(source_path, package_name);
            push_str(&mut m, " has malformed source metadata");
            return Err(m);
        },
        Some(Some(t)) => t,
    };
    let Some(source_type) = &table.source_type else {
        let mut m = package_prefix_text(source_path, package_name);
        push_str(&mut m, " source metadata is missing type");
        return Err(m);
    };
    let Some(url) = &table.url else {
        let mut m = package_prefix_text(source_path, package_name);
        push_str(&mut m, " source metadata is missing URL");
        return Err(m);
    };
    let t = source_type.as_str();
    if str_eq(t, "legacy") || str_eq(t, "explicit") || str_eq(t, "supplemental") || str_eq(t, "primary") {
        let reference = match &table.reference {
            Some(r) => Some(r.clone()),
            None => None,
        };
        Ok((normalize_python_index_url(url.as_str()), reference))
    } else {
        let mut m = package_prefix_text(source_path, package_name);
        push_str(&mut m, " uses unsupported Poetry source provenance '");
        let s = sanitize_for_terminal(t);
        push_str(&mut m, s.as_str());
        push_str(&mut m, "'");
        Err(m)
    }
}

// ---- the rules over the whole lockfile ----
/// `s` with `x` added at its end unless it is already there.
pub open spec fn seq_add(s: Seq<Seq<char>>, x: Seq<char>) -> Seq<Seq<char>> {
    if s.contains(x) {
        s
    } else {
        s.push(x)
    }
}

/// What the rules have gathered so far: the source URLs and (lowercased)
/// source names used, each once in first-use order; per package name the
/// URLs it resolves from; and per package identity its URL.
pub struct SourceState {
    pub urls: Seq<Seq<char>>,
    pub names: Seq<Seq<char>>,
    pub by_name: Map<Seq<char>, Seq<Seq<char>>>,
    pub by_identity: Map<(Seq<char>, Seq<char>), Seq<char>>,
}

/// What the rules compare the lockfile with.
pub struct SourceContext {
    /// Declared sources: lowercased name and normalized URL.
    pub declared: Seq<(Seq<char>, Seq<char>)>,
    pub trusted: Seq<(Seq<char>, Seq<Seq<char>>)>,
    pub path: Seq<char>,
    pub pyproject: Seq<char>,
    pub reachable: Option<Seq<(Seq<char>, Seq<char>)>>,
    pub authorized: Option<Seq<((Seq<char>, Seq<char>), Seq<Seq<char>>)>>,
}

/// The URL of the last declared source with this lowercased name.
pub open spec fn declared_url(declared: Seq<(Seq<char>, Seq<char>)>, name: Seq<char>) -> Option<Seq<char>>
    decreases declared.len(),
{
    if declared.len() == 0 {
        None
    } else if declared.last().0 == name {
        Some(declared.last().1)
    } else {
        declared_url(declared.drop_last(), name)
    }
}

pub open spec fn declares_url(declared: Seq<(Seq<char>, Seq<char>)>, url: Seq<char>) -> bool {
    exists|i: int| 0 <= i < declared.len() && #[trigger] declared[i].1 == url
}

/// The URLs authorized for an identity: those of the first entry for it.
pub open spec fn authorized_for(
    a: Seq<((Seq<char>, Seq<char>), Seq<Seq<char>>)>,
    id: (Seq<char>, Seq<char>),
) -> Option<Seq<Seq<char>>>
    decreases a.len(),
{
    if a.len() == 0 {
        None
    } else if a[0].0 == id {
        Some(a[0].1)
    } else {
        authorized_for(a.drop_first(), id)
    }
}

/// The checks on a package's source, once it is known to resolve from `url`
/// (named `source_name`): one URL per identity; a trusted index; a source
/// other than PyPI declared in `pyproject.toml` under that name and URL (or,
/// without a name, by URL); and, when given, authorized for the identity.
pub open spec fn source_error(
    st: SourceState,
    ctx: SourceContext,
    name: Seq<char>,
    version: Seq<char>,
    id: (Seq<char>, Seq<char>),
    url: Seq<char>,
    source_name: Option<Seq<char>>,
) -> Option<Seq<char>> {
    let p = package_prefix(ctx.path, name);
    let declared = match source_name {
        Some(sn) => declared_url(ctx.declared, str_lowercase(sn)),
        None => None,
    };
    if st.by_identity.dom().contains(id) && st.by_identity[id] != url {
        Some(p + " version '"@ + version + "' resolves from multiple sources and cannot be trusted exactly"@)
    } else if !trusted_index(ctx.trusted, "pypi"@, url) {
        Some(p + " resolves from untrusted Python index '"@ + url + "'"@)
    } else if url != default_pypi_index() && source_name is Some && declared is None {
        Some(
            p + " resolves from source '"@ + sanitized(source_name->0) + "' that is not declared in '"@
                + ctx.pyproject + "'"@,
        )
    } else if url != default_pypi_index() && source_name is Some && declared != Some(url) {
        Some(
            p + " resolves from source '"@ + sanitized(source_name->0) + "' ("@ + url
                + ") but pyproject.toml declares that source as "@ + declared->0,
        )
    } else if url != default_pypi_index() && source_name is None && !declares_url(ctx.declared, url) {
        Some(
            p + " resolves from non-PyPI source '"@ + url + "' that is not declared in '"@
                + ctx.pyproject + "'"@,
        )
    } else if ctx.authorized is Some && !(authorized_for(ctx.authorized->0, id) matches Some(us)
        && us.contains(url)) {
        Some(
            p + " resolves from source '"@ + url
                + "' but that source is not authorized by the in-scope root dependency graph"@,
        )
    } else {
        None
    }
}

pub open spec fn record_source(
    st: SourceState,
    id: (Seq<char>, Seq<char>),
    url: Seq<char>,
    source_name: Option<Seq<char>>,
) -> SourceState {
    SourceState {
        urls: seq_add(st.urls, url),
        names: match source_name {
            Some(sn) => seq_add(st.names, str_lowercase(sn)),
            None => st.names,
        },
        by_name: st.by_name.insert(
            id.0,
            seq_add(
                if st.by_name.dom().contains(id.0) {
                    st.by_name[id.0]
                } else {
                    Seq::empty()
                },
                url,
            ),
        ),
        by_identity: st.by_identity.insert(id, url),
    }
}

pub type PackageView = Option<(Option<Seq<char>>, Option<Seq<char>>, SourceView)>;

pub open spec fn package_view(p: Option<PoetryPackage>) -> PackageView {
    match p {
        Some(t) => Some((opt_s(t.name), opt_s(t.version), source_view(t.source))),
        None => None,
    }
}

/// One `[[package]]` entry: it must be a table with a name and a version;
/// when `reachable` is given, entries outside it are skipped; its source
/// must pass `source_error`, and is then recorded.
pub open spec fn package_step(st: SourceState, ctx: SourceContext, pkg: PackageView) -> Result<SourceState, Seq<char>> {
    match pkg {
        None => Err(broken(ctx.path) + "package entry must be a table"@),
        Some((name, version, src)) => match name {
            None => Err(broken(ctx.path) + "package entry missing name"@),
            Some(n) => match version {
                None => Err(package_prefix(ctx.path, n) + " entry missing version"@),
                Some(v) => {
                    let id = (spec_normalize(n), v);
                    if ctx.reachable matches Some(r) && !r.contains(id) {
                        Ok(st)
                    } else {
                        match spec_package_source(src, ctx.path, n) {
                            Err(e) => Err(e),
                            Ok((url, source_name)) => match source_error(st, ctx, n, v, id, url, source_name) {
                                Some(e) => Err(e),
                                None => Ok(record_source(st, id, url, source_name)),
                            },
                        }
                    }
                },
            },
        },
    }
}

pub open spec fn package_fold(st: SourceState, ctx: SourceContext, ps: Seq<PackageView>) -> Result<SourceState, Seq<char>>
    decreases ps.len(),
{
    if ps.len() == 0 {
        Ok(st)
    } else {
        match package_step(st, ctx, ps[0]) {
            Err(e) => Err(e),
            Ok(next) => package_fold(next, ctx, ps.drop_first()),
        }
    }
}

pub type IntentView = (Seq<char>, Seq<char>, Seq<char>);

/// One source intent: its package must resolve from exactly one URL, the
/// declared one; the source's lowercased name is then recorded as used.
pub open spec fn intent_step(st: SourceState, ctx: SourceContext, intent: IntentView) -> Result<SourceState, Seq<char>> {
    let (package, source_name, url) = intent;
    if !st.by_name.dom().contains(package) {
        Err(
            broken(ctx.path) + "dependency '"@ + sanitized(package)
                + "' is missing a resolved package entry for declared source '"@ + sanitized(source_name)
                + "'"@,
        )
    } else if st.by_name[package].len() != 1 {
        Err(
            broken(ctx.path) + "dependency '"@ + sanitized(package)
                + "' resolves from multiple sources and cannot be trusted exactly"@,
        )
    } else if st.by_name[package][0] != url {
        Err(
            broken(ctx.path) + "dependency '"@ + sanitized(package) + "' declares source '"@ + sanitized(
                source_name,
            ) + "' ("@ + url + ") but poetry.lock resolves it from "@ + st.by_name[package][0],
        )
    } else {
        Ok(SourceState { names: seq_add(st.names, str_lowercase(source_name)), ..st })
    }
}

pub open spec fn intent_fold(st: SourceState, ctx: SourceContext, is: Seq<IntentView>) -> Result<SourceState, Seq<char>>
    decreases is.len(),
{
    if is.len() == 0 {
        Ok(st)
    } else {
        match intent_step(st, ctx, is[0]) {
            Err(e) => Err(e),
            Ok(next) => intent_fold(next, ctx, is.drop_first()),
        }
    }
}

pub open spec fn empty_state() -> SourceState {
    SourceState { urls: Seq::empty(), names: Seq::empty(), by_name: Map::empty(), by_identity: Map::empty() }
}

/// The source rules over a lockfile: without a package array nothing is
/// used; otherwise every package entry, then every source intent, and the
/// source URLs and names they use.
pub open spec fn spec_source_policy(
    ps: Option<Seq<PackageView>>,
    is: Seq<IntentView>,
    ctx: SourceContext,
) -> Result<(Seq<Seq<char>>, Seq<Seq<char>>), Seq<char>> {
    match ps {
        None => Ok((Seq::empty(), Seq::empty())),
        Some(ps) => match package_fold(empty_state(), ctx, ps) {
            Err(e) => Err(e),
            Ok(st) => match intent_fold(st, ctx, is) {
                Err(e) => Err(e),
                Ok(fin) => Ok((fin.urls, fin.names)),
            },
        },
    }
}

// ---- the executable rules ----
pub open spec fn strs(v: Seq<String>) -> Seq<Seq<char>> {
    v.map_values(|s: String| s@)
}

pub open spec fn identity_view(p: PythonPackageIdentity) -> (Seq<char>, Seq<char>) {
    (p.normalized_name@, p.version@)
}

/// The context that the inputs of `validate_source_policy` describe.
pub open spec fn context_of(
    declared: Seq<PythonSourceDecl>,
    config: SloppyJoeConfig,
    path: Seq<char>,
    pyproject: Seq<char>,
    reachable: Option<Seq<PythonPackageIdentity>>,
    authorized: Option<Seq<(PythonPackageIdentity, Vec<String>)>>,
) -> SourceContext {
    SourceContext {
        declared: declared.map_values(|d: PythonSourceDecl| (str_lowercase(d.name@), d.normalized_url@)),
        trusted: patterns_view(config.trusted_indexes@),
        path,
        pyproject,
        reachable: match reachable {
            Some(r) => Some(r.map_values(|p: PythonPackageIdentity| identity_view(p))),
            None => None,
        },
        authorized: match authorized {
            Some(a) => Some(
                a.map_values(
                    |e: (PythonPackageIdentity, Vec<String>)| (identity_view(e.0), strs(e.1@)),
                ),
            ),
            None => None,
        },
    }
}

struct SourceTables {
    urls: Vec<String>,
    names: Vec<String>,
    by_name: Vec<(String, Vec<String>)>,
    by_identity: Vec<((String, String), String)>,
}

impl SourceTables {
    spec fn view(&self) -> SourceState {
        SourceState {
            urls: strs(self.urls@),
            names: strs(self.names@),
            by_name: amap(self.by_name@),
            by_identity: amap(self.by_identity@),
        }
    }

    spec fn wf(&self) -> bool {
        akeys_unique(self.by_name@) && akeys_unique(self.by_identity@)
    }
}

fn push_new(v: &mut Vec<String>, x: &str)
    ensures
        strs(final(v)@) == seq_add(strs(old(v)@), x@),
{
    let mut i: usize = 0;
    while i < v.len()
        invariant
            i <= v@.len(),
            v@ == old(v)@,
            forall|j: int| 0 <= j < i ==> v@[j]@ != x@,
        decreases v.len() - i,
    {
        if str_eq(v[i].as_str(), x) {
            assert(strs(v@)[i as int] == x@);
            return;
        }
        i = i + 1;
    }
    proof {
        if strs(v@).contains(x@) {
            let j = choose|j: int| 0 <= j < strs(v@).len() && strs(v@)[j] == x@;
            assert(v@[j]@ == x@);
        }
    }
    v.push(string_of_str(x));
    assert(strs(v@) == strs(old(v)@).push(x@));
}

fn identity_url<'a>(t: &'a Vec<((String, String), String)>, name: &str, version: &str) -> (r: Option<&'a String>)
    requires
        akeys_unique(t@),
    ensures
        match r {
            Some(u) => amap(t@).dom().contains((name@, version@)) && amap(t@)[(name@, version@)] == u@,
            None => !amap(t@).dom().contains((name@, version@)),
        },
{
    let mut i: usize = 0;
    while i < t.len()
        invariant
            i <= t@.len(),
            akeys_unique(t@),
            forall|j: int| 0 <= j < i ==> #[trigger] t@[j].0.deep_view() != (name@, version@),
        decreases t.len() - i,
    {
        if str_eq(t[i].0.0.as_str(), name) && str_eq(t[i].0.1.as_str(), version) {
            proof {
                lemma_amap_index(t@, i as int);
            }
            return Some(&t[i].1);
        }
        i = i + 1;
    }
    proof {
        lemma_amap_absent(t@, (name@, version@));
    }
    None
}

fn by_name_add(t: &mut Vec<(String, Vec<String>)>, name: &str, url: &str)
    requires
        akeys_unique(old(t)@),
    ensures
        akeys_unique(final(t)@),
        amap(final(t)@) == amap(old(t)@).insert(
            name@,
            seq_add(
                if amap(old(t)@).dom().contains(name@) {
                    amap(old(t)@)[name@]
                } else {
                    Seq::empty()
                },
                url@,
            ),
        ),
{
    match crate::assoc::find_key(t, name) {
        Some(i) => {
            proof {
                lemma_amap_index(t@, i as int);
            }
            let mut list = t[i].1.clone();
            assert(list.deep_view() =~= strs(list@));
            assert(t@[i as int].1.deep_view() =~= strs(t@[i as int].1@));
            push_new(&mut list, url);
            assert(list.deep_view() =~= strs(list@));
            let key = t[i].0.clone();
            proof {
                lemma_amap_update(t@, i as int, (key, list));
            }
            t.set(i, (key, list));
        },
        None => {
            proof {
                lemma_amap_absent(t@, name@);
            }
            let mut list: Vec<String> = Vec::new();
            assert(strs(list@) == Seq::<Seq<char>>::empty());
            push_new(&mut list, url);
            assert(list.deep_view() =~= strs(list@));
            let key = string_of_str(name);
            proof {
                lemma_amap_push_new(t@, (key, list));
            }
            t.push((key, list));
        },
    }
}

pub open spec fn declared_view(d: Seq<(String, String)>) -> Seq<(Seq<char>, Seq<char>)> {
    d.map_values(|p: (String, String)| (p.0@, p.1@))
}

pub open spec fn reachable_view(r: Option<&[PythonPackageIdentity]>) -> Option<Seq<(Seq<char>, Seq<char>)>> {
    match r {
        Some(x) => Some(x@.map_values(|p: PythonPackageIdentity| identity_view(p))),
        None => None,
    }
}

pub open spec fn authorized_view(a: Option<&[(PythonPackageIdentity, Vec<String>)]>) -> Option<
    Seq<((Seq<char>, Seq<char>), Seq<Seq<char>>)>,
> {
    match a {
        Some(x) => Some(
            x@.map_values(|e: (PythonPackageIdentity, Vec<String>)| (identity_view(e.0), strs(e.1@))),
        ),
        None => None,
    }
}

/// The context, with the declared sources already lowercased.
pub open spec fn ctx_from(
    declared: Seq<(String, String)>,
    config: SloppyJoeConfig,
    path: Seq<char>,
    pyproject: Seq<char>,
    reachable: Option<&[PythonPackageIdentity]>,
    authorized: Option<&[(PythonPackageIdentity, Vec<String>)]>,
) -> SourceContext {
    SourceContext {
        declared: declared_view(declared),
        trusted: patterns_view(config.trusted_indexes@),
        path,
        pyproject,
        reachable: reachable_view(reachable),
        authorized: authorized_view(authorized),
    }
}

proof fn lemma_declared_url(d: Seq<(Seq<char>, Seq<char>)>, name: Seq<char>, i: int)
    requires
        -1 <= i < d.len(),
        forall|j: int| i < j < d.len() ==> #[trigger] d[j].0 != name,
        i == -1 || d[i].0 == name,
    ensures
        declared_url(d, name) == (if i >= 0 { Some(d[i].1) } else { None::<Seq<char>> }),
    decreases d.len(),
{
    if d.len() > 0 && i < d.len() - 1 {
        let t = d.drop_last();
        assert forall|j: int| i < j < t.len() implies #[trigger] t[j].0 != name by {
            assert(t[j] == d[j]);
        }
        assert(d[d.len() - 1].0 != name);
        lemma_declared_url(t, name, i);
        if i >= 0 {
            assert(t[i] == d[i]);
        }
    }
}

fn declared_lookup<'a>(declared: &'a Vec<(String, String)>, name: &str) -> (r: Option<&'a String>)
    ensures
        match r {
            Some(u) => declared_url(declared_view(declared@), name@) == Some(u@),
            None => declared_url(declared_view(declared@), name@) is None,
        },
{
    let ghost dv = declared_view(declared@);
    let mut i: usize = declared.len();
    while i > 0
        invariant
            i <= declared@.len(),
            dv == declared_view(declared@),
            forall|j: int| i <= j < dv.len() ==> #[trigger] dv[j].0 != name@,
        decreases i,
    {
        if str_eq(declared[i - 1].0.as_str(), name) {
            proof {
                lemma_declared_url(dv, name@, i - 1);
            }
            return Some(&declared[i - 1].1);
        }
        i = i - 1;
    }
    proof {
        lemma_declared_url(dv, name@, -1);
    }
    None
}

fn declares(declared: &Vec<(String, String)>, url: &str) -> (b: bool)
    ensures
        b == declares_url(declared_view(declared@), url@),
{
    let ghost dv = declared_view(declared@);
    let mut i: usize = 0;
    while i < declared.len()
        invariant
            i <= declared@.len(),
            dv == declared_view(declared@),
            forall|j: int| 0 <= j < i ==> #[trigger] dv[j].1 != url@,
        decreases declared.len() - i,
    {
        if str_eq(declared[i].1.as_str(), url) {
            assert(dv[i as int].1 == url@);
            return true;
        }
        i = i + 1;
    }
    false
}

proof fn lemma_authorized_for(a: Seq<((Seq<char>, Seq<char>), Seq<Seq<char>>)>, id: (Seq<char>, Seq<char>), i: int)
    requires
        0 <= i <= a.len(),
        forall|j: int| 0 <= j < i ==> #[trigger] a[j].0 != id,
        i == a.len() || a[i].0 == id,
    ensures
        authorized_for(a, id) == (if i < a.len() { Some(a[i].1) } else { None::<Seq<Seq<char>>> }),
    decreases i,
{
    if i > 0 {
        let t = a.drop_first();
        assert forall|j: int| 0 <= j < i - 1 implies #[trigger] t[j].0 != id by {
            assert(t[j] == a[j + 1]);
        }
        lemma_authorized_for(t, id, i - 1);
        if i < a.len() {
            assert(t[i - 1] == a[i]);
        }
    }
}

fn contains_str(v: &Vec<String>, w: &str) -> (b: bool)
    ensures
        b == strs(v@).contains(w@),
{
    let mut i: usize = 0;
    while i < v.len()
        invariant
            i <= v@.len(),
            forall|j: int| 0 <= j < i ==> v@[j]@ != w@,
        decreases v.len() - i,
    {
        if str_eq(v[i].as_str(), w) {
            assert(strs(v@)[i as int] == w@);
            return true;
        }
        i = i + 1;
    }
    proof {
        if strs(v@).contains(w@) {
            let j = choose|j: int| 0 <= j < strs(v@).len() && strs(v@)[j] == w@;
            assert(v@[j]@ == w@);
        }
    }
    false
}

fn is_authorized(a: &[(PythonPackageIdentity, Vec<String>)], nn: &str, version: &str, url: &str) -> (b: bool)
    ensures
        b == (authorized_for(authorized_view(Some(a))->0, (nn@, version@)) matches Some(us) && us.contains(url@)),
{
    let ghost av = authorized_view(Some(a))->0;
    let mut i: usize = 0;
    while i < a.len()
        invariant
            i <= a@.len(),
            av == authorized_view(Some(a))->0,
            forall|j: int| 0 <= j < i ==> #[trigger] av[j].0 != (nn@, version@),
        decreases a.len() - i,
    {
        if str_eq(a[i].0.normalized_name.as_str(), nn) && str_eq(a[i].0.version.as_str(), version) {
            proof {
                lemma_authorized_for(av, (nn@, version@), i as int);
            }
            return contains_str(&a[i].1, url);
        }
        i = i + 1;
    }
    proof {
        lemma_authorized_for(av, (nn@, version@), i as int);
    }
    false
}

fn is_reachable(r: &[PythonPackageIdentity], nn: &str, version: &str) -> (b: bool)
    ensures
        b == reachable_view(Some(r))->0.contains((nn@, version@)),
{
    let ghost rv = reachable_view(Some(r))->0;
    let mut i: usize = 0;
    while i < r.len()
        invariant
            i <= r@.len(),
            rv == reachable_view(Some(r))->0,
            forall|j: int| 0 <= j < i ==> rv[j] != (nn@, version@),
        decreases r.len() - i,
    {
        if str_eq(r[i].normalized_name.as_str(), nn) && str_eq(r[i].version.as_str(), version) {
            assert(rv[i as int] == (nn@, version@));
            return true;
        }
        i = i + 1;
    }
    false
}

/// The error for a package whose source was found, if any.
fn check_source(
    t: &SourceTables,
    declared: &Vec<(String, String)>,
    config: &SloppyJoeConfig,
    path: &str,
    pyproject: &str,
    authorized: Option<&[(PythonPackageIdentity, Vec<String>)]>,
    name: &str,
    version: &str,
    nn: &str,
    url: &str,
    source_name: &Option<String>,
) -> (r: Option<String>)
    requires
        t.wf(),
    ensures
        opt_s(r) == source_error(
            t.view(),
            ctx_from(declared@, *config, path@, pyproject@, None, authorized),
            name@,
            version@,
            (nn@, version@),
            url@,
            opt_s(*source_name),
        ),
{
    proof {
        reveal_strlit("pypi");
    }
    let mut p = package_prefix_text(path, name);
    if let Some(existing) = identity_url(&t.by_identity, nn, version) {
        if !str_eq(existing.as_str(), url) {
            push_str(&mut p, " version '");
            push_str(&mut p, version);
            push_str(&mut p, "' resolves from multiple sources and cannot be trusted exactly");
            return Some(p);
        }
    }
    if !config.is_trusted_index("pypi", url) {
        push_str(&mut p, " resolves from untrusted Python index '");
        push_str(&mut p, url);
        push_str(&mut p, "'");
        return Some(p);
    }
    if !str_eq(url, normalized_default_pypi_index()) {
        match source_name {
            Some(sn) => {
                let lower = to_lowercase(sn.as_str());
                match declared_lookup(declared, lower.as_str()) {
                    None => {
                        push_str(&mut p, " resolves from source '");
                        let s = sanitize_for_terminal(sn.as_str());
                        push_str(&mut p, s.as_str());
                        push_str(&mut p, "' that is not declared in '");
                        push_str(&mut p, pyproject);
                        push_str(&mut p, "'");
                        return Some(p);
                    },
                    Some(d) => {
                        if !str_eq(d.as_str(), url) {
                            push_str(&mut p, " resolves from source '");
                            let s = sanitize_for_terminal(sn.as_str());
                            push_str(&mut p, s.as_str());
                            push_str(&mut p, "' (");
                            push_str(&mut p, url);
                            push_str(&mut p, ") but pyproject.toml declares that source as ");
                            push_str(&mut p, d.as_str());
                            return Some(p);
                        }
                    },
                }
            },
            None => {
                if !declares(declared, url) {
                    push_str(&mut p, " resolves from non-PyPI source '");
                    push_str(&mut p, url);
                    push_str(&mut p, "' that is not declared in '");
                    push_str(&mut p, pyproject);
                    push_str(&mut p, "'");
                    return Some(p);
                }
            },
        }
    }
    if let Some(a) = authorized {
        if !is_authorized(a, nn, version, url) {
            push_str(&mut p, " resolves from source '");
            push_str(&mut p, url);
            push_str(&mut p, "' but that source is not authorized by the in-scope root dependency graph");
            return Some(p);
        }
    }
    None
}

fn record(t: &mut SourceTables, nn: &str, version: &str, url: &str, source_name: &Option<String>)
    requires
        old(t).wf(),
        !amap(old(t).by_identity@).dom().contains((nn@, version@)) || amap(old(t).by_identity@)[(
            nn@,
            version@,
        )] == url@,
    ensures
        final(t).wf(),
        final(t).view() == record_source(old(t).view(), (nn@, version@), url@, opt_s(*source_name)),
{
    push_new(&mut t.urls, url);
    match source_name {
        Some(sn) => {
            let lower = to_lowercase(sn.as_str());
            push_new(&mut t.names, lower.as_str());
        },
        None => {},
    }
    by_name_add(&mut t.by_name, nn, url);
    let ghost before = amap(t.by_identity@);
    match identity_url(&t.by_identity, nn, version) {
        Some(_) => {
            assert(before.insert((nn@, version@), url@) =~= before);
        },
        None => {
            let entry = ((string_of_str(nn), string_of_str(version)), string_of_str(url));
            proof {
                lemma_amap_dom(t.by_identity@, (nn@, version@));
                assert forall|j: int| 0 <= j < t.by_identity@.len() implies t.by_identity@[j].0.deep_view()
                    != entry.0.deep_view() by {
                    lemma_amap_dom(t.by_identity@, (nn@, version@));
                }
                lemma_amap_push_new(t.by_identity@, entry);
            }
            t.by_identity.push(entry);
        },
    }
}

/// Applies `package_step` to one entry.
fn apply_package(
    t: &mut SourceTables,
    pkg: &Option<PoetryPackage>,
    declared: &Vec<(String, String)>,
    config: &SloppyJoeConfig,
    path: &str,
    pyproject: &str,
    reachable: Option<&[PythonPackageIdentity]>,
    authorized: Option<&[(PythonPackageIdentity, Vec<String>)]>,
) -> (r: Result<(), String>)
    requires
        old(t).wf(),
    ensures
        final(t).wf(),
        match package_step(
            old(t).view(),
            ctx_from(declared@, *config, path@, pyproject@, reachable, authorized),
            package_view(*pkg),
        ) {
            Ok(st) => r is Ok && final(t).view() == st,
            Err(e) => r matches Err(m) && m@ == e,
        },
{
    let Some(pkg) = pkg else {
        let mut m = string_of_str("Broken lockfile '");
        push_str(&mut m, path);
        push_str(&mut m, "': ");
        push_str(&mut m, "package entry must be a table");
        return Err(m);
    };
    let Some(name) = &pkg.name else {
        let mut m = string_of_str("Broken lockfile '");
        push_str(&mut m, path);
        push_str(&mut m, "': ");
        push_str(&mut m, "package entry missing name");
        return Err(m);
    };
    let Some(version) = &pkg.version else {
        let mut m = package_prefix_text(path, name.as_str());
        push_str(&mut m, " entry missing version");
        return Err(m);
    };
    let nn = normalize_name(name.as_str());
    if let Some(r) = reachable {
        if !is_reachable(r, nn.as_str(), version.as_str()) {
            return Ok(());
        }
    }
    let (url, source_name) = match poetry_package_source(&pkg.source, path, name.as_str()) {
        Ok(found) => found,
        Err(e) => {
            return Err(e);
        },
    };
    match check_source(
        t,
        declared,
        config,
        path,
        pyproject,
        authorized,
        name.as_str(),
        version.as_str(),
        nn.as_str(),
        url.as_str(),
        &source_name,
    ) {
        Some(e) => {
            proof {
                assert(ctx_from(declared@, *config, path@, pyproject@, None, authorized).authorized
                    == ctx_from(declared@, *config, path@, pyproject@, reachable, authorized).authorized);
            }
            Err(e)
        },
        None => {
            record(t, nn.as_str(), version.as_str(), url.as_str(), &source_name);
            Ok(())
        },
    }
}

pub open spec fn packages_view(ps: Seq<Option<PoetryPackage>>) -> Seq<PackageView> {
    ps.map_values(|p: Option<PoetryPackage>| package_view(p))
}

pub open spec fn intents_view(is: Seq<PythonDependencySourceIntent>) -> Seq<IntentView> {
    is.map_values(|i: PythonDependencySourceIntent| (i.package@, i.source_name@, i.normalized_url@))
}

fn apply_intent(t: &mut SourceTables, intent: &PythonDependencySourceIntent, path: &str) -> (r: Result<(), String>)
    requires
        old(t).wf(),
    ensures
        final(t).wf(),
        forall|ctx: SourceContext|
            ctx.path == path@ ==> match #[trigger] intent_step(
                old(t).view(),
                ctx,
                (intent.package@, intent.source_name@, intent.normalized_url@),
            ) {
                Ok(st) => r is Ok && final(t).view() == st,
                Err(e) => r matches Err(m) && m@ == e,
            },
{
    let package = intent.package.as_str();
    let mut m = string_of_str("Broken lockfile '");
    push_str(&mut m, path);
    push_str(&mut m, "': ");
    push_str(&mut m, "dependency '");
    let sp = sanitize_for_terminal(package);
    push_str(&mut m, sp.as_str());
    let Some(k) = crate::assoc::find_key(&t.by_name, package) else {
        proof {
            lemma_amap_absent(t.by_name@, package@);
        }
        push_str(&mut m, "' is missing a resolved package entry for declared source '");
        let ss = sanitize_for_terminal(intent.source_name.as_str());
        push_str(&mut m, ss.as_str());
        push_str(&mut m, "'");
        return Err(m);
    };
    proof {
        lemma_amap_index(t.by_name@, k as int);
        assert(t.by_name@[k as int].1.deep_view() =~= strs(t.by_name@[k as int].1@));
    }
    let urls = &t.by_name[k].1;
    if urls.len() != 1 {
        push_str(&mut m, "' resolves from multiple sources and cannot be trusted exactly");
        return Err(m);
    }
    if !str_eq(urls[0].as_str(), intent.normalized_url.as_str()) {
        push_str(&mut m, "' declares source '");
        let ss = sanitize_for_terminal(intent.source_name.as_str());
        push_str(&mut m, ss.as_str());
        push_str(&mut m, "' (");
        push_str(&mut m, intent.normalized_url.as_str());
        push_str(&mut m, ") but poetry.lock resolves it from ");
        push_str(&mut m, urls[0].as_str());
        return Err(m);
    }
    let lower = to_lowercase(intent.source_name.as_str());
    push_new(&mut t.names, lower.as_str());
    Ok(())
}

pub open spec fn tables_result(r: Result<(Vec<String>, Vec<String>), String>) -> Result<(Seq<Seq<char>>, Seq<Seq<char>>), Seq<char>> {
    match r {
        Ok((u, n)) => Ok((strs(u@), strs(n@))),
        Err(e) => Err(e@),
    }
}

/// The `pyproject.toml` beside a lockfile: in the lockfile's directory (`.`
/// where the path has none).
pub open spec fn spec_pyproject_beside(source: Seq<char>) -> Seq<char> {
    crate::paths::spec_join(
        match crate::paths::spec_parent(source) {
            Some(d) => d,
            None => "."@,
        },
        "pyproject.toml"@,
    )
}

fn pyproject_beside(source: &str) -> (r: String)
    ensures
        r@ == spec_pyproject_beside(source@),
{
    match crate::paths::parent_path(source) {
        Some(d) => crate::paths::join_path(d.as_str(), "pyproject.toml"),
        None => crate::paths::join_path(".", "pyproject.toml"),
    }
}

/// Checks where a `poetry.lock` resolves packages from (see
/// `spec_source_policy`), and returns the source URLs and lowercased
/// source names it uses. The `pyproject.toml` beside `source_path` is
/// named in messages;
/// `reachable_packages`, when given, limits the checks to those packages;
/// `authorized_sources`, when given, lists the URLs each package may come
/// from.
pub fn validate_source_policy(
    parsed: &PoetryLock,
    declared_sources: &[PythonSourceDecl],
    source_intents: &[PythonDependencySourceIntent],
    config: &SloppyJoeConfig,
    source_path: &str,
    reachable_packages: Option<&[PythonPackageIdentity]>,
    authorized_sources: Option<&[(PythonPackageIdentity, Vec<String>)]>,
) -> (r: Result<(Vec<String>, Vec<String>), String>)
    ensures
        tables_result(r) == spec_source_policy(
            match parsed.packages {
                Some(ps) => Some(packages_view(ps@)),
                None => None,
            },
            intents_view(source_intents@),
            context_of(
                declared_sources@,
                *config,
                source_path@,
                spec_pyproject_beside(source_path@),
                match reachable_packages {
                    Some(x) => Some(x@),
                    None => None,
                },
                match authorized_sources {
                    Some(x) => Some(x@),
                    None => None,
                },
            ),
        ),
{
    let pyproject_owned = pyproject_beside(source_path);
    let pyproject_path = pyproject_owned.as_str();
    let mut declared: Vec<(String, String)> = Vec::new();
    let mut d: usize = 0;
    while d < declared_sources.len()
        invariant
            pyproject_path@ == spec_pyproject_beside(source_path@),
            d <= declared_sources@.len(),
            declared@.len() == d,
            forall|j: int| 0 <= j < d ==> (#[trigger] declared@[j]).0@ == str_lowercase(declared_sources@[j].name@)
                && declared@[j].1@ == declared_sources@[j].normalized_url@,
        decreases declared_sources.len() - d,
    {
        let lower = to_lowercase(declared_sources[d].name.as_str());
        declared.push((lower, declared_sources[d].normalized_url.clone()));
        d = d + 1;
    }
    let ghost ctx = ctx_from(declared@, *config, source_path@, pyproject_path@, reachable_packages, authorized_sources);
    let ghost full = context_of(
        declared_sources@,
        *config,
        source_path@,
        pyproject_path@,
        match reachable_packages {
            Some(x) => Some(x@),
            None => None,
        },
        match authorized_sources {
            Some(x) => Some(x@),
            None => None,
        },
    );
    proof {
        let full2 = context_of(
            declared_sources@,
            *config,
            source_path@,
            pyproject_path@,
            match reachable_packages {
                Some(x) => Some(x@),
                None => None,
            },
            match authorized_sources {
                Some(x) => Some(x@),
                None => None,
            },
        );
        assert(ctx.declared =~= full.declared);
        assert(ctx == full);
        assert(full2 == full);
    }
    let Some(packages) = &parsed.packages else {
        let r: (Vec<String>, Vec<String>) = (Vec::new(), Vec::new());
        assert(strs(r.0@) =~= Seq::<Seq<char>>::empty());
        assert(strs(r.1@) =~= Seq::<Seq<char>>::empty());
        return Ok(r);
    };
    let mut t = SourceTables { urls: Vec::new(), names: Vec::new(), by_name: Vec::new(), by_identity: Vec::new() };
    proof {
        assert(t.view().urls =~= Seq::<Seq<char>>::empty());
        assert(t.view().names =~= Seq::<Seq<char>>::empty());
        assert(t.view().by_name =~= Map::<Seq<char>, Seq<Seq<char>>>::empty());
        assert(t.view().by_identity =~= Map::<(Seq<char>, Seq<char>), Seq<char>>::empty());
    }
    let ghost ps = packages_view(packages@);
    assert(ps.subrange(0, ps.len() as int) == ps);
    let mut i: usize = 0;
    while i < packages.len()
        invariant
            pyproject_path@ == spec_pyproject_beside(source_path@),
            i <= packages@.len(),
            t.wf(),
            parsed.packages == Some(*packages),
            ctx == full,
            full == context_of(
                declared_sources@,
                *config,
                source_path@,
                pyproject_path@,
                match reachable_packages {
                    Some(x) => Some(x@),
                    None => None,
                },
                match authorized_sources {
                    Some(x) => Some(x@),
                    None => None,
                },
            ),
            ps == packages_view(packages@),
            ctx == ctx_from(declared@, *config, source_path@, pyproject_path@, reachable_packages, authorized_sources),
            package_fold(t.view(), ctx, ps.subrange(i as int, ps.len() as int)) == package_fold(
                empty_state(),
                ctx,
                ps,
            ),
        decreases packages.len() - i,
    {
        let ghost before = t.view();
        let r = apply_package(
            &mut t,
            &packages[i],
            &declared,
            config,
            source_path,
            pyproject_path,
            reachable_packages,
            authorized_sources,
        );
        proof {
            let rest = ps.subrange(i as int, ps.len() as int);
            assert(rest[0] == ps[i as int]);
            assert(rest.drop_first() == ps.subrange(i + 1, ps.len() as int));
        }
        if let Err(e) = r {
            proof {
                assert(ps[i as int] == package_view(packages@[i as int]));
                assert(package_step(before, ctx, ps[i as int]) == Err::<SourceState, Seq<char>>(e@));
                assert(package_fold(before, ctx, ps.subrange(i as int, ps.len() as int)) == Err::<
                    SourceState,
                    Seq<char>,
                >(e@));
                assert(package_fold(empty_state(), ctx, ps) == Err::<SourceState, Seq<char>>(e@));
                assert(spec_source_policy(Some(ps), intents_view(source_intents@), full) == Err::<
                    (Seq<Seq<char>>, Seq<Seq<char>>),
                    Seq<char>,
                >(e@));
            }
            return Err(e);
        }
        i = i + 1;
    }
    assert(ps.subrange(i as int, ps.len() as int) == Seq::<PackageView>::empty());
    let ghost is = intents_view(source_intents@);
    assert(is.subrange(0, is.len() as int) == is);
    let ghost after_packages = t.view();
    let mut j: usize = 0;
    while j < source_intents.len()
        invariant
            pyproject_path@ == spec_pyproject_beside(source_path@),
            j <= source_intents@.len(),
            t.wf(),
            parsed.packages == Some(*packages),
            ctx == full,
            full == context_of(
                declared_sources@,
                *config,
                source_path@,
                pyproject_path@,
                match reachable_packages {
                    Some(x) => Some(x@),
                    None => None,
                },
                match authorized_sources {
                    Some(x) => Some(x@),
                    None => None,
                },
            ),
            ps == packages_view(packages@),
            package_fold(empty_state(), ctx, ps) == Ok::<SourceState, Seq<char>>(after_packages),
            is == intents_view(source_intents@),
            ctx.path == source_path@,
            intent_fold(t.view(), ctx, is.subrange(j as int, is.len() as int)) == intent_fold(
                after_packages,
                ctx,
                is,
            ),
        decreases source_intents.len() - j,
    {
        let ghost before = t.view();
        let r = apply_intent(&mut t, &source_intents[j], source_path);
        proof {
            let rest = is.subrange(j as int, is.len() as int);
            assert(rest[0] == is[j as int]);
            assert(rest.drop_first() == is.subrange(j + 1, is.len() as int));
        }
        if let Err(e) = r {
            proof {
                assert(is[j as int] == (source_intents@[j as int].package@, source_intents@[j as int].source_name@, source_intents@[j as int].normalized_url@));
                assert(intent_step(before, ctx, is[j as int]) == Err::<SourceState, Seq<char>>(e@));
            }
            return Err(e);
        }
        j = j + 1;
    }
    assert(is.subrange(j as int, is.len() as int) == Seq::<IntentView>::empty());
    Ok((t.urls, t.names))
}

} // verus!
