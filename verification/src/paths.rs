//! Filesystem paths as `/`-separated text: their components, lexical
//! normalization, joining, parents and component-wise prefixes.
use vstd::prelude::*;
use crate::text::{chars_of, concat_all, concat_parts, push_str, str_eq, string_of_str, string_push};
use crate::workspace::{
    pattern_segments, segments, segments_of, spec_parts_match, strs, workspace_patterns_match,
};

verus! {

/// One component of a path: the root, a `..`, or a name. (`.` components
/// carry no meaning and are dropped when a path is split.)
#[derive(Debug)]
pub enum PathPart {
    Root,
    Up,
    Name(String),
}

pub enum PartView {
    Root,
    Up,
    Name(Seq<char>),
}

impl View for PathPart {
    type V = PartView;

    open spec fn view(&self) -> PartView {
        match self {
            PathPart::Root => PartView::Root,
            PathPart::Up => PartView::Up,
            PathPart::Name(n) => PartView::Name(n@),
        }
    }
}

pub open spec fn parts_view(v: Seq<PathPart>) -> Seq<PartView> {
    v.map_values(|p: PathPart| p@)
}

/// The component a non-empty segment stands for.
pub open spec fn segment_part(seg: Seq<char>) -> Seq<PartView> {
    if seg == seq!['.'] {
        Seq::empty()
    } else if seg == seq!['.', '.'] {
        seq![PartView::Up]
    } else {
        seq![PartView::Name(seg)]
    }
}

pub open spec fn segment_parts(segs: Seq<Seq<char>>) -> Seq<PartView>
    decreases segs.len(),
{
    if segs.len() == 0 {
        Seq::empty()
    } else {
        segment_parts(segs.drop_last()) + segment_part(segs.last())
    }
}

/// The components of `path`: the root where it starts with `/`, then one
/// component for each non-empty `/`-separated segment other than `.`.
pub open spec fn spec_path_parts(path: Seq<char>) -> Seq<PartView> {
    (if path.len() > 0 && path[0] == '/' {
        seq![PartView::Root]
    } else {
        Seq::empty()
    }) + segment_parts(segments(path))
}

/// Lexical normalization: the root restarts the path, `..` drops the last
/// name (and nothing at the root or at the start), a name is appended.
pub open spec fn normalize_parts(ps: Seq<PartView>) -> Seq<PartView>
    decreases ps.len(),
{
    if ps.len() == 0 {
        Seq::empty()
    } else {
        let n = normalize_parts(ps.drop_last());
        match ps.last() {
            PartView::Root => seq![PartView::Root],
            PartView::Up => if n.len() > 0 && !(n.last() is Root) {
                n.drop_last()
            } else {
                n
            },
            PartView::Name(x) => n.push(PartView::Name(x)),
        }
    }
}

/// `r` with the component `x` appended: a separator goes between them
/// unless `r` is empty or already ends with one.
pub open spec fn with_part(r: Seq<char>, x: Seq<char>) -> Seq<char> {
    if r.len() == 0 {
        x
    } else if r.last() == '/' {
        r + x
    } else {
        r + seq!['/'] + x
    }
}

/// The text of a path built from the components `ps`, one at a time.
pub open spec fn render(ps: Seq<PartView>) -> Seq<char>
    decreases ps.len(),
{
    if ps.len() == 0 {
        Seq::empty()
    } else {
        let r = render(ps.drop_last());
        match ps.last() {
            PartView::Root => seq!['/'],
            PartView::Up => with_part(r, seq!['.', '.']),
            PartView::Name(x) => with_part(r, x),
        }
    }
}

/// `path` with its `.` and `..` components resolved lexically.
pub open spec fn spec_normalize(path: Seq<char>) -> Seq<char> {
    render(normalize_parts(spec_path_parts(path)))
}

/// The components of `path` (see `spec_path_parts`).
pub fn path_parts(path: &str) -> (r: Vec<PathPart>)
    ensures
        parts_view(r@) == spec_path_parts(path@),
{
    let v = chars_of(path);
    let segs = segments_of(&v, 0, v.len());
    assert(v@.subrange(0, v@.len() as int) == v@);
    let mut out: Vec<PathPart> = Vec::new();
    if v.len() > 0 && v[0] == '/' {
        out.push(PathPart::Root);
    }
    let ghost head = parts_view(out@);
    assert(head == (if path@.len() > 0 && path@[0] == '/' {
        seq![PartView::Root]
    } else {
        Seq::<PartView>::empty()
    }));
    let ghost ss = strs(segs@);
    let mut i: usize = 0;
    assert(ss.subrange(0, 0) =~= Seq::<Seq<char>>::empty());
    assert(parts_view(out@) =~= head + segment_parts(ss.subrange(0, 0)));
    while i < segs.len()
        invariant
            i <= segs@.len(),
            ss == strs(segs@),
            ss.len() == segs@.len(),
            parts_view(out@) == head + segment_parts(ss.subrange(0, i as int)),
        decreases segs.len() - i,
    {
        let ghost before = parts_view(out@);
        let seg = segs[i].as_str();
        assert(ss[i as int] == seg@);
        assert(ss.subrange(0, i + 1).drop_last() == ss.subrange(0, i as int));
        assert(ss.subrange(0, i + 1).last() == seg@);
        if str_eq(seg, ".") {
            proof {
                reveal_strlit(".");
                assert(seg@ =~= seq!['.']);
                assert(segment_part(seg@) =~= Seq::<PartView>::empty());
                assert(segment_parts(ss.subrange(0, i + 1)) =~= segment_parts(ss.subrange(0, i as int)));
            }
            assert(parts_view(out@) =~= head + segment_parts(ss.subrange(0, i + 1)));
        } else if str_eq(seg, "..") {
            proof {
                reveal_strlit("..");
                reveal_strlit(".");
                assert(seg@ =~= seq!['.', '.']);
                assert(seg@.len() != 1);
                assert(segment_part(seg@) =~= seq![PartView::Up]);
            }
            out.push(PathPart::Up);
            assert(parts_view(out@) =~= before.push(PartView::Up));
            assert(parts_view(out@) =~= head + segment_parts(ss.subrange(0, i + 1)));
        } else {
            proof {
                reveal_strlit("..");
                reveal_strlit(".");
                assert(seg@ != seq!['.']) by {
                    assert("."@ =~= seq!['.']);
                }
                assert(seg@ != seq!['.', '.']) by {
                    assert(".."@ =~= seq!['.', '.']);
                }
                assert(segment_part(seg@) =~= seq![PartView::Name(seg@)]);
            }
            out.push(PathPart::Name(string_of_str(seg)));
            assert(parts_view(out@) =~= before.push(PartView::Name(seg@)));
            assert(parts_view(out@) =~= head + segment_parts(ss.subrange(0, i + 1)));
        }
        i = i + 1;
    }
    assert(ss.subrange(0, ss.len() as int) == ss);
    out
}

/// `normalize_parts` of `ps`.
pub fn normalize_path_parts(ps: &Vec<PathPart>) -> (r: Vec<PathPart>)
    ensures
        parts_view(r@) == normalize_parts(parts_view(ps@)),
{
    let ghost pv = parts_view(ps@);
    let mut out: Vec<PathPart> = Vec::new();
    let mut i: usize = 0;
    assert(pv.subrange(0, 0) =~= Seq::<PartView>::empty());
    while i < ps.len()
        invariant
            i <= ps@.len(),
            pv == parts_view(ps@),
            parts_view(out@) == normalize_parts(pv.subrange(0, i as int)),
        decreases ps.len() - i,
    {
        let ghost before = parts_view(out@);
        assert(pv.subrange(0, i + 1).drop_last() == pv.subrange(0, i as int));
        assert(pv.subrange(0, i + 1).last() == pv[i as int]);
        match &ps[i] {
            PathPart::Root => {
                out = Vec::new();
                out.push(PathPart::Root);
                assert(parts_view(out@) =~= seq![PartView::Root]);
            },
            PathPart::Up => {
                let n = out.len();
                if n > 0 {
                    let last_is_root = match &out[n - 1] {
                        PathPart::Root => true,
                        _ => false,
                    };
                    if !last_is_root {
                        out.pop();
                        assert(parts_view(out@) =~= before.drop_last());
                    }
                }
            },
            PathPart::Name(x) => {
                out.push(PathPart::Name(x.clone()));
                assert(parts_view(out@) =~= before.push(PartView::Name(x@)));
            },
        }
        i = i + 1;
    }
    assert(pv.subrange(0, pv.len() as int) == pv);
    out
}

/// The text of the path made of `ps` (see `render`).
pub fn render_path(ps: &Vec<PathPart>) -> (r: String)
    ensures
        r@ == render(parts_view(ps@)),
{
    let ghost pv = parts_view(ps@);
    let mut out = string_of_str("");
    let mut is_empty = true;
    let mut ends_with_sep = false;
    let mut i: usize = 0;
    proof {
        reveal_strlit("");
    }
    assert(pv.subrange(0, 0) =~= Seq::<PartView>::empty());
    while i < ps.len()
        invariant
            i <= ps@.len(),
            pv == parts_view(ps@),
            out@ == render(pv.subrange(0, i as int)),
            is_empty == (out@.len() == 0),
            ends_with_sep == (out@.len() > 0 && out@.last() == '/'),
        decreases ps.len() - i,
    {
        assert(pv.subrange(0, i + 1).drop_last() == pv.subrange(0, i as int));
        assert(pv.subrange(0, i + 1).last() == pv[i as int]);
        match &ps[i] {
            PathPart::Root => {
                out = string_of_str("");
                string_push(&mut out, '/');
                proof {
                    reveal_strlit("");
                }
                assert(out@ =~= seq!['/']);
                is_empty = false;
                ends_with_sep = true;
            },
            _ => {
                let piece: Vec<char> = match &ps[i] {
                    PathPart::Name(x) => chars_of(x.as_str()),
                    _ => {
                        let mut d: Vec<char> = Vec::new();
                        d.push('.');
                        d.push('.');
                        d
                    },
                };
                let ghost r = out@;
                assert(piece@ == (match pv[i as int] {
                    PartView::Up => seq!['.', '.'],
                    PartView::Name(x) => x,
                    PartView::Root => Seq::<char>::empty(),
                }));
                if !is_empty && !ends_with_sep {
                    string_push(&mut out, '/');
                }
                let mut k: usize = 0;
                let ghost mid = out@;
                while k < piece.len()
                    invariant
                        k <= piece@.len(),
                        out@ == mid + piece@.subrange(0, k as int),
                    decreases piece.len() - k,
                {
                    string_push(&mut out, piece[k]);
                    assert(piece@.subrange(0, k + 1) == piece@.subrange(0, k as int).push(piece@[k as int]));
                    k = k + 1;
                }
                assert(piece@.subrange(0, piece@.len() as int) == piece@);
                assert(out@ =~= with_part(r, piece@));
                let n = piece.len();
                if n > 0 {
                    ends_with_sep = piece[n - 1] == '/';
                    is_empty = false;
                    assert(out@.last() == piece@.last());
                } else {
                    assert(out@ =~= mid);
                    if !is_empty && !ends_with_sep {
                        assert(out@.last() == '/');
                        ends_with_sep = true;
                    }
                }
            },
        }
        i = i + 1;
    }
    assert(pv.subrange(0, pv.len() as int) == pv);
    out
}

/// `path` with its `.` and `..` components resolved without looking at
/// the filesystem (see `spec_normalize`).
pub fn normalize_filesystem_path(path: &str) -> (r: String)
    ensures
        r@ == spec_normalize(path@),
{
    let parts = path_parts(path);
    let normalized = normalize_path_parts(&parts);
    render_path(&normalized)
}

/// `rel` joined onto `dir`: an absolute `rel` stands alone, a relative one
/// is appended as a component.
pub open spec fn spec_join(dir: Seq<char>, rel: Seq<char>) -> Seq<char> {
    if rel.len() > 0 && rel[0] == '/' {
        rel
    } else {
        with_part(dir, rel)
    }
}

/// `rel` joined onto `dir` (see `spec_join`).
pub fn join_path(dir: &str, rel: &str) -> (r: String)
    ensures
        r@ == spec_join(dir@, rel@),
{
    let d = chars_of(dir);
    let v = chars_of(rel);
    if v.len() > 0 && v[0] == '/' {
        return string_of_str(rel);
    }
    let mut out = string_of_str(dir);
    if d.len() > 0 && d[d.len() - 1] != '/' {
        string_push(&mut out, '/');
    }
    push_str(&mut out, rel);
    assert(out@ =~= with_part(dir@, rel@));
    out
}

/// The path without its last component, where it has one besides the
/// root.
pub open spec fn spec_parent(path: Seq<char>) -> Option<Seq<char>> {
    let ps = spec_path_parts(path);
    if ps.len() == 0 || ps.last() is Root {
        None
    } else {
        Some(render(ps.drop_last()))
    }
}

/// The path without its last component (see `spec_parent`).
pub fn parent_path(path: &str) -> (r: Option<String>)
    ensures
        opt_text(r) == spec_parent(path@),
{
    let mut parts = path_parts(path);
    let n = parts.len();
    if n == 0 {
        return None;
    }
    let last_is_root = match &parts[n - 1] {
        PathPart::Root => true,
        _ => false,
    };
    if last_is_root {
        return None;
    }
    let ghost before = parts_view(parts@);
    parts.pop();
    assert(parts_view(parts@) =~= before.drop_last());
    Some(render_path(&parts))
}

pub open spec fn opt_text(o: Option<String>) -> Option<Seq<char>> {
    match o {
        Some(s) => Some(s@),
        None => None,
    }
}

/// `base`'s components are the first components of `path`.
pub open spec fn parts_prefix(base: Seq<PartView>, path: Seq<PartView>) -> bool {
    base.len() <= path.len() && path.subrange(0, base.len() as int) == base
}

/// Whether `path` lies at or below `base`, component by component.
pub open spec fn spec_path_starts_with(path: Seq<char>, base: Seq<char>) -> bool {
    parts_prefix(spec_path_parts(base), spec_path_parts(path))
}

fn part_eq(a: &PathPart, b: &PathPart) -> (r: bool)
    ensures
        r == (a@ == b@),
{
    match (a, b) {
        (PathPart::Root, PathPart::Root) => true,
        (PathPart::Up, PathPart::Up) => true,
        (PathPart::Name(x), PathPart::Name(y)) => str_eq(x.as_str(), y.as_str()),
        _ => false,
    }
}

/// Whether `path` lies at or below `base` (see `spec_path_starts_with`).
pub fn path_starts_with(path: &str, base: &str) -> (r: bool)
    ensures
        r == spec_path_starts_with(path@, base@),
{
    let p = path_parts(path);
    let b = path_parts(base);
    let ghost pv = parts_view(p@);
    let ghost bv = parts_view(b@);
    if b.len() > p.len() {
        return false;
    }
    let mut i: usize = 0;
    while i < b.len()
        invariant
            i <= b@.len() <= p@.len(),
            pv == parts_view(p@),
            bv == parts_view(b@),
            pv == spec_path_parts(path@),
            bv == spec_path_parts(base@),
            forall|j: int| 0 <= j < i ==> pv[j] == bv[j],
        decreases b.len() - i,
    {
        assert(pv[i as int] == p@[i as int]@ && bv[i as int] == b@[i as int]@);
        if !part_eq(&p[i], &b[i]) {
            proof {
                let pre = pv.subrange(0, bv.len() as int);
                assert(pre[i as int] == pv[i as int]);
                if pre == bv {
                    assert(pre[i as int] == bv[i as int]);
                }
            }
            return false;
        }
        i = i + 1;
    }
    assert(pv.subrange(0, bv.len() as int) =~= bv);
    true
}

/// Whether two paths have the same components.
pub fn same_path(a: &str, b: &str) -> (r: bool)
    ensures
        r == (spec_path_parts(a@) == spec_path_parts(b@)),
{
    let ab = path_starts_with(a, b);
    let ba = path_starts_with(b, a);
    proof {
        let pa = spec_path_parts(a@);
        let pb = spec_path_parts(b@);
        if ab && ba {
            assert(pa.subrange(0, pb.len() as int) == pb);
            assert(pa.len() == pb.len());
            assert(pa =~= pa.subrange(0, pa.len() as int));
        }
        if pa == pb {
            assert(pa.subrange(0, pb.len() as int) =~= pb);
        }
    }
    ab && ba
}

/// The names among `ps`, in order.
pub open spec fn names_of(ps: Seq<PartView>) -> Seq<Seq<char>>
    decreases ps.len(),
{
    if ps.len() == 0 {
        Seq::empty()
    } else {
        let r = names_of(ps.drop_last());
        match ps.last() {
            PartView::Name(x) => r.push(x),
            _ => r,
        }
    }
}

/// The names of `path` below `base`, where `path` lies at or below it.
pub open spec fn spec_relative_names(path: Seq<char>, base: Seq<char>) -> Option<Seq<Seq<char>>> {
    let p = spec_path_parts(path);
    let b = spec_path_parts(base);
    if parts_prefix(b, p) {
        Some(names_of(p.subrange(b.len() as int, p.len() as int)))
    } else {
        None
    }
}

/// The names of `path` below `base` (see `spec_relative_names`).
pub fn relative_names(path: &str, base: &str) -> (r: Option<Vec<String>>)
    ensures
        match r {
            Some(v) => spec_relative_names(path@, base@) == Some(strs(v@)),
            None => spec_relative_names(path@, base@) is None,
        },
{
    if !path_starts_with(path, base) {
        return None;
    }
    let p = path_parts(path);
    let b = path_parts(base);
    let ghost pv = parts_view(p@);
    let ghost lo = b@.len() as int;
    let mut out: Vec<String> = Vec::new();
    let mut i: usize = b.len();
    assert(pv.subrange(lo, lo) =~= Seq::<PartView>::empty());
    assert(strs(out@) =~= Seq::<Seq<char>>::empty());
    while i < p.len()
        invariant
            lo <= i <= p@.len(),
            lo == parts_view(b@).len(),
            pv == parts_view(p@),
            strs(out@) == names_of(pv.subrange(lo, i as int)),
        decreases p.len() - i,
    {
        assert(pv.subrange(lo, i + 1).drop_last() == pv.subrange(lo, i as int));
        assert(pv.subrange(lo, i + 1).last() == pv[i as int]);
        assert(pv[i as int] == p@[i as int]@);
        match &p[i] {
            PathPart::Name(x) => {
                let ghost before = strs(out@);
                out.push(x.clone());
                assert(strs(out@) =~= before.push(x@));
            },
            _ => {},
        }
        i = i + 1;
    }
    Some(out)
}

/// The directories from `start` up to `root`, both included (the text of
/// each, from the longest); refused where `start` is not at or below
/// `root`, or where the way up runs past a filesystem root before it
/// reaches an empty `root`.
pub open spec fn spec_ancestors(start: Seq<char>, root: Seq<char>) -> Result<Seq<Seq<char>>, Seq<char>> {
    let ps = spec_path_parts(start);
    let rs = spec_path_parts(root);
    if !parts_prefix(rs, ps) {
        Err("Path '"@ + start + "' is outside scan root '"@ + root + "'."@)
    } else if rs.len() == 0 && ps.len() > 0 && ps[0] is Root {
        Err("Failed to find ancestor path from '"@ + start + "' back to scan root '"@ + root + "'."@)
    } else {
        Ok(Seq::new((ps.len() - rs.len() + 1) as nat, |i: int| render(ps.subrange(0, ps.len() - i))))
    }
}

/// The directories from `start` up to `root` (see `spec_ancestors`).
pub fn ancestor_dirs_inclusive(start: &str, root: &str) -> (r: Result<Vec<String>, String>)
    ensures
        match r {
            Ok(v) => spec_ancestors(start@, root@) == Ok::<Seq<Seq<char>>, Seq<char>>(strs(v@)),
            Err(e) => spec_ancestors(start@, root@) == Err::<Seq<Seq<char>>, Seq<char>>(e@),
        },
{
    if !path_starts_with(start, root) {
        let r = concat_parts(&["Path '", start, "' is outside scan root '", root, "'."]);
        proof {
            reveal_with_fuel(concat_all, 6);
        }
        return Err(r);
    }
    let mut parts = path_parts(start);
    let rs = path_parts(root);
    let n = rs.len();
    let ghost ps = parts_view(parts@);
    if n == 0 && parts.len() > 0 {
        let first_is_root = match &parts[0] {
            PathPart::Root => true,
            _ => false,
        };
        assert(ps[0] == parts@[0]@);
        if first_is_root {
            let r = concat_parts(&["Failed to find ancestor path from '", start, "' back to scan root '", root, "'."]);
            proof {
                reveal_with_fuel(concat_all, 6);
            }
            return Err(r);
        }
    }
    let ghost total = ps.len();
    let mut out: Vec<String> = Vec::new();
    assert(parts_view(parts@) =~= ps.subrange(0, total as int));
    loop
        invariant_except_break
            out@.len() == total - parts@.len(),
            forall|i: int| 0 <= i < out@.len() ==> #[trigger] out@[i]@ == render(ps.subrange(0, total - i)),
        invariant
            n <= parts@.len() <= total,
            n == spec_path_parts(root@).len(),
            total == ps.len(),
            ps == spec_path_parts(start@),
            parts_view(parts@) == ps.subrange(0, parts@.len() as int),
        ensures
            out@.len() == total - n + 1,
            forall|i: int| 0 <= i < out@.len() ==> #[trigger] out@[i]@ == render(ps.subrange(0, total - i)),
        decreases parts@.len(),
    {
        let here = render_path(&parts);
        out.push(here);
        if parts.len() == n {
            break;
        }
        let ghost before = parts_view(parts@);
        parts.pop();
        assert(parts_view(parts@) =~= before.drop_last());
        assert(parts_view(parts@) =~= ps.subrange(0, parts@.len() as int));
    }
    let ghost expected = Seq::new((total - n + 1) as nat, |i: int| render(ps.subrange(0, total - i)));
    assert(strs(out@) =~= expected);
    Ok(out)
}

/// Whether `candidate_dir` lies strictly below `root_dir` at a path that
/// one of the workspace `patterns` matches.
pub open spec fn spec_dir_matches_workspace_patterns(root_dir: Seq<char>, candidate_dir: Seq<char>, patterns: Seq<String>) -> bool {
    match spec_relative_names(candidate_dir, root_dir) {
        Some(names) => names.len() > 0 && exists|i: int|
            0 <= i < patterns.len() && spec_parts_match(pattern_segments(#[trigger] patterns[i]@), names),
        None => false,
    }
}

/// Whether a workspace declared at `root_dir` covers `candidate_dir` (see
/// `spec_dir_matches_workspace_patterns`).
pub fn dir_matches_workspace_patterns(root_dir: &str, candidate_dir: &str, patterns: &Vec<String>) -> (b: bool)
    ensures
        b == spec_dir_matches_workspace_patterns(root_dir@, candidate_dir@, patterns@),
{
    let rel = relative_names(candidate_dir, root_dir);
    match &rel {
        Some(parts) => workspace_patterns_match(Some(parts), patterns),
        None => false,
    }
}

} // verus!
