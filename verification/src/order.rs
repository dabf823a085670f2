//! The order of `String`'s `Ord` (lexicographic by character), and sorted
//! sets of strings kept in vectors.
use vstd::prelude::*;
use crate::text::chars_of;

verus! {

/// `a < b` for strings: lexicographic by character, a proper prefix first.
pub open spec fn str_lt(a: Seq<char>, b: Seq<char>) -> bool
    decreases a.len(),
{
    if a.len() == 0 {
        b.len() > 0
    } else if b.len() == 0 {
        false
    } else if a[0] != b[0] {
        a[0] < b[0]
    } else {
        str_lt(a.drop_first(), b.drop_first())
    }
}

pub proof fn lemma_str_lt_irreflexive(a: Seq<char>)
    ensures
        !str_lt(a, a),
    decreases a.len(),
{
    if a.len() > 0 {
        lemma_str_lt_irreflexive(a.drop_first());
    }
}

pub proof fn lemma_str_lt_asym(a: Seq<char>, b: Seq<char>)
    ensures
        str_lt(a, b) ==> !str_lt(b, a),
    decreases a.len(),
{
    if a.len() > 0 && b.len() > 0 && a[0] == b[0] {
        lemma_str_lt_asym(a.drop_first(), b.drop_first());
    }
}

pub proof fn lemma_str_lt_trans(a: Seq<char>, b: Seq<char>, c: Seq<char>)
    requires
        str_lt(a, b),
        str_lt(b, c),
    ensures
        str_lt(a, c),
    decreases a.len(),
{
    if a.len() > 0 && b.len() > 0 && c.len() > 0 && a[0] == b[0] && b[0] == c[0] {
        lemma_str_lt_trans(a.drop_first(), b.drop_first(), c.drop_first());
    }
}

pub proof fn lemma_str_lt_total(a: Seq<char>, b: Seq<char>)
    ensures
        a != b ==> str_lt(a, b) || str_lt(b, a),
    decreases a.len(),
{
    if a.len() > 0 && b.len() > 0 && a[0] == b[0] {
        lemma_str_lt_total(a.drop_first(), b.drop_first());
        if a.drop_first() == b.drop_first() {
            assert(a == seq![a[0]] + a.drop_first());
            assert(b == seq![b[0]] + b.drop_first());
        }
    }
    if a.len() == 0 && b.len() == 0 {
        assert(a == b);
    }
}

proof fn lemma_str_lt_common_prefix(a: Seq<char>, b: Seq<char>, i: int)
    requires
        0 <= i <= a.len(),
        i <= b.len(),
        forall|k: int| 0 <= k < i ==> a[k] == b[k],
    ensures
        str_lt(a, b) == str_lt(a.subrange(i, a.len() as int), b.subrange(i, b.len() as int)),
    decreases i,
{
    if i > 0 {
        lemma_str_lt_common_prefix(a.drop_first(), b.drop_first(), i - 1);
        assert(a.drop_first().subrange(i - 1, a.len() - 1) == a.subrange(i, a.len() as int));
        assert(b.drop_first().subrange(i - 1, b.len() - 1) == b.subrange(i, b.len() as int));
    } else {
        assert(a.subrange(0, a.len() as int) == a);
        assert(b.subrange(0, b.len() as int) == b);
    }
}

/// `a < b` as `String`'s `Ord` compares them.
pub fn str_less(a: &str, b: &str) -> (r: bool)
    ensures
        r == str_lt(a@, b@),
{
    let va = chars_of(a);
    let vb = chars_of(b);
    let mut i: usize = 0;
    while i < va.len() && i < vb.len() && va[i] == vb[i]
        invariant
            i <= va@.len(),
            i <= vb@.len(),
            forall|k: int| 0 <= k < i ==> va@[k] == vb@[k],
        decreases va.len() - i,
    {
        i = i + 1;
    }
    proof {
        lemma_str_lt_common_prefix(va@, vb@, i as int);
        let sa = va@.subrange(i as int, va@.len() as int);
        let sb = vb@.subrange(i as int, vb@.len() as int);
        if sa.len() > 0 && sb.len() > 0 {
            assert(sa[0] == va@[i as int]);
            assert(sb[0] == vb@[i as int]);
        }
    }
    if i == va.len() {
        i < vb.len()
    } else if i == vb.len() {
        false
    } else {
        va[i] < vb[i]
    }
}

/// Strictly increasing.
pub open spec fn sorted_strict(l: Seq<Seq<char>>) -> bool {
    forall|i: int, j: int| 0 <= i < j < l.len() ==> str_lt(#[trigger] l[i], #[trigger] l[j])
}

/// `l` with `x` added at its place in the order, unless `x` is there.
pub open spec fn sorted_insert(l: Seq<Seq<char>>, x: Seq<char>) -> Seq<Seq<char>>
    decreases l.len(),
{
    if l.len() == 0 {
        seq![x]
    } else if l[0] == x {
        l
    } else if str_lt(x, l[0]) {
        seq![x] + l
    } else {
        seq![l[0]] + sorted_insert(l.drop_first(), x)
    }
}

proof fn lemma_sorted_insert_at(l: Seq<Seq<char>>, x: Seq<char>, i: int)
    requires
        0 <= i <= l.len(),
        forall|k: int| 0 <= k < i ==> l[k] != x && !str_lt(x, l[k]),
        i == l.len() || l[i] == x || str_lt(x, l[i]),
    ensures
        sorted_insert(l, x) == (if i < l.len() && l[i] == x {
            l
        } else {
            l.subrange(0, i).push(x) + l.subrange(i, l.len() as int)
        }),
    decreases i,
{
    if i > 0 {
        let t = l.drop_first();
        assert forall|k: int| 0 <= k < i - 1 implies t[k] != x && !str_lt(x, t[k]) by {
            assert(t[k] == l[k + 1]);
        }
        if i < l.len() {
            assert(t[i - 1] == l[i]);
        }
        lemma_sorted_insert_at(t, x, i - 1);
        if i < l.len() && l[i] == x {
            assert(seq![l[0]] + t == l);
        } else {
            assert(seq![l[0]] + (t.subrange(0, i - 1).push(x) + t.subrange(i - 1, t.len() as int))
                == l.subrange(0, i).push(x) + l.subrange(i, l.len() as int));
        }
    } else {
        if l.len() == 0 {
            assert(l.subrange(0, 0).push(x) + l.subrange(0, 0) == seq![x]);
        } else if l[0] != x {
            assert(l.subrange(0, 0).push(x) + l.subrange(0, l.len() as int) == seq![x] + l);
        }
    }
}

/// Adding to a strictly increasing list keeps it so, and adds just `x`.
pub proof fn lemma_sorted_insert_sorted(l: Seq<Seq<char>>, x: Seq<char>)
    requires
        sorted_strict(l),
    ensures
        sorted_strict(sorted_insert(l, x)),
        sorted_insert(l, x).to_set() == l.to_set().insert(x),
    decreases l.len(),
{
    let r = sorted_insert(l, x);
    if l.len() == 0 {
        assert(r.to_set() =~= l.to_set().insert(x)) by {
            assert forall|y: Seq<char>| r.to_set().contains(y) <==> l.to_set().insert(x).contains(y) by {
                if r.contains(y) {
                    assert(r[0] == y);
                }
                if y == x {
                    assert(r[0] == x);
                }
            }
        }
    } else if l[0] == x {
        assert(l.to_set().contains(x));
        assert(r.to_set() =~= l.to_set().insert(x));
    } else if str_lt(x, l[0]) {
        assert forall|i: int, j: int| 0 <= i < j < r.len() implies str_lt(#[trigger] r[i], #[trigger] r[j]) by {
            if i == 0 {
                assert(r[j] == l[j - 1]);
                if j - 1 > 0 {
                    assert(str_lt(l[0], l[j - 1]));
                    lemma_str_lt_trans(x, l[0], l[j - 1]);
                }
            } else {
                assert(r[i] == l[i - 1] && r[j] == l[j - 1]);
            }
        }
        assert forall|y: Seq<char>| r.to_set().contains(y) <==> l.to_set().insert(x).contains(y) by {
            if r.contains(y) {
                let k = choose|k: int| 0 <= k < r.len() && r[k] == y;
                if k > 0 {
                    assert(l[k - 1] == y);
                }
            }
            if l.contains(y) {
                let k = choose|k: int| 0 <= k < l.len() && l[k] == y;
                assert(r[k + 1] == y);
            }
            if y == x {
                assert(r[0] == x);
            }
        }
        assert(r.to_set() =~= l.to_set().insert(x));
    } else {
        let t = l.drop_first();
        assert forall|i: int, j: int| 0 <= i < j < t.len() implies str_lt(#[trigger] t[i], #[trigger] t[j]) by {
            assert(t[i] == l[i + 1] && t[j] == l[j + 1]);
        }
        lemma_sorted_insert_sorted(t, x);
        let rt = sorted_insert(t, x);
        lemma_str_lt_total(x, l[0]);
        assert(str_lt(l[0], x));
        assert forall|i: int, j: int| 0 <= i < j < r.len() implies str_lt(#[trigger] r[i], #[trigger] r[j]) by {
            if i == 0 {
                assert(r[j] == rt[j - 1]);
                assert(rt.to_set().contains(rt[j - 1]));
                assert(t.to_set().insert(x).contains(rt[j - 1]));
                if rt[j - 1] != x {
                    let k = choose|k: int| 0 <= k < t.len() && t[k] == rt[j - 1];
                    assert(t[k] == l[k + 1]);
                }
            } else {
                assert(r[i] == rt[i - 1] && r[j] == rt[j - 1]);
            }
        }
        assert forall|y: Seq<char>| r.to_set().contains(y) <==> l.to_set().insert(x).contains(y) by {
            assert(rt.to_set().contains(y) <==> t.to_set().insert(x).contains(y));
            if r.contains(y) {
                let k = choose|k: int| 0 <= k < r.len() && r[k] == y;
                if k > 0 {
                    assert(rt[k - 1] == y);
                    assert(rt.to_set().contains(y));
                    if y != x {
                        let m = choose|m: int| 0 <= m < t.len() && t[m] == y;
                        assert(l[m + 1] == y);
                    }
                }
            }
            if l.contains(y) {
                let k = choose|k: int| 0 <= k < l.len() && l[k] == y;
                if k > 0 {
                    assert(t[k - 1] == y);
                    assert(t.to_set().contains(y));
                    assert(rt.to_set().contains(y));
                    let m = choose|m: int| 0 <= m < rt.len() && rt[m] == y;
                    assert(r[m + 1] == y);
                }
            }
            if y == x {
                assert(rt.to_set().contains(x));
                let m = choose|m: int| 0 <= m < rt.len() && rt[m] == x;
                assert(r[m + 1] == x);
            }
        }
        assert(r.to_set() =~= l.to_set().insert(x));
    }
}

pub open spec fn svs(s: Seq<String>) -> Seq<Seq<char>> {
    s.map_values(|x: String| x@)
}

/// Adds `x` to the strictly increasing `l` at its place, unless it is there.
pub fn insert_sorted(l: &mut Vec<String>, x: String)
    ensures
        svs(final(l)@) == sorted_insert(svs(old(l)@), x@),
{
    let ghost s = svs(l@);
    let mut i: usize = 0;
    while i < l.len() && str_less(l[i].as_str(), x.as_str())
        invariant
            i <= l@.len(),
            s == svs(l@),
            forall|k: int| 0 <= k < i ==> str_lt(l@[k]@, x@),
        decreases l.len() - i,
    {
        i = i + 1;
    }
    proof {
        assert forall|k: int| 0 <= k < i implies s[k] != x@ && !str_lt(x@, s[k]) by {
            lemma_str_lt_irreflexive(x@);
            lemma_str_lt_asym(s[k], x@);
        }
        if i < l@.len() {
            lemma_str_lt_total(s[i as int], x@);
        }
        lemma_sorted_insert_at(s, x@, i as int);
    }
    if i < l.len() && crate::text::str_eq(l[i].as_str(), x.as_str()) {
        return ;
    }
    l.insert(i, x);
    assert(svs(l@) =~= s.subrange(0, i as int).push(x@) + s.subrange(i as int, s.len() as int));
}

} // verus!
