//! Character-level text model shared by the lockfile parsers.
//!
//! Text is viewed as `Seq<char>`. The spec functions here say what the
//! standard string operations used by the parsers mean (`trim`, `lines`,
//! `split_once`, `starts_with`, ...), and the executable helpers compute them
//! on a `Vec<char>` copy of the input.
use vstd::prelude::*;

verus! {

/// Unicode `White_Space`, the set that `char::is_whitespace` tests.
pub open spec fn is_ws(c: char) -> bool {
    ||| c == ' '
    ||| ('\t' <= c && c <= '\r')
    ||| c == '\u{85}'
    ||| c == '\u{A0}'
    ||| c == '\u{1680}'
    ||| ('\u{2000}' <= c && c <= '\u{200A}')
    ||| c == '\u{2028}'
    ||| c == '\u{2029}'
    ||| c == '\u{202F}'
    ||| c == '\u{205F}'
    ||| c == '\u{3000}'
}

/// Number of leading characters of `s` that satisfy `p`.
pub open spec fn lead_count(s: Seq<char>, p: spec_fn(char) -> bool) -> nat
    decreases s.len(),
{
    if s.len() > 0 && p(s[0]) {
        1 + lead_count(s.drop_first(), p)
    } else {
        0
    }
}

/// Number of trailing characters of `s` that satisfy `p`.
pub open spec fn trail_count(s: Seq<char>, p: spec_fn(char) -> bool) -> nat
    decreases s.len(),
{
    if s.len() > 0 && p(s.last()) {
        1 + trail_count(s.drop_last(), p)
    } else {
        0
    }
}

pub open spec fn ws_pred() -> spec_fn(char) -> bool {
    |c: char| is_ws(c)
}

pub open spec fn eq_pred(x: char) -> spec_fn(char) -> bool {
    |c: char| c == x
}

/// `s` without the leading characters that satisfy `p`.
pub open spec fn strip_lead(s: Seq<char>, p: spec_fn(char) -> bool) -> Seq<char> {
    s.subrange(lead_count(s, p) as int, s.len() as int)
}

/// `s` without the trailing characters that satisfy `p`.
pub open spec fn strip_trail(s: Seq<char>, p: spec_fn(char) -> bool) -> Seq<char> {
    s.subrange(0, s.len() - trail_count(s, p))
}

/// `str::trim`.
pub open spec fn trim(s: Seq<char>) -> Seq<char> {
    strip_trail(strip_lead(s, ws_pred()), ws_pred())
}

/// `str::trim_start_matches(c)` for a single character.
pub open spec fn trim_start_char(s: Seq<char>, c: char) -> Seq<char> {
    strip_lead(s, eq_pred(c))
}

/// `str::trim_end_matches(c)` for a single character.
pub open spec fn trim_end_char(s: Seq<char>, c: char) -> Seq<char> {
    strip_trail(s, eq_pred(c))
}

/// Index of the first `c` in `s`, or `s.len()` when there is none.
pub open spec fn index_of(s: Seq<char>, c: char) -> nat
    decreases s.len(),
{
    if s.len() == 0 {
        0
    } else if s[0] == c {
        0
    } else {
        1 + index_of(s.drop_first(), c)
    }
}

/// `str::split_once(c)` for a single character.
pub open spec fn split_once(s: Seq<char>, c: char) -> Option<(Seq<char>, Seq<char>)> {
    let i = index_of(s, c);
    if i < s.len() {
        Some((s.subrange(0, i as int), s.subrange(i as int + 1, s.len() as int)))
    } else {
        None
    }
}

/// `str::starts_with`.
pub open spec fn starts_with(s: Seq<char>, p: Seq<char>) -> bool {
    p.len() <= s.len() && s.subrange(0, p.len() as int) == p
}

/// `str::ends_with`.
pub open spec fn ends_with(s: Seq<char>, p: Seq<char>) -> bool {
    p.len() <= s.len() && s.subrange(s.len() - p.len(), s.len() as int) == p
}

/// `str::strip_prefix`.
pub open spec fn strip_prefix(s: Seq<char>, p: Seq<char>) -> Option<Seq<char>> {
    if starts_with(s, p) {
        Some(s.subrange(p.len() as int, s.len() as int))
    } else {
        None
    }
}

/// `s` with one trailing `'\r'` removed, as `str::lines` does before a `'\n'`.
pub open spec fn strip_cr(l: Seq<char>) -> Seq<char> {
    if l.len() > 0 && l.last() == '\r' {
        l.drop_last()
    } else {
        l
    }
}

/// `str::lines`: split at `'\n'`; a line that ended in `"\r\n"` loses the
/// `'\r'`; a final line ending adds no empty line.
pub open spec fn lines(s: Seq<char>) -> Seq<Seq<char>>
    decreases s.len(),
{
    if s.len() == 0 {
        seq![]
    } else {
        let i = index_of(s, '\n');
        if i >= s.len() {
            seq![s]
        } else {
            seq![strip_cr(s.subrange(0, i as int))] + lines(s.subrange(i as int + 1, s.len() as int))
        }
    }
}

pub proof fn lemma_lead_count_bound(s: Seq<char>, p: spec_fn(char) -> bool)
    ensures
        lead_count(s, p) <= s.len(),
    decreases s.len(),
{
    if s.len() > 0 && p(s[0]) {
        lemma_lead_count_bound(s.drop_first(), p);
    }
}

pub proof fn lemma_trail_count_bound(s: Seq<char>, p: spec_fn(char) -> bool)
    ensures
        trail_count(s, p) <= s.len(),
    decreases s.len(),
{
    if s.len() > 0 && p(s.last()) {
        lemma_trail_count_bound(s.drop_last(), p);
    }
}

pub proof fn lemma_lead_count_exact(s: Seq<char>, p: spec_fn(char) -> bool, n: int)
    requires
        0 <= n <= s.len(),
        forall|k: int| 0 <= k < n ==> #[trigger] p(s[k]),
        n == s.len() || !p(s[n]),
    ensures
        lead_count(s, p) == n,
    decreases n,
{
    if n > 0 {
        let t = s.drop_first();
        assert forall|k: int| 0 <= k < n - 1 implies #[trigger] p(t[k]) by {
            assert(t[k] == s[k + 1]);
        }
        if n - 1 < t.len() {
            assert(t[n - 1] == s[n]);
        }
        lemma_lead_count_exact(t, p, n - 1);
    }
}

pub proof fn lemma_trail_count_exact(s: Seq<char>, p: spec_fn(char) -> bool, n: int)
    requires
        0 <= n <= s.len(),
        forall|k: int| s.len() - n <= k < s.len() ==> #[trigger] p(s[k]),
        n == s.len() || !p(s[s.len() - n - 1]),
    ensures
        trail_count(s, p) == n,
    decreases n,
{
    if n > 0 {
        let t = s.drop_last();
        assert(p(s[s.len() - 1]));
        assert forall|k: int| t.len() - (n - 1) <= k < t.len() implies #[trigger] p(t[k]) by {
            assert(t[k] == s[k]);
        }
        if n - 1 < t.len() {
            assert(t[t.len() - (n - 1) - 1] == s[s.len() - n - 1]);
        }
        lemma_trail_count_exact(t, p, n - 1);
    }
}

pub proof fn lemma_index_of_exact(s: Seq<char>, c: char, n: int)
    requires
        0 <= n <= s.len(),
        forall|k: int| 0 <= k < n ==> s[k] != c,
        n == s.len() || s[n] == c,
    ensures
        index_of(s, c) == n,
    decreases n,
{
    if n > 0 {
        let t = s.drop_first();
        assert(s[0] != c);
        assert forall|k: int| 0 <= k < n - 1 implies t[k] != c by {
            assert(t[k] == s[k + 1]);
        }
        if n - 1 < t.len() {
            assert(t[n - 1] == s[n]);
        }
        lemma_index_of_exact(t, c, n - 1);
    }
}

pub proof fn lemma_index_of_bound(s: Seq<char>, c: char)
    ensures
        index_of(s, c) <= s.len(),
        index_of(s, c) < s.len() ==> s[index_of(s, c) as int] == c,
        forall|k: int| 0 <= k < index_of(s, c) ==> s[k] != c,
    decreases s.len(),
{
    if s.len() > 0 && s[0] != c {
        let t = s.drop_first();
        lemma_index_of_bound(t, c);
        assert forall|k: int| 0 <= k < index_of(s, c) implies s[k] != c by {
            if k > 0 {
                assert(s[k] == t[k - 1]);
            }
        }
    }
}

/// A copy of the characters of `s`.
pub fn chars_of(s: &str) -> (v: Vec<char>)
    ensures
        v@ == s@,
{
    let mut v: Vec<char> = Vec::new();
    for c in it: s.chars()
        invariant
            v@ == it.seq().take(it.index() as int),
            it.seq() == s@,
    {
        v.push(c);
    }
    v
}

/// `std::string::String::push`.
#[verifier::external_body]
pub(crate) fn string_push(s: &mut String, c: char)
    ensures
        final(s)@ == old(s)@.push(c),
{
    s.push(c);
}

/// A `String` holding `v[lo..hi]`.
pub fn string_of_range(v: &Vec<char>, lo: usize, hi: usize) -> (s: String)
    requires
        lo <= hi <= v.len(),
    ensures
        s@ == v@.subrange(lo as int, hi as int),
{
    let mut s = String::new();
    let mut i = lo;
    while i < hi
        invariant
            lo <= i <= hi <= v.len(),
            s@ == v@.subrange(lo as int, i as int),
        decreases hi - i,
    {
        string_push(&mut s, v[i]);
        assert(v@.subrange(lo as int, i + 1) == v@.subrange(lo as int, i as int).push(v@[i as int]));
        i = i + 1;
    }
    s
}

/// A `String` holding all of `v`.
pub fn string_of_chars(v: &Vec<char>) -> (s: String)
    ensures
        s@ == v@,
{
    let s = string_of_range(v, 0, v.len());
    assert(v@.subrange(0, v.len() as int) == v@);
    s
}

/// A new `String` equal to `s`.
pub fn string_of_str(s: &str) -> (r: String)
    ensures
        r@ == s@,
{
    let v = chars_of(s);
    string_of_chars(&v)
}

/// `a` followed by `b`.
pub fn concat(a: &str, b: &str) -> (r: String)
    ensures
        r@ == a@ + b@,
{
    let mut r = string_of_str(a);
    let v = chars_of(b);
    let mut i: usize = 0;
    while i < v.len()
        invariant
            i <= v.len(),
            v@ == b@,
            r@ == a@ + v@.subrange(0, i as int),
        decreases v.len() - i,
    {
        string_push(&mut r, v[i]);
        assert(v@.subrange(0, i + 1) == v@.subrange(0, i as int).push(v@[i as int]));
        i = i + 1;
    }
    assert(v@.subrange(0, v.len() as int) == v@);
    r
}

/// Appends `b` to `a`.
pub fn push_str(a: &mut String, b: &str)
    ensures
        final(a)@ == old(a)@ + b@,
{
    let v = chars_of(b);
    let mut i: usize = 0;
    while i < v.len()
        invariant
            i <= v.len(),
            v@ == b@,
            a@ == old(a)@ + v@.subrange(0, i as int),
        decreases v.len() - i,
    {
        string_push(a, v[i]);
        assert(v@.subrange(0, i + 1) == v@.subrange(0, i as int).push(v@[i as int]));
        i = i + 1;
    }
    assert(v@.subrange(0, v.len() as int) == v@);
}

/// `char::is_whitespace`.
pub fn is_whitespace(c: char) -> (b: bool)
    ensures
        b == is_ws(c),
{
    c == ' ' || ('\t' <= c && c <= '\r') || c == '\u{85}' || c == '\u{A0}' || c == '\u{1680}'
        || ('\u{2000}' <= c && c <= '\u{200A}') || c == '\u{2028}' || c == '\u{2029}'
        || c == '\u{202F}' || c == '\u{205F}' || c == '\u{3000}'
}

/// Bounds of `trim(v[lo..hi])` inside `v`.
pub fn trim_range(v: &Vec<char>, lo: usize, hi: usize) -> (r: (usize, usize))
    requires
        lo <= hi <= v.len(),
    ensures
        lo <= r.0 <= r.1 <= hi,
        v@.subrange(r.0 as int, r.1 as int) == trim(v@.subrange(lo as int, hi as int)),
{
    let ghost s = v@.subrange(lo as int, hi as int);
    let mut a = lo;
    while a < hi && is_whitespace(v[a])
        invariant
            lo <= a <= hi <= v.len(),
            s == v@.subrange(lo as int, hi as int),
            forall|k: int| lo <= k < a ==> is_ws(#[trigger] v@[k]),
        decreases hi - a,
    {
        a = a + 1;
    }
    proof {
        assert forall|k: int| 0 <= k < a - lo implies #[trigger] ws_pred()(s[k]) by {
            assert(s[k] == v@[lo + k]);
        }
        if a < hi {
            assert(s[a - lo] == v@[a as int]);
        }
        lemma_lead_count_exact(s, ws_pred(), a - lo);
        assert(strip_lead(s, ws_pred()) == v@.subrange(a as int, hi as int));
    }
    let ghost t = v@.subrange(a as int, hi as int);
    let mut b = hi;
    while b > a && is_whitespace(v[b - 1])
        invariant
            lo <= a <= b <= hi <= v.len(),
            t == v@.subrange(a as int, hi as int),
            forall|k: int| b <= k < hi ==> is_ws(#[trigger] v@[k]),
        decreases b - a,
    {
        b = b - 1;
    }
    proof {
        assert forall|k: int| t.len() - (hi - b) <= k < t.len() implies #[trigger] ws_pred()(
            t[k],
        ) by {
            assert(t[k] == v@[a + k]);
        }
        if b > a {
            assert(t[t.len() - (hi - b) - 1] == v@[b - 1]);
        }
        lemma_trail_count_exact(t, ws_pred(), hi - b);
        assert(strip_trail(t, ws_pred()) == v@.subrange(a as int, b as int));
    }
    (a, b)
}

/// Bounds of `trim_start_matches(c)` then `trim_end_matches(d)` of `v[lo..hi]`.
pub fn trim_chars_range(v: &Vec<char>, lo: usize, hi: usize, c: char, d: char) -> (r: (
    usize,
    usize,
))
    requires
        lo <= hi <= v.len(),
    ensures
        lo <= r.0 <= r.1 <= hi,
        v@.subrange(r.0 as int, r.1 as int) == trim_end_char(
            trim_start_char(v@.subrange(lo as int, hi as int), c),
            d,
        ),
{
    let ghost s = v@.subrange(lo as int, hi as int);
    let mut a = lo;
    while a < hi && v[a] == c
        invariant
            lo <= a <= hi <= v.len(),
            s == v@.subrange(lo as int, hi as int),
            forall|k: int| lo <= k < a ==> #[trigger] v@[k] == c,
        decreases hi - a,
    {
        a = a + 1;
    }
    proof {
        assert forall|k: int| 0 <= k < a - lo implies #[trigger] eq_pred(c)(s[k]) by {
            assert(s[k] == v@[lo + k]);
        }
        if a < hi {
            assert(s[a - lo] == v@[a as int]);
        }
        lemma_lead_count_exact(s, eq_pred(c), a - lo);
        assert(trim_start_char(s, c) == v@.subrange(a as int, hi as int));
    }
    let ghost t = v@.subrange(a as int, hi as int);
    let mut b = hi;
    while b > a && v[b - 1] == d
        invariant
            lo <= a <= b <= hi <= v.len(),
            t == v@.subrange(a as int, hi as int),
            forall|k: int| b <= k < hi ==> #[trigger] v@[k] == d,
        decreases b - a,
    {
        b = b - 1;
    }
    proof {
        assert forall|k: int| t.len() - (hi - b) <= k < t.len() implies #[trigger] eq_pred(d)(
            t[k],
        ) by {
            assert(t[k] == v@[a + k]);
        }
        if b > a {
            assert(t[t.len() - (hi - b) - 1] == v@[b - 1]);
        }
        lemma_trail_count_exact(t, eq_pred(d), hi - b);
        assert(trim_end_char(t, d) == v@.subrange(a as int, b as int));
    }
    (a, b)
}

/// Position of the first `c` in `v[lo..hi]` (absolute), or `hi`.
pub fn find_char(v: &Vec<char>, lo: usize, hi: usize, c: char) -> (i: usize)
    requires
        lo <= hi <= v.len(),
    ensures
        lo <= i <= hi,
        i - lo == index_of(v@.subrange(lo as int, hi as int), c),
{
    let mut i = lo;
    while i < hi && v[i] != c
        invariant
            lo <= i <= hi <= v.len(),
            forall|k: int| lo <= k < i ==> v@[k] != c,
        decreases hi - i,
    {
        i = i + 1;
    }
    proof {
        let s = v@.subrange(lo as int, hi as int);
        assert forall|k: int| 0 <= k < i - lo implies s[k] != c by {
            assert(s[k] == v@[lo + k]);
        }
        if i < hi {
            assert(s[i - lo] == v@[i as int]);
        }
        lemma_index_of_exact(s, c, i - lo);
    }
    i
}

/// The first line of `v[pos..]` as `(lo, hi)` and where the rest begins.
pub fn line_at(v: &Vec<char>, pos: usize) -> (r: (usize, usize, usize))
    requires
        pos < v.len(),
    ensures
        pos <= r.0 <= r.1 <= v.len(),
        pos < r.2 <= v.len(),
        lines(v@.subrange(pos as int, v.len() as int)) == seq![
            v@.subrange(r.0 as int, r.1 as int),
        ] + lines(v@.subrange(r.2 as int, v.len() as int)),
{
    let n = v.len();
    let e = find_char(v, pos, n, '\n');
    let ghost s = v@.subrange(pos as int, n as int);
    proof {
        lemma_index_of_bound(s, '\n');
    }
    if e == n {
        proof {
            assert(lines(s) == seq![s]);
            assert(v@.subrange(n as int, n as int) == Seq::<char>::empty());
            assert(lines(v@.subrange(n as int, n as int)) == Seq::<Seq<char>>::empty());
            assert(seq![s] + Seq::<Seq<char>>::empty() == seq![s]);
        }
        (pos, n, n)
    } else {
        let hi = if e > pos && v[e - 1] == '\r' {
            e - 1
        } else {
            e
        };
        proof {
            assert(s.subrange(0, (e - pos) as int) == v@.subrange(pos as int, e as int));
            assert(s.subrange(e - pos + 1, s.len() as int) == v@.subrange(e + 1, n as int));
            let l = v@.subrange(pos as int, e as int);
            if e > pos && v@[e - 1] == '\r' {
                assert(l.last() == v@[e - 1]);
                assert(strip_cr(l) == v@.subrange(pos as int, hi as int));
            } else {
                assert(strip_cr(l) == l);
            }
        }
        (pos, hi, e + 1)
    }
}

/// Whether `v[lo..hi] == p`.
pub fn range_eq(v: &Vec<char>, lo: usize, hi: usize, p: &Vec<char>) -> (b: bool)
    requires
        lo <= hi <= v.len(),
    ensures
        b == (v@.subrange(lo as int, hi as int) == p@),
{
    if hi - lo != p.len() {
        proof {
            if v@.subrange(lo as int, hi as int) == p@ {
                assert(v@.subrange(lo as int, hi as int).len() == p@.len());
            }
        }
        return false;
    }
    let mut i: usize = 0;
    while i < p.len()
        invariant
            lo <= hi <= v.len(),
            hi - lo == p.len(),
            i <= p.len(),
            forall|k: int| 0 <= k < i ==> v@[lo + k] == p@[k],
        decreases p.len() - i,
    {
        if v[lo + i] != p[i] {
            proof {
                assert(v@.subrange(lo as int, hi as int)[i as int] == v@[lo + i]);
            }
            return false;
        }
        i = i + 1;
    }
    assert(v@.subrange(lo as int, hi as int) =~= p@);
    true
}

/// Whether `v[lo..hi]` starts with `p`.
pub fn range_starts_with(v: &Vec<char>, lo: usize, hi: usize, p: &Vec<char>) -> (b: bool)
    requires
        lo <= hi <= v.len(),
    ensures
        b == starts_with(v@.subrange(lo as int, hi as int), p@),
{
    if hi - lo < p.len() {
        return false;
    }
    let r = range_eq(v, lo, lo + p.len(), p);
    assert(v@.subrange(lo as int, hi as int).subrange(0, p.len() as int) == v@.subrange(
        lo as int,
        lo + p.len(),
    ));
    r
}

/// Whether `v[lo..hi]` ends with `p`.
pub fn range_ends_with(v: &Vec<char>, lo: usize, hi: usize, p: &Vec<char>) -> (b: bool)
    requires
        lo <= hi <= v.len(),
    ensures
        b == ends_with(v@.subrange(lo as int, hi as int), p@),
{
    if hi - lo < p.len() {
        return false;
    }
    let r = range_eq(v, hi - p.len(), hi, p);
    let ghost s = v@.subrange(lo as int, hi as int);
    assert(s.subrange(s.len() - p.len(), s.len() as int) == v@.subrange(hi - p.len(), hi as int));
    r
}

/// Whether `v[lo..hi]` contains `c`.
pub fn range_contains_char(v: &Vec<char>, lo: usize, hi: usize, c: char) -> (b: bool)
    requires
        lo <= hi <= v.len(),
    ensures
        b == v@.subrange(lo as int, hi as int).contains(c),
{
    let i = find_char(v, lo, hi, c);
    proof {
        let s = v@.subrange(lo as int, hi as int);
        lemma_index_of_bound(s, c);
        if i < hi {
            assert(s[i - lo] == c);
        } else {
            assert forall|k: int| 0 <= k < s.len() implies s[k] != c by {}
        }
    }
    i < hi
}

/// Whether the text of `a` equals the text of `b`.
pub fn str_eq(a: &str, b: &str) -> (r: bool)
    ensures
        r == (a@ == b@),
{
    let va = chars_of(a);
    let vb = chars_of(b);
    let r = range_eq(&va, 0, va.len(), &vb);
    assert(va@.subrange(0, va.len() as int) == va@);
    r
}

/// `char::to_ascii_lowercase`.
pub open spec fn lower_char(c: char) -> char {
    if 'A' <= c && c <= 'Z' {
        ((c as u32) + 32) as char
    } else {
        c
    }
}

/// `str::to_ascii_lowercase`.
pub open spec fn ascii_lower(s: Seq<char>) -> Seq<char> {
    s.map_values(|c: char| lower_char(c))
}

pub fn lower_ascii_char(c: char) -> (r: char)
    ensures
        r == lower_char(c),
{
    if 'A' <= c && c <= 'Z' {
        ((c as u8) + 32) as char
    } else {
        c
    }
}

/// `str::to_ascii_lowercase`.
pub fn to_ascii_lowercase(s: &str) -> (r: String)
    ensures
        r@ == ascii_lower(s@),
{
    let v = chars_of(s);
    let mut r = String::new();
    let mut i: usize = 0;
    while i < v.len()
        invariant
            i <= v@.len(),
            v@ == s@,
            r@ == ascii_lower(v@.subrange(0, i as int)),
        decreases v.len() - i,
    {
        string_push(&mut r, lower_ascii_char(v[i]));
        assert(ascii_lower(v@.subrange(0, i + 1)) =~= ascii_lower(v@.subrange(0, i as int)).push(
            lower_char(v@[i as int]),
        ));
        i = i + 1;
    }
    assert(v@.subrange(0, v@.len() as int) == v@);
    r
}

// ---- substring search ----
/// `p` occurs in `s` at `k`.
pub open spec fn occurs_at(s: Seq<char>, p: Seq<char>, k: int) -> bool {
    s.subrange(k, k + p.len()) == p
}

/// Index of the first occurrence of `p` in `s` at or after `k`, or
/// `s.len()`.
pub open spec fn find_from(s: Seq<char>, p: Seq<char>, k: int) -> int
    decreases s.len() - k,
{
    if k < 0 || k >= s.len() || k + p.len() > s.len() {
        s.len() as int
    } else if occurs_at(s, p, k) {
        k
    } else {
        find_from(s, p, k + 1)
    }
}

/// Index of the first occurrence of `p` in `s`, or `s.len()`.
pub open spec fn find_seq(s: Seq<char>, p: Seq<char>) -> int {
    find_from(s, p, 0)
}

pub proof fn lemma_find_from_at(s: Seq<char>, p: Seq<char>, k0: int, n: int)
    requires
        0 <= k0 <= n,
        n + p.len() <= s.len(),
        forall|j: int| k0 <= j < n ==> !#[trigger] occurs_at(s, p, j),
        n == s.len() || occurs_at(s, p, n),
    ensures
        find_from(s, p, k0) == n,
    decreases n - k0,
{
    if k0 < n {
        assert(!occurs_at(s, p, k0));
        lemma_find_from_at(s, p, k0 + 1, n);
    }
}

pub proof fn lemma_find_from_absent(s: Seq<char>, p: Seq<char>, k0: int)
    requires
        0 <= k0,
        forall|j: int| k0 <= j && j + p.len() <= s.len() ==> !#[trigger] occurs_at(s, p, j),
    ensures
        find_from(s, p, k0) == s.len(),
    decreases s.len() - k0,
{
    if k0 < s.len() && k0 + p.len() <= s.len() {
        assert(!occurs_at(s, p, k0));
        lemma_find_from_absent(s, p, k0 + 1);
    }
}

/// Position of the first `pat` in `v[lo..hi]` (absolute), if it occurs.
pub fn find_pattern(v: &Vec<char>, lo: usize, hi: usize, pat: &Vec<char>) -> (r: Option<usize>)
    requires
        lo <= hi <= v.len(),
    ensures
        r is None ==> find_seq(v@.subrange(lo as int, hi as int), pat@) == hi - lo,
        r matches Some(k) ==> lo <= k && k + pat@.len() <= hi && find_seq(v@.subrange(lo as int, hi as int), pat@) == k - lo,
{
    let ghost l = v@.subrange(lo as int, hi as int);
    let mut k = lo;
    while k < hi && hi - k >= pat.len() && !range_eq(v, k, k + pat.len(), pat)
        invariant
            lo <= k <= hi <= v.len(),
            l == v@.subrange(lo as int, hi as int),
            forall|j: int| 0 <= j < k - lo ==> !#[trigger] occurs_at(l, pat@, j),
        decreases hi - k,
    {
        assert(l.subrange(k - lo, k - lo + pat@.len()) =~= v@.subrange(k as int, k + pat@.len()));
        assert(!occurs_at(l, pat@, k - lo));
        k = k + 1;
    }
    if hi - k >= pat.len() {
        proof {
            assert(l.subrange(k - lo, k - lo + pat@.len()) =~= v@.subrange(k as int, k + pat@.len()));
            if k == hi {
                assert(v@.subrange(k as int, k + pat@.len()) =~= pat@);
            }
            lemma_find_from_at(l, pat@, 0, k - lo);
        }
        Some(k)
    } else {
        proof {
            lemma_find_from_absent(l, pat@, 0);
        }
        None
    }
}

/// `str::contains` for a pattern string.
pub open spec fn contains_seq(s: Seq<char>, p: Seq<char>) -> bool {
    find_seq(s, p) + p.len() <= s.len()
}

/// `str::contains` for a pattern string.
pub fn str_contains(s: &str, p: &str) -> (b: bool)
    ensures
        b == contains_seq(s@, p@),
{
    let v = chars_of(s);
    let pat = chars_of(p);
    assert(v@.subrange(0, v@.len() as int) == v@);
    if pat.len() == 0 {
        assert(s@.subrange(0, 0) =~= p@);
        return true;
    }
    match find_pattern(&v, 0, v.len(), &pat) {
        Some(_) => true,
        None => {
            proof {
                lemma_find_seq_bound(s@, p@);
            }
            false
        },
    }
}

pub proof fn lemma_find_seq_bound(s: Seq<char>, p: Seq<char>)
    ensures
        0 <= find_seq(s, p) <= s.len(),
{
    lemma_find_from_bound(s, p, 0);
}

pub proof fn lemma_find_from_bound(s: Seq<char>, p: Seq<char>, k: int)
    requires
        0 <= k,
    ensures
        k <= find_from(s, p, k) <= s.len() || find_from(s, p, k) == s.len(),
        0 <= find_from(s, p, k) <= s.len(),
    decreases s.len() - k,
{
    if !(k < 0 || k >= s.len() || k + p.len() > s.len()) && !occurs_at(s, p, k) {
        lemma_find_from_bound(s, p, k + 1);
    }
}

/// Index of the last occurrence of `p` in `s` at or before `k`, or `-1`.
pub open spec fn rfind_from(s: Seq<char>, p: Seq<char>, k: int) -> int
    decreases k + 1,
{
    if k < 0 {
        -1
    } else if k + p.len() <= s.len() && occurs_at(s, p, k) {
        k
    } else {
        rfind_from(s, p, k - 1)
    }
}

/// Index of the last occurrence of `p` in `s`, or `-1`.
pub open spec fn rfind_seq(s: Seq<char>, p: Seq<char>) -> int {
    rfind_from(s, p, s.len() - p.len())
}

/// `str::rsplit_once` for a pattern string.
pub open spec fn rsplit_once_seq(s: Seq<char>, p: Seq<char>) -> Option<(Seq<char>, Seq<char>)> {
    let k = rfind_seq(s, p);
    if k >= 0 {
        Some((s.subrange(0, k), s.subrange(k + p.len(), s.len() as int)))
    } else {
        None
    }
}

pub proof fn lemma_rfind_from_at(s: Seq<char>, p: Seq<char>, k0: int, n: int)
    requires
        -1 <= n <= k0,
        k0 + p.len() <= s.len(),
        forall|j: int| n < j <= k0 ==> !#[trigger] occurs_at(s, p, j),
        n == -1 || occurs_at(s, p, n),
    ensures
        rfind_from(s, p, k0) == n,
    decreases k0 - n,
{
    if k0 > n {
        assert(!occurs_at(s, p, k0));
        lemma_rfind_from_at(s, p, k0 - 1, n);
    }
}

/// Position of the last `pat` in `v[lo..hi]` (absolute), if it occurs.
pub fn rfind_pattern(v: &Vec<char>, lo: usize, hi: usize, pat: &Vec<char>) -> (r: Option<usize>)
    requires
        lo <= hi <= v.len(),
    ensures
        r is None ==> rfind_seq(v@.subrange(lo as int, hi as int), pat@) == -1,
        r matches Some(k) ==> lo <= k && k + pat@.len() <= hi && rfind_seq(
            v@.subrange(lo as int, hi as int),
            pat@,
        ) == k - lo,
{
    let ghost l = v@.subrange(lo as int, hi as int);
    if hi - lo < pat.len() {
        assert(rfind_seq(l, pat@) == -1);
        return None;
    }
    let top = hi - pat.len();
    let mut k = top;
    while !range_eq(v, k, k + pat.len(), pat)
        invariant
            lo <= k <= top,
            top + pat@.len() == hi,
            hi <= v.len(),
            l == v@.subrange(lo as int, hi as int),
            forall|j: int| k - lo < j <= top - lo ==> !#[trigger] occurs_at(l, pat@, j),
        decreases k - lo,
    {
        assert(l.subrange(k - lo, k - lo + pat@.len()) =~= v@.subrange(k as int, k + pat@.len()));
        assert(!occurs_at(l, pat@, k - lo));
        if k == lo {
            proof {
                lemma_rfind_from_at(l, pat@, top - lo, -1);
            }
            return None;
        }
        k = k - 1;
    }
    proof {
        assert(l.subrange(k - lo, k - lo + pat@.len()) =~= v@.subrange(k as int, k + pat@.len()));
        lemma_rfind_from_at(l, pat@, top - lo, k - lo);
    }
    Some(k)
}

/// `str::rsplit_once` for a pattern string, as the bounds of the two parts.
pub fn rsplit_once_range(v: &Vec<char>, lo: usize, hi: usize, pat: &Vec<char>) -> (r: Option<(usize, usize)>)
    requires
        lo <= hi <= v.len(),
    ensures
        match r {
            Some((a, b)) => lo <= a <= b <= hi && rsplit_once_seq(v@.subrange(lo as int, hi as int), pat@)
                == Some((v@.subrange(lo as int, a as int), v@.subrange(b as int, hi as int))),
            None => rsplit_once_seq(v@.subrange(lo as int, hi as int), pat@) is None,
        },
{
    match rfind_pattern(v, lo, hi, pat) {
        Some(k) => {
            let ghost l = v@.subrange(lo as int, hi as int);
            assert(l.subrange(0, k - lo) =~= v@.subrange(lo as int, k as int));
            assert(l.subrange(k - lo + pat@.len(), l.len() as int) =~= v@.subrange(
                k + pat@.len(),
                hi as int,
            ));
            Some((k, k + pat.len()))
        },
        None => None,
    }
}


/// Whether `s` starts with `p`.
pub fn str_starts_with(s: &str, p: &str) -> (b: bool)
    ensures
        b == starts_with(s@, p@),
{
    let v = chars_of(s);
    let w = chars_of(p);
    assert(v@.subrange(0, v@.len() as int) == v@);
    range_starts_with(&v, 0, v.len(), &w)
}

/// `str::ends_with`.
pub fn str_ends_with(s: &str, p: &str) -> (b: bool)
    ensures
        b == ends_with(s@, p@),
{
    let v = chars_of(s);
    let w = chars_of(p);
    assert(v@.subrange(0, v@.len() as int) == v@);
    range_ends_with(&v, 0, v.len(), &w)
}

/// `s` after the prefix `p`, where it starts with it.
pub fn str_strip_prefix(s: &str, p: &str) -> (r: Option<String>)
    ensures
        match r {
            Some(t) => strip_prefix(s@, p@) == Some(t@),
            None => strip_prefix(s@, p@) is None,
        },
{
    let v = chars_of(s);
    let w = chars_of(p);
    assert(v@.subrange(0, v@.len() as int) == v@);
    if range_starts_with(&v, 0, v.len(), &w) {
        Some(string_of_range(&v, w.len(), v.len()))
    } else {
        None
    }
}

/// `s` without leading and trailing whitespace.
pub fn trim_str(s: &str) -> (r: String)
    ensures
        r@ == trim(s@),
{
    let v = chars_of(s);
    assert(v@.subrange(0, v@.len() as int) == v@);
    let (a, b) = trim_range(&v, 0, v.len());
    string_of_range(&v, a, b)
}

/// The texts of `parts`, one after the other.
pub open spec fn concat_all(parts: Seq<&str>) -> Seq<char>
    decreases parts.len(),
{
    if parts.len() == 0 {
        Seq::empty()
    } else {
        concat_all(parts.drop_last()) + parts.last()@
    }
}

/// The texts of `parts` joined into one `String`.
pub fn concat_parts(parts: &[&str]) -> (r: String)
    ensures
        r@ == concat_all(parts@),
{
    let mut m = string_of_str("");
    proof {
        reveal_strlit("");
    }
    let mut i: usize = 0;
    while i < parts.len()
        invariant
            i <= parts@.len(),
            m@ == concat_all(parts@.subrange(0, i as int)),
        decreases parts.len() - i,
    {
        assert(parts@.subrange(0, i + 1).drop_last() == parts@.subrange(0, i as int));
        push_str(&mut m, parts[i]);
        i = i + 1;
    }
    assert(parts@.subrange(0, parts@.len() as int) == parts@);
    m
}

} // verus!
