//! Association lists: vectors of `(key, value)` pairs with distinct keys,
//! viewed as maps.
use vstd::prelude::*;

verus! {

/// The map that the pairs of `s` describe; a later pair wins over an
/// earlier one with the same key.
pub open spec fn amap<K: DeepView, V: DeepView>(s: Seq<(K, V)>) -> Map<K::V, V::V>
    decreases s.len(),
{
    if s.len() == 0 {
        Map::empty()
    } else {
        amap(s.drop_last()).insert(s.last().0.deep_view(), s.last().1.deep_view())
    }
}

/// No two pairs of `s` have the same key.
pub open spec fn akeys_unique<K: DeepView, V>(s: Seq<(K, V)>) -> bool {
    forall|i: int, j: int|
        0 <= i < s.len() && 0 <= j < s.len() && i != j ==> #[trigger] s[i].0.deep_view()
            != #[trigger] s[j].0.deep_view()
}

pub proof fn lemma_amap_push<K: DeepView, V: DeepView>(s: Seq<(K, V)>, p: (K, V))
    ensures
        amap(s.push(p)) == amap(s).insert(p.0.deep_view(), p.1.deep_view()),
{
    assert(s.push(p).drop_last() == s);
}

/// A key is in the map exactly when some pair has it.
pub proof fn lemma_amap_dom<K: DeepView, V: DeepView>(s: Seq<(K, V)>, k: K::V)
    ensures
        amap(s).dom().contains(k) <==> exists|i: int| 0 <= i < s.len() && s[i].0.deep_view() == k,
    decreases s.len(),
{
    if s.len() > 0 {
        let t = s.drop_last();
        lemma_amap_dom(t, k);
        if amap(s).dom().contains(k) {
            if s.last().0.deep_view() != k {
                let i = choose|i: int| 0 <= i < t.len() && t[i].0.deep_view() == k;
                assert(s[i] == t[i]);
            }
        }
        if exists|i: int| 0 <= i < s.len() && s[i].0.deep_view() == k {
            let i = choose|i: int| 0 <= i < s.len() && s[i].0.deep_view() == k;
            if i < s.len() - 1 {
                assert(t[i] == s[i]);
            }
        }
    }
}

/// With distinct keys, the map sends the key of pair `i` to its value.
pub proof fn lemma_amap_index<K: DeepView, V: DeepView>(s: Seq<(K, V)>, i: int)
    requires
        akeys_unique(s),
        0 <= i < s.len(),
    ensures
        amap(s).dom().contains(s[i].0.deep_view()),
        amap(s)[s[i].0.deep_view()] == s[i].1.deep_view(),
    decreases s.len(),
{
    let t = s.drop_last();
    if i < s.len() - 1 {
        assert(t[i] == s[i]);
        assert forall|a: int, b: int|
            0 <= a < t.len() && 0 <= b < t.len() && a != b implies #[trigger] t[a].0.deep_view()
            != #[trigger] t[b].0.deep_view() by {
            assert(t[a] == s[a] && t[b] == s[b]);
        }
        lemma_amap_index(t, i);
        assert(s[i].0.deep_view() != s[s.len() - 1].0.deep_view());
    }
}

/// Without the key in any pair, the map does not have it.
pub proof fn lemma_amap_absent<K: DeepView, V: DeepView>(s: Seq<(K, V)>, k: K::V)
    requires
        forall|i: int| 0 <= i < s.len() ==> s[i].0.deep_view() != k,
    ensures
        !amap(s).dom().contains(k),
{
    lemma_amap_dom(s, k);
}

/// Replacing the value of pair `i` updates the map at that key.
pub proof fn lemma_amap_update<K: DeepView, V: DeepView>(s: Seq<(K, V)>, i: int, p: (K, V))
    requires
        akeys_unique(s),
        0 <= i < s.len(),
        p.0.deep_view() == s[i].0.deep_view(),
    ensures
        akeys_unique(s.update(i, p)),
        amap(s.update(i, p)) == amap(s).insert(p.0.deep_view(), p.1.deep_view()),
{
    let u = s.update(i, p);
    assert forall|a: int, b: int|
        0 <= a < u.len() && 0 <= b < u.len() && a != b implies #[trigger] u[a].0.deep_view()
        != #[trigger] u[b].0.deep_view() by {
        assert(u[a].0.deep_view() == s[a].0.deep_view());
        assert(u[b].0.deep_view() == s[b].0.deep_view());
    }
    let m1 = amap(u);
    let m2 = amap(s).insert(p.0.deep_view(), p.1.deep_view());
    assert forall|k: K::V| m1.dom().contains(k) <==> m2.dom().contains(k) by {
        lemma_amap_dom(u, k);
        lemma_amap_dom(s, k);
        if exists|j: int| 0 <= j < s.len() && s[j].0.deep_view() == k {
            let j = choose|j: int| 0 <= j < s.len() && s[j].0.deep_view() == k;
            assert(u[j].0.deep_view() == k);
        }
        if exists|j: int| 0 <= j < u.len() && u[j].0.deep_view() == k {
            let j = choose|j: int| 0 <= j < u.len() && u[j].0.deep_view() == k;
            assert(s[j].0.deep_view() == k);
        }
    }
    assert forall|k: K::V| m1.dom().contains(k) implies m1[k] == m2[k] by {
        lemma_amap_dom(u, k);
        let j = choose|j: int| 0 <= j < u.len() && u[j].0.deep_view() == k;
        lemma_amap_index(u, j);
        if j != i {
            lemma_amap_index(s, j);
        }
    }
    assert(m1 =~= m2);
}

/// Pushing a pair with a new key keeps the keys distinct.
pub proof fn lemma_amap_push_new<K: DeepView, V: DeepView>(s: Seq<(K, V)>, p: (K, V))
    requires
        akeys_unique(s),
        forall|i: int| 0 <= i < s.len() ==> s[i].0.deep_view() != p.0.deep_view(),
    ensures
        akeys_unique(s.push(p)),
        amap(s.push(p)) == amap(s).insert(p.0.deep_view(), p.1.deep_view()),
{
    let u = s.push(p);
    assert forall|a: int, b: int|
        0 <= a < u.len() && 0 <= b < u.len() && a != b implies #[trigger] u[a].0.deep_view()
        != #[trigger] u[b].0.deep_view() by {
        if a < s.len() {
            assert(u[a] == s[a]);
        }
        if b < s.len() {
            assert(u[b] == s[b]);
        }
    }
    lemma_amap_push(s, p);
}

/// Position of the pair whose key is `k`, in a table keyed by strings.
pub fn find_key<V: DeepView>(t: &Vec<(String, V)>, k: &str) -> (r: Option<usize>)
    ensures
        r matches Some(i) ==> i < t@.len() && t@[i as int].0@ == k@,
        r is None ==> forall|i: int| 0 <= i < t@.len() ==> t@[i].0@ != k@,
{
    let mut i: usize = 0;
    while i < t.len()
        invariant
            i <= t@.len(),
            forall|j: int| 0 <= j < i ==> t@[j].0@ != k@,
        decreases t.len() - i,
    {
        if crate::text::str_eq(t[i].0.as_str(), k) {
            return Some(i);
        }
        i = i + 1;
    }
    None
}

} // verus!

verus! {

/// A map from names to text, as an association list.
#[derive(Debug)]
pub struct StringTable {
    pub entries: Vec<(String, String)>,
}

impl View for StringTable {
    type V = Map<Seq<char>, Seq<char>>;

    open spec fn view(&self) -> Map<Seq<char>, Seq<char>> {
        amap(self.entries@)
    }
}

pub open spec fn map_get<V>(m: Map<Seq<char>, V>, k: Seq<char>) -> Option<V> {
    if m.dom().contains(k) {
        Some(m[k])
    } else {
        None
    }
}

impl StringTable {
    pub open spec fn wf(&self) -> bool {
        akeys_unique(self.entries@)
    }

    pub fn new() -> (t: StringTable)
        ensures
            t.wf(),
            t@ == Map::<Seq<char>, Seq<char>>::empty(),
    {
        StringTable { entries: Vec::new() }
    }

    pub fn len(&self) -> (n: usize)
        ensures
            n == self.entries@.len(),
    {
        self.entries.len()
    }

    /// The text stored under `name`.
    pub fn get(&self, name: &str) -> (r: Option<&String>)
        requires
            self.wf(),
        ensures
            match r {
                Some(v) => map_get(self@, name@) == Some(v@),
                None => map_get(self@, name@) is None,
            },
    {
        match find_key(&self.entries, name) {
            Some(i) => {
                proof {
                    lemma_amap_index(self.entries@, i as int);
                }
                Some(&self.entries[i].1)
            },
            None => {
                proof {
                    lemma_amap_absent(self.entries@, name@);
                }
                None
            },
        }
    }

    /// Stores `value` under `name`, replacing what was there.
    pub fn insert(&mut self, name: String, value: String)
        requires
            old(self).wf(),
        ensures
            final(self).wf(),
            final(self)@ == old(self)@.insert(name@, value@),
    {
        match find_key(&self.entries, name.as_str()) {
            Some(i) => {
                proof {
                    lemma_amap_update(self.entries@, i as int, (name, value));
                }
                self.entries.set(i, (name, value));
            },
            None => {
                proof {
                    lemma_amap_push_new(self.entries@, (name, value));
                }
                self.entries.push((name, value));
            },
        }
    }
}

} // verus!

verus! {

/// A map from names to lists of locked versions, as an association list.
#[derive(Debug)]
pub struct CandidateTable {
    pub entries: Vec<(String, Vec<String>)>,
}

impl View for CandidateTable {
    type V = Map<Seq<char>, Seq<Seq<char>>>;

    open spec fn view(&self) -> Map<Seq<char>, Seq<Seq<char>>> {
        amap(self.entries@)
    }
}

pub proof fn lemma_deep_strings(vs: Vec<String>)
    ensures
        vs.deep_view() == crate::order::svs(vs@),
{
    assert(vs.deep_view() =~= crate::order::svs(vs@));
}

/// The list under `k`, or the empty list.
pub open spec fn list_or_empty(m: Map<Seq<char>, Seq<Seq<char>>>, k: Seq<char>) -> Seq<Seq<char>> {
    if m.dom().contains(k) {
        m[k]
    } else {
        Seq::empty()
    }
}

impl CandidateTable {
    pub open spec fn wf(&self) -> bool {
        akeys_unique(self.entries@)
    }

    pub fn new() -> (t: CandidateTable)
        ensures
            t.wf(),
            t@ == Map::<Seq<char>, Seq<Seq<char>>>::empty(),
    {
        CandidateTable { entries: Vec::new() }
    }

    /// The versions listed under `name`.
    pub fn get(&self, name: &str) -> (r: Option<&Vec<String>>)
        requires
            self.wf(),
        ensures
            match r {
                Some(vs) => map_get(self@, name@) == Some(crate::order::svs(vs@)),
                None => map_get(self@, name@) is None,
            },
    {
        match find_key(&self.entries, name) {
            Some(i) => {
                proof {
                    lemma_amap_index(self.entries@, i as int);
                    lemma_deep_strings(self.entries@[i as int].1);
                }
                Some(&self.entries[i].1)
            },
            None => {
                proof {
                    lemma_amap_absent(self.entries@, name@);
                }
                None
            },
        }
    }

    /// Adds `version` to the sorted set of versions under `name`.
    pub fn add_sorted(&mut self, name: String, version: String)
        requires
            old(self).wf(),
        ensures
            final(self).wf(),
            final(self)@ == old(self)@.insert(
                name@,
                crate::order::sorted_insert(list_or_empty(old(self)@, name@), version@),
            ),
    {
        match find_key(&self.entries, name.as_str()) {
            Some(i) => {
                proof {
                    lemma_amap_index(self.entries@, i as int);
                    lemma_deep_strings(self.entries@[i as int].1);
                }
                let mut list = self.entries[i].1.clone();
                assert(list@ == self.entries@[i as int].1@) by {
                    assert(list@ =~= self.entries@[i as int].1@) by {
                        assert forall|k: int| 0 <= k < list@.len() implies list@[k] == self.entries@[i as int].1@[k] by {}
                    }
                }
                crate::order::insert_sorted(&mut list, version);
                proof {
                    lemma_deep_strings(list);
                    lemma_amap_update(self.entries@, i as int, (name, list));
                }
                self.entries.set(i, (name, list));
            },
            None => {
                let mut list: Vec<String> = Vec::new();
                crate::order::insert_sorted(&mut list, version);
                proof {
                    lemma_amap_absent(self.entries@, name@);
                    assert(crate::order::svs(Seq::<String>::empty()) =~= Seq::<Seq<char>>::empty());
                    lemma_deep_strings(list);
                    lemma_amap_push_new(self.entries@, (name, list));
                }
                self.entries.push((name, list));
            },
        }
    }

    /// Appends `version` to the versions under `name`.
    pub fn add_last(&mut self, name: String, version: String)
        requires
            old(self).wf(),
        ensures
            final(self).wf(),
            final(self)@ == old(self)@.insert(name@, list_or_empty(old(self)@, name@).push(version@)),
    {
        match find_key(&self.entries, name.as_str()) {
            Some(i) => {
                proof {
                    lemma_amap_index(self.entries@, i as int);
                    lemma_deep_strings(self.entries@[i as int].1);
                }
                let mut list = self.entries[i].1.clone();
                assert(list@ =~= self.entries@[i as int].1@);
                list.push(version);
                proof {
                    lemma_deep_strings(list);
                    assert(crate::order::svs(list@) =~= crate::order::svs(self.entries@[i as int].1@).push(version@));
                    lemma_amap_update(self.entries@, i as int, (name, list));
                }
                self.entries.set(i, (name, list));
            },
            None => {
                let mut list: Vec<String> = Vec::new();
                list.push(version);
                proof {
                    lemma_amap_absent(self.entries@, name@);
                    lemma_deep_strings(list);
                    assert(crate::order::svs(list@) =~= Seq::<Seq<char>>::empty().push(version@));
                    lemma_amap_push_new(self.entries@, (name, list));
                }
                self.entries.push((name, list));
            },
        }
    }
}

} // verus!
