//! A map keyed by text, kept in ascending key order.
use vstd::prelude::*;

use crate::text::{compare_text, lemma_text_less_irreflexive, lemma_text_less_transitive, text_less, TextOrder};

verus! {

/// Keys in strictly ascending order (which also makes them distinct).
pub open spec fn sorted_pairs<V>(s: Seq<(Seq<char>, V)>) -> bool {
    forall|i: int, j: int| 0 <= i < j < s.len() ==> text_less(#[trigger] s[i].0, #[trigger] s[j].0)
}

/// Whether a key occurs in a sequence of pairs.
pub open spec fn has_key<V>(s: Seq<(Seq<char>, V)>, k: Seq<char>) -> bool {
    exists|i: int| 0 <= i < s.len() && #[trigger] s[i].0 == k
}

/// The map that a sequence of key/value pairs stands for.
pub open spec fn pairs_map<V>(s: Seq<(Seq<char>, V)>) -> Map<Seq<char>, V> {
    Map::new(
        |k: Seq<char>| has_key(s, k),
        |k: Seq<char>| s[choose|i: int| 0 <= i < s.len() && #[trigger] s[i].0 == k].1,
    )
}

/// In sorted pairs, each key occurs once.
pub proof fn lemma_sorted_unique<V>(s: Seq<(Seq<char>, V)>, i: int, j: int)
    requires
        sorted_pairs(s),
        0 <= i < s.len(),
        0 <= j < s.len(),
        s[i].0 == s[j].0,
    ensures
        i == j,
{
    if i < j {
        assert(text_less(s[i].0, s[j].0));
        lemma_text_less_irreflexive(s[i].0);
    } else if j < i {
        assert(text_less(s[j].0, s[i].0));
        lemma_text_less_irreflexive(s[i].0);
    }
}

/// The map holds exactly the pairs' entries.
pub proof fn lemma_pairs_map_at<V>(s: Seq<(Seq<char>, V)>, i: int)
    requires
        sorted_pairs(s),
        0 <= i < s.len(),
    ensures
        pairs_map(s).contains_key(s[i].0),
        pairs_map(s)[s[i].0] == s[i].1,
{
    assert(has_key(s, s[i].0));
    let j = choose|j: int| 0 <= j < s.len() && #[trigger] s[j].0 == s[i].0;
    lemma_sorted_unique(s, i, j);
}

/// Replacing the value at a key's own position updates the map at that key.
pub proof fn lemma_pairs_update<V>(s: Seq<(Seq<char>, V)>, p: int, v: V)
    requires
        sorted_pairs(s),
        0 <= p < s.len(),
    ensures
        sorted_pairs(s.update(p, (s[p].0, v))),
        pairs_map(s.update(p, (s[p].0, v))) == pairs_map(s).insert(s[p].0, v),
{
    let t = s.update(p, (s[p].0, v));
    assert(sorted_pairs(t)) by {
        assert forall|i: int, j: int| 0 <= i < j < t.len() implies text_less(#[trigger] t[i].0, #[trigger] t[j].0) by {
            assert(t[i].0 == s[i].0);
            assert(t[j].0 == s[j].0);
        }
    }
    let m = pairs_map(s).insert(s[p].0, v);
    assert forall|k: Seq<char>| pairs_map(t).contains_key(k) <==> m.contains_key(k) by {
        if has_key(t, k) {
            let i = choose|i: int| 0 <= i < t.len() && #[trigger] t[i].0 == k;
            assert(s[i].0 == k);
        }
        if has_key(s, k) {
            let i = choose|i: int| 0 <= i < s.len() && #[trigger] s[i].0 == k;
            assert(t[i].0 == k);
        }
        if k == s[p].0 {
            assert(t[p].0 == k);
        }
    }
    assert forall|k: Seq<char>| #[trigger] pairs_map(t).contains_key(k) implies pairs_map(t)[k] == m[k] by {
        let i = choose|i: int| 0 <= i < t.len() && #[trigger] t[i].0 == k;
        lemma_pairs_map_at(t, i);
        if i != p {
            assert(s[i].0 == k);
            lemma_pairs_map_at(s, i);
            if k == s[p].0 {
                lemma_sorted_unique(s, i, p);
            }
        }
    }
    assert(pairs_map(t) =~= m);
}

/// Inserting a new key at its place in the order adds it to the map.
pub proof fn lemma_pairs_insert<V>(s: Seq<(Seq<char>, V)>, p: int, k0: Seq<char>, v: V)
    requires
        sorted_pairs(s),
        0 <= p <= s.len(),
        forall|j: int| 0 <= j < p ==> text_less(#[trigger] s[j].0, k0),
        p == s.len() || text_less(k0, s[p].0),
    ensures
        sorted_pairs(s.insert(p, (k0, v))),
        pairs_map(s.insert(p, (k0, v))) == pairs_map(s).insert(k0, v),
        !pairs_map(s).contains_key(k0),
{
    let t = s.insert(p, (k0, v));
    assert forall|j: int| p < j < t.len() implies text_less(k0, #[trigger] t[j].0) by {
        assert(t[j] == s[j - 1]);
        if j - 1 > p {
            assert(text_less(s[p].0, s[j - 1].0));
            lemma_text_less_transitive(k0, s[p].0, s[j - 1].0);
        }
    }
    assert(sorted_pairs(t)) by {
        assert forall|i: int, j: int| 0 <= i < j < t.len() implies text_less(#[trigger] t[i].0, #[trigger] t[j].0) by {
            if i < p && j < p {
                assert(t[i] == s[i] && t[j] == s[j]);
            } else if i < p && j == p {
            } else if i < p && j > p {
                assert(t[i] == s[i] && t[j] == s[j - 1]);
                assert(text_less(k0, t[j].0));
                lemma_text_less_transitive(t[i].0, k0, t[j].0);
            } else if i == p {
            } else {
                assert(t[i] == s[i - 1] && t[j] == s[j - 1]);
            }
        }
    }
    assert(!has_key(s, k0)) by {
        if has_key(s, k0) {
            let i = choose|i: int| 0 <= i < s.len() && #[trigger] s[i].0 == k0;
            if i < p {
                lemma_text_less_irreflexive(k0);
            } else {
                assert(t[i + 1] == s[i]);
                assert(text_less(k0, t[i + 1].0));
                lemma_text_less_irreflexive(k0);
            }
        }
    }
    let m = pairs_map(s).insert(k0, v);
    assert forall|k: Seq<char>| pairs_map(t).contains_key(k) <==> m.contains_key(k) by {
        if has_key(t, k) {
            let i = choose|i: int| 0 <= i < t.len() && #[trigger] t[i].0 == k;
            if i < p {
                assert(s[i].0 == k);
            } else if i > p {
                assert(s[i - 1].0 == k);
            }
        }
        if has_key(s, k) {
            let i = choose|i: int| 0 <= i < s.len() && #[trigger] s[i].0 == k;
            if i < p {
                assert(t[i].0 == k);
            } else {
                assert(t[i + 1].0 == k);
            }
        }
        if k == k0 {
            assert(t[p].0 == k);
        }
    }
    assert forall|k: Seq<char>| #[trigger] pairs_map(t).contains_key(k) implies pairs_map(t)[k] == m[k] by {
        let i = choose|i: int| 0 <= i < t.len() && #[trigger] t[i].0 == k;
        lemma_pairs_map_at(t, i);
        if i < p {
            assert(s[i] == t[i]);
            lemma_pairs_map_at(s, i);
            assert(text_less(t[i].0, t[p].0));
            if k == k0 {
                lemma_text_less_irreflexive(k0);
            }
        } else if i > p {
            assert(s[i - 1] == t[i]);
            lemma_pairs_map_at(s, i - 1);
            assert(text_less(t[p].0, t[i].0));
            if k == k0 {
                lemma_text_less_irreflexive(k0);
            }
        }
    }
    assert(pairs_map(t) =~= m);
}

/// Removing the entry at a position removes its key from the map.
pub proof fn lemma_pairs_remove<V>(s: Seq<(Seq<char>, V)>, p: int)
    requires
        sorted_pairs(s),
        0 <= p < s.len(),
    ensures
        sorted_pairs(s.remove(p)),
        pairs_map(s.remove(p)) == pairs_map(s).remove(s[p].0),
{
    let t = s.remove(p);
    assert(sorted_pairs(t)) by {
        assert forall|i: int, j: int| 0 <= i < j < t.len() implies text_less(#[trigger] t[i].0, #[trigger] t[j].0) by {
            let si = if i < p { i } else { i + 1 };
            let sj = if j < p { j } else { j + 1 };
            assert(t[i] == s[si] && t[j] == s[sj]);
        }
    }
    let m = pairs_map(s).remove(s[p].0);
    assert forall|k: Seq<char>| pairs_map(t).contains_key(k) <==> m.contains_key(k) by {
        if has_key(t, k) {
            let i = choose|i: int| 0 <= i < t.len() && #[trigger] t[i].0 == k;
            let si = if i < p { i } else { i + 1 };
            assert(s[si].0 == k);
            if k == s[p].0 {
                lemma_sorted_unique(s, si, p);
            }
        }
        if has_key(s, k) && k != s[p].0 {
            let i = choose|i: int| 0 <= i < s.len() && #[trigger] s[i].0 == k;
            if i < p {
                assert(t[i].0 == k);
            } else {
                assert(t[i - 1].0 == k);
            }
        }
    }
    assert forall|k: Seq<char>| #[trigger] pairs_map(t).contains_key(k) implies pairs_map(t)[k] == m[k] by {
        let i = choose|i: int| 0 <= i < t.len() && #[trigger] t[i].0 == k;
        lemma_pairs_map_at(t, i);
        let si = if i < p { i } else { i + 1 };
        assert(s[si] == t[i]);
        lemma_pairs_map_at(s, si);
        if k == s[p].0 {
            lemma_sorted_unique(s, si, p);
        }
    }
    assert(pairs_map(t) =~= m);
}

/// A key that is absent from sorted pairs is absent from their map, and vice versa.
pub proof fn lemma_pairs_absent<V>(s: Seq<(Seq<char>, V)>, k: Seq<char>, p: int)
    requires
        sorted_pairs(s),
        0 <= p <= s.len(),
        forall|j: int| 0 <= j < p ==> text_less(#[trigger] s[j].0, k),
        p == s.len() || text_less(k, s[p].0),
    ensures
        !pairs_map(s).contains_key(k),
{
    if has_key(s, k) {
        let i = choose|i: int| 0 <= i < s.len() && #[trigger] s[i].0 == k;
        if i < p {
            lemma_text_less_irreflexive(k);
        } else if i > p {
            assert(text_less(s[p].0, s[i].0));
            lemma_text_less_transitive(k, s[p].0, s[i].0);
            lemma_text_less_irreflexive(k);
        } else {
            lemma_text_less_irreflexive(k);
        }
    }
}

/// A map's view is the map that its pairs stand for.
pub proof fn lemma_pairs_view<T: Copy>(m: &TextMap<T>)
    ensures
        m@ == pairs_map(m.pairs()),
{
}

/// A map of text keys to values, kept in ascending key order.
#[derive(Debug)]
pub struct TextMap<T: Copy> {
    entries: Vec<(String, T)>,
}

impl<T: Copy> View for TextMap<T> {
    type V = Map<Seq<char>, T>;

    closed spec fn view(&self) -> Map<Seq<char>, T> {
        pairs_map(self.pairs())
    }
}

impl<T: Copy> TextMap<T> {
    /// The entries as (key, value) pairs, in ascending key order.
    pub closed spec fn pairs(&self) -> Seq<(Seq<char>, T)> {
        Self::pairs_of(self.entries@)
    }

    closed spec fn pairs_of(entries: Seq<(String, T)>) -> Seq<(Seq<char>, T)> {
        entries.map_values(|e: (String, T)| (e.0@, e.1))
    }

    #[verifier::type_invariant]
    closed spec fn ordered(&self) -> bool {
        sorted_pairs(self.pairs())
    }

    /// An empty map.
    pub fn new() -> (res: Self)
        ensures
            res.pairs() == Seq::<(Seq<char>, T)>::empty(),
            res@ == Map::<Seq<char>, T>::empty(),
    {
        let res = TextMap { entries: Vec::new() };
        assert(res.pairs() =~= Seq::<(Seq<char>, T)>::empty());
        assert(res@ =~= Map::<Seq<char>, T>::empty());
        res
    }

    /// The number of entries.
    pub fn len(&self) -> (res: usize)
        ensures
            res == self.pairs().len(),
            res == self@.len(),
            sorted_pairs(self.pairs()),
    {
        proof {
            use_type_invariant(self);
            self.lemma_len();
        }
        self.entries.len()
    }

    proof fn lemma_len(&self)
        requires
            sorted_pairs(self.pairs()),
        ensures
            self@.len() == self.pairs().len(),
            self@.dom().finite(),
    {
        let s = self.pairs();
        let keys = s.map_values(|e: (Seq<char>, T)| e.0);
        assert forall|i: int, j: int| 0 <= i < keys.len() && 0 <= j < keys.len() && i != j implies keys[i] != keys[j] by {
            if keys[i] == keys[j] {
                lemma_sorted_unique(s, i, j);
            }
        }
        assert(keys.no_duplicates());
        assert forall|k: Seq<char>| self@.dom().contains(k) <==> keys.to_set().contains(k) by {
            if self@.dom().contains(k) {
                let i = choose|i: int| 0 <= i < s.len() && #[trigger] s[i].0 == k;
                assert(keys[i] == k);
            }
            if keys.to_set().contains(k) {
                let i = choose|i: int| 0 <= i < keys.len() && keys[i] == k;
                assert(s[i].0 == k);
            }
        }
        assert(self@.dom() =~= keys.to_set());
        keys.unique_seq_to_set();
    }

    /// The key of the entry at a position in key order.
    pub fn key_at(&self, i: usize) -> (res: &String)
        requires
            i < self.pairs().len(),
        ensures
            res@ == self.pairs()[i as int].0,
    {
        &self.entries[i].0
    }

    /// The value of the entry at a position in key order.
    pub fn value_at(&self, i: usize) -> (res: T)
        requires
            i < self.pairs().len(),
        ensures
            res == self.pairs()[i as int].1,
    {
        self.entries[i].1
    }

    /// Where `key` stands or would stand: the entries before it have smaller keys.
    fn position(&self, key: &str) -> (res: (usize, bool))
        ensures
            res.0 <= self.pairs().len(),
            forall|j: int| 0 <= j < res.0 ==> text_less(#[trigger] self.pairs()[j].0, key@),
            res.1 ==> res.0 < self.pairs().len() && self.pairs()[res.0 as int].0 == key@,
            !res.1 ==> res.0 == self.pairs().len() || text_less(key@, self.pairs()[res.0 as int].0),
    {
        let n = self.entries.len();
        let mut i: usize = 0;
        while i < n
            invariant
                n == self.pairs().len(),
                i <= n,
                forall|j: int| 0 <= j < i ==> text_less(#[trigger] self.pairs()[j].0, key@),
            decreases n - i,
        {
            match compare_text(self.entries[i].0.as_str(), key) {
                TextOrder::Less => {
                    i = i + 1;
                },
                TextOrder::Equal => {
                    return (i, true);
                },
                TextOrder::Greater => {
                    return (i, false);
                },
            }
        }
        (i, false)
    }

    /// The value stored under `key`, if any.
    pub fn get(&self, key: &str) -> (res: Option<T>)
        ensures
            res == (if self@.contains_key(key@) { Some(self@[key@]) } else { None::<T> }),
    {
        proof {
            use_type_invariant(self);
        }
        let (p, found) = self.position(key);
        proof {
            let s = self.pairs();
            if found {
                lemma_pairs_map_at(s, p as int);
            } else {
                lemma_pairs_absent(s, key@, p as int);
            }
        }
        if found {
            Some(self.entries[p].1)
        } else {
            None
        }
    }

    /// Stores `value` under `key`, replacing any value that was there.
    pub fn insert(&mut self, key: String, value: T)
        ensures
            final(self)@ == old(self)@.insert(key@, value),
    {
        proof {
            use_type_invariant(&*self);
        }
        let (p, found) = self.position(key.as_str());
        let ghost s = self.pairs();
        let ghost k = key@;
        if found {
            proof {
                lemma_pairs_update(s, p as int, value);
            }
            let mut entries = Vec::new();
            std::mem::swap(&mut entries, &mut self.entries);
            entries.set(p, (key, value));
            assert(Self::pairs_of(entries@) =~= s.update(p as int, (k, value)));
            self.entries = entries;
        } else {
            proof {
                lemma_pairs_insert(s, p as int, k, value);
            }
            let mut entries = Vec::new();
            std::mem::swap(&mut entries, &mut self.entries);
            entries.insert(p, (key, value));
            assert(Self::pairs_of(entries@) =~= s.insert(p as int, (k, value)));
            self.entries = entries;
        }
    }

    /// Takes out the value stored under `key`, if any.
    pub fn remove(&mut self, key: &str) -> (res: Option<T>)
        ensures
            res == (if old(self)@.contains_key(key@) { Some(old(self)@[key@]) } else { None::<T> }),
            final(self)@ == old(self)@.remove(key@),
    {
        proof {
            use_type_invariant(&*self);
        }
        let (p, found) = self.position(key);
        let ghost s = self.pairs();
        if found {
            proof {
                lemma_pairs_map_at(s, p as int);
                lemma_pairs_remove(s, p as int);
            }
            let mut entries = Vec::new();
            std::mem::swap(&mut entries, &mut self.entries);
            let entry = entries.remove(p);
            assert(Self::pairs_of(entries@) =~= s.remove(p as int));
            self.entries = entries;
            Some(entry.1)
        } else {
            proof {
                lemma_pairs_absent(s, key@, p as int);
                assert(old(self)@.remove(key@) =~= old(self)@);
            }
            None
        }
    }
}

impl TextMap<u32> {
    /// Whether every stored count is below `limit`.
    pub fn values_below(&self, limit: u64) -> (res: bool)
        ensures
            res == (forall|k: Seq<char>| #[trigger] self@.contains_key(k) ==> (self@[k] as int) < limit),
    {
        proof {
            use_type_invariant(self);
        }
        let ghost s = self.pairs();
        let n = self.entries.len();
        let mut i: usize = 0;
        while i < n
            invariant
                n == s.len(),
                s == self.pairs(),
                sorted_pairs(s),
                i <= n,
                forall|j: int| 0 <= j < i ==> (#[trigger] s[j].1 as int) < limit,
            decreases n - i,
        {
            if self.entries[i].1 as u64 >= limit {
                proof {
                    lemma_pairs_map_at(s, i as int);
                    assert(s[i as int].1 == self.entries@[i as int].1);
                    assert(self@ == pairs_map(s));
                    let k = s[i as int].0;
                    assert(self@.contains_key(k) && !((self@[k] as int) < limit));
                }
                return false;
            }
            i = i + 1;
        }
        proof {
            assert(self@ == pairs_map(s));
            assert forall|k: Seq<char>| #[trigger] self@.contains_key(k) implies (self@[k] as int) < limit by {
                let j = choose|j: int| 0 <= j < s.len() && #[trigger] s[j].0 == k;
                lemma_pairs_map_at(s, j);
            }
        }
        true
    }
}

/// A prefix of sorted pairs is sorted.
pub proof fn lemma_sorted_take<V>(s: Seq<(Seq<char>, V)>, n: int)
    requires
        sorted_pairs(s),
        0 <= n <= s.len(),
    ensures
        sorted_pairs(s.take(n)),
{
    assert forall|i: int, j: int| 0 <= i < j < s.take(n).len() implies text_less(
        #[trigger] s.take(n)[i].0,
        #[trigger] s.take(n)[j].0,
    ) by {
        assert(s.take(n)[i] == s[i] && s.take(n)[j] == s[j]);
    }
}

/// Growing sorted pairs by one entry adds that entry to their map.
pub proof fn lemma_pairs_map_take<V>(s: Seq<(Seq<char>, V)>, n: int)
    requires
        sorted_pairs(s),
        0 <= n < s.len(),
    ensures
        pairs_map(s.take(n + 1)) == pairs_map(s.take(n)).insert(s[n].0, s[n].1),
{
    let t = s.take(n + 1);
    let u = s.take(n);
    lemma_sorted_take(s, n + 1);
    lemma_sorted_take(s, n);
    assert forall|j: int| 0 <= j < n implies text_less(#[trigger] u[j].0, s[n].0) by {
        assert(u[j] == s[j]);
    }
    lemma_pairs_insert(u, n, s[n].0, s[n].1);
    assert(u.insert(n, (s[n].0, s[n].1)) =~= t);
}

} // verus!
