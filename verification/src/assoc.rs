//! Finite maps held as lists of entries with distinct keys, in insertion
//! order.
use vstd::prelude::*;

use crate::frontend::validate::types::Type;

verus! {

/// Keys that can be compared by their values.
pub trait KeyEq: View + Sized {
    fn same_key(&self, other: &Self) -> (r: bool)
        ensures
            r == (self@ == other@);
}

impl KeyEq for String {
    fn same_key(&self, other: &Self) -> (r: bool) {
        *self == *other
    }
}

impl KeyEq for Type {
    fn same_key(&self, other: &Self) -> (r: bool) {
        self.same_as(other)
    }
}

impl KeyEq for (String, String) {
    fn same_key(&self, other: &Self) -> (r: bool) {
        self.0 == other.0 && self.1 == other.1
    }
}

/// A finite map from `K`'s values to `V`s.
pub struct AssocMap<K, V> {
    entries: Vec<(K, V)>,
}

/// The keys of a list of entries have distinct values.
pub open spec fn distinct_keys<K: View, V>(s: Seq<(K, V)>) -> bool {
    forall|i: int, j: int| 0 <= i < s.len() && 0 <= j < s.len() && i != j ==> s[i].0@ != s[j].0@
}

/// The keys of a list of entries, in order.
pub open spec fn keys_of<K: View, V>(s: Seq<(K, V)>) -> Seq<K::V> {
    s.map_values(|e: (K, V)| e.0@)
}

/// The map that a list of entries with distinct keys stands for.
pub open spec fn entries_map<K: View, V>(s: Seq<(K, V)>) -> Map<K::V, V> {
    Map::new(
        |k: K::V| exists|i: int| 0 <= i < s.len() && s[i].0@ == k,
        |k: K::V| s[choose|i: int| 0 <= i < s.len() && s[i].0@ == k].1,
    )
}

pub proof fn lemma_entries_map_at<K: View, V>(s: Seq<(K, V)>, i: int)
    requires
        distinct_keys(s),
        0 <= i < s.len(),
    ensures
        entries_map(s).contains_key(s[i].0@),
        entries_map(s)[s[i].0@] == s[i].1,
{
    let k = s[i].0@;
    assert(exists|j: int| 0 <= j < s.len() && s[j].0@ == k);
    let j = choose|j: int| 0 <= j < s.len() && s[j].0@ == k;
    assert(i == j);
}

proof fn lemma_maps_agree<A, B>(m1: Map<A, B>, m2: Map<A, B>)
    requires
        forall|k: A| #![trigger m1.contains_key(k)] #![trigger m2.contains_key(k)]
            m1.contains_key(k) == m2.contains_key(k) && (m1.contains_key(k) ==> m1[k] == m2[k]),
    ensures
        m1 == m2,
{
    assert(m1 =~= m2);
}

impl<K: View, V> View for AssocMap<K, V> {
    type V = Map<K::V, V>;

    closed spec fn view(&self) -> Map<K::V, V> {
        entries_map(self.entries@)
    }
}

impl<K: KeyEq, V> AssocMap<K, V> {
    /// The entries, in insertion order.
    pub closed spec fn entry_seq(&self) -> Seq<(K, V)> {
        self.entries@
    }

    /// The map is consistent: no two entries have the same key.
    pub closed spec fn well_formed(&self) -> bool {
        distinct_keys(self.entries@)
    }

    pub proof fn lemma_view(&self)
        requires
            self.well_formed(),
        ensures
            self@ == entries_map(self.entry_seq()),
            distinct_keys(self.entry_seq()),
            forall|i: int| 0 <= i < self.entry_seq().len() ==> #[trigger] self@.contains_key(self.entry_seq()[i].0@)
                && self@[self.entry_seq()[i].0@] == self.entry_seq()[i].1,
            forall|k: K::V| self@.contains_key(k) ==> exists|i: int| 0 <= i < self.entry_seq().len()
                && #[trigger] self.entry_seq()[i].0@ == k,
    {
        assert forall|i: int| 0 <= i < self.entry_seq().len() implies #[trigger] self@.contains_key(self.entry_seq()[i].0@)
            && self@[self.entry_seq()[i].0@] == self.entry_seq()[i].1 by {
            lemma_entries_map_at(self.entries@, i);
        }
    }

    pub fn new() -> (r: Self)
        ensures
            r.well_formed(),
            r@ == Map::<K::V, V>::empty(),
            r.entry_seq() == Seq::<(K, V)>::empty(),
    {
        let r = AssocMap { entries: Vec::new() };
        assert(r@ =~= Map::<K::V, V>::empty());
        r
    }

    pub fn len(&self) -> (n: usize)
        ensures
            n == self.entry_seq().len(),
    {
        self.entries.len()
    }

    /// The `i`-th entry in insertion order.
    pub fn entry(&self, i: usize) -> (r: &(K, V))
        requires
            i < self.entry_seq().len(),
        ensures
            *r == self.entry_seq()[i as int],
    {
        &self.entries[i]
    }

    /// The position of the entry for `k`, if there is one.
    pub fn index_of(&self, k: &K) -> (r: Option<usize>)
        requires
            self.well_formed(),
        ensures
            match r {
                Some(i) => i < self.entry_seq().len() && self.entry_seq()[i as int].0@ == k@
                    && self@.contains_key(k@) && self@[k@] == self.entry_seq()[i as int].1,
                None => !self@.contains_key(k@),
            },
    {
        let mut i: usize = 0;
        while i < self.entries.len()
            invariant
                i <= self.entries@.len(),
                distinct_keys(self.entries@),
                forall|j: int| 0 <= j < i ==> self.entries@[j].0@ != k@,
            decreases self.entries@.len() - i,
        {
            if self.entries[i].0.same_key(k) {
                proof {
                    lemma_entries_map_at(self.entries@, i as int);
                }
                return Some(i);
            }
            i += 1;
        }
        None
    }

    pub fn contains_key(&self, k: &K) -> (r: bool)
        requires
            self.well_formed(),
        ensures
            r == self@.contains_key(k@),
    {
        self.index_of(k).is_some()
    }

    pub fn get(&self, k: &K) -> (r: Option<&V>)
        requires
            self.well_formed(),
        ensures
            match r {
                Some(v) => self@.contains_key(k@) && *v == self@[k@],
                None => !self@.contains_key(k@),
            },
    {
        match self.index_of(k) {
            Some(i) => Some(&self.entries[i].1),
            None => None,
        }
    }

    /// Maps `k` to `v`; says whether `k` had a value before.
    pub fn insert(&mut self, k: K, v: V) -> (existed: bool)
        requires
            old(self).well_formed(),
        ensures
            final(self).well_formed(),
            existed == old(self)@.contains_key(k@),
            final(self)@ == old(self)@.insert(k@, v),
            !existed ==> final(self).entry_seq() == old(self).entry_seq().push((k, v)),
            keys_of(final(self).entry_seq()) == if existed {
                keys_of(old(self).entry_seq())
            } else {
                keys_of(old(self).entry_seq()).push(k@)
            },
    {
        let ghost kv = k@;
        let ghost old_map = self@;
        match self.index_of(&k) {
            Some(i) => {
                self.entries.set(i, (k, v));
                proof {
                    let s = self.entries@;
                    assert(distinct_keys(s));
                    assert forall|key: K::V| #![trigger entries_map(s).contains_key(key)] #![trigger old_map.contains_key(key)] entries_map(s).contains_key(key) == old_map.insert(kv, v).contains_key(key)
                        && (entries_map(s).contains_key(key) ==> entries_map(s)[key] == old_map.insert(kv, v)[key]) by {
                        if key == kv {
                            lemma_entries_map_at(s, i as int);
                        } else if old_map.contains_key(key) {
                            let j = choose|j: int| 0 <= j < old(self).entries@.len() && old(self).entries@[j].0@ == key;
                            lemma_entries_map_at(old(self).entries@, j);
                            lemma_entries_map_at(s, j);
                        } else {
                            if entries_map(s).contains_key(key) {
                                let j = choose|j: int| 0 <= j < s.len() && s[j].0@ == key;
                                assert(old(self).entries@[j].0@ == key);
                            }
                        }
                    }
                    lemma_maps_agree(entries_map(s), old_map.insert(kv, v));
                    assert(keys_of(s) =~= keys_of(old(self).entries@));
                }
                true
            },
            None => {
                self.entries.push((k, v));
                proof {
                    let s = self.entries@;
                    assert(distinct_keys(s));
                    assert forall|key: K::V| #![trigger entries_map(s).contains_key(key)] #![trigger old_map.contains_key(key)] entries_map(s).contains_key(key) == old_map.insert(kv, v).contains_key(key)
                        && (entries_map(s).contains_key(key) ==> entries_map(s)[key] == old_map.insert(kv, v)[key]) by {
                        if key == kv {
                            lemma_entries_map_at(s, s.len() - 1);
                        } else if old_map.contains_key(key) {
                            let j = choose|j: int| 0 <= j < old(self).entries@.len() && old(self).entries@[j].0@ == key;
                            lemma_entries_map_at(old(self).entries@, j);
                            lemma_entries_map_at(s, j);
                        } else {
                            if entries_map(s).contains_key(key) {
                                let j = choose|j: int| 0 <= j < s.len() && s[j].0@ == key;
                                assert(j < s.len() - 1);
                                assert(old(self).entries@[j].0@ == key);
                            }
                        }
                    }
                    lemma_maps_agree(entries_map(s), old_map.insert(kv, v));
                    assert(keys_of(s) =~= keys_of(old(self).entries@).push(kv));
                }
                false
            },
        }
    }

    /// Removes the entry for `k`, if there is one.
    pub fn remove(&mut self, k: &K)
        requires
            old(self).well_formed(),
        ensures
            final(self).well_formed(),
            final(self)@ == old(self)@.remove(k@),
    {
        let ghost old_map = self@;
        match self.index_of(k) {
            Some(i) => {
                let _ = self.entries.remove(i);
                proof {
                    let s = self.entries@;
                    let o = old(self).entries@;
                    assert(forall|j: int| 0 <= j < s.len() ==> #[trigger] s[j] == if j < i { o[j] } else { o[j + 1] });
                    assert(distinct_keys(s)) by {
                        assert forall|a: int, b: int| 0 <= a < s.len() && 0 <= b < s.len() && a != b implies s[a].0@ != s[b].0@ by {
                            let a2 = if a < i { a } else { a + 1 };
                            let b2 = if b < i { b } else { b + 1 };
                            assert(s[a] == o[a2]);
                            assert(s[b] == o[b2]);
                        }
                    }
                    assert forall|key: K::V| #![trigger entries_map(s).contains_key(key)] #![trigger old_map.contains_key(key)] entries_map(s).contains_key(key) == old_map.remove(k@).contains_key(key)
                        && (entries_map(s).contains_key(key) ==> entries_map(s)[key] == old_map.remove(k@)[key]) by {
                        if key == k@ {
                            if entries_map(s).contains_key(key) {
                                let j = choose|j: int| 0 <= j < s.len() && s[j].0@ == key;
                                let j2 = if j < i { j } else { j + 1 };
                                assert(o[j2].0@ == key);
                            }
                        } else if old_map.contains_key(key) {
                            let j = choose|j: int| 0 <= j < o.len() && o[j].0@ == key;
                            lemma_entries_map_at(o, j);
                            let j2 = if j < i { j } else { j - 1 };
                            assert(s[j2] == o[j]);
                            lemma_entries_map_at(s, j2);
                        } else {
                            if entries_map(s).contains_key(key) {
                                let j = choose|j: int| 0 <= j < s.len() && s[j].0@ == key;
                                let j2 = if j < i { j } else { j + 1 };
                                assert(o[j2].0@ == key);
                            }
                        }
                    }
                    lemma_maps_agree(entries_map(s), old_map.remove(k@));
                }
            },
            None => {
                assert(old_map.remove(k@) =~= old_map);
            },
        }
    }

    /// The entries, in insertion order.
    pub fn into_entries(self) -> (r: Vec<(K, V)>)
        ensures
            r@ == self.entry_seq(),
    {
        self.entries
    }
}

} // verus!
