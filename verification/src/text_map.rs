//! A map keyed by text that keeps its keys in insertion order.
use vstd::prelude::*;

verus! {

/// Entries `(key, value)` with pairwise distinct keys, in the order in which
/// each key was first inserted.
pub struct TextMap<V> {
    entries: Vec<(String, V)>,
}

/// The keys of an entry sequence, by their character views.
pub open spec fn keys_of<V>(entries: Seq<(String, V)>) -> Seq<Seq<char>> {
    entries.map_values(|e: (String, V)| e.0@)
}

/// No key occurs twice.
pub open spec fn distinct_keys(keys: Seq<Seq<char>>) -> bool {
    forall|i: int, j: int| 0 <= i < keys.len() && 0 <= j < keys.len() && i != j ==> keys[i] != keys[j]
}

impl<V> TextMap<V> {
    /// The keys are pairwise distinct.
    pub closed spec fn wf(&self) -> bool {
        distinct_keys(keys_of(self.entries@))
    }

    /// The keys, in insertion order.
    pub closed spec fn key_seq(&self) -> Seq<Seq<char>> {
        keys_of(self.entries@)
    }

    /// The values, in the order of `key_seq`.
    pub closed spec fn value_seq(&self) -> Seq<V> {
        self.entries@.map_values(|e: (String, V)| e.1)
    }

    /// The map from each key to its value.
    pub closed spec fn as_map(&self) -> Map<Seq<char>, V> {
        Map::new(
            |k: Seq<char>| keys_of(self.entries@).contains(k),
            |k: Seq<char>| self.entries@[keys_of(self.entries@).index_of(k)].1,
        )
    }

    /// The keys are pairwise distinct, and the map sends the key at each
    /// position to the value at that position.
    pub proof fn lemma_shape(&self)
        requires
            self.wf(),
        ensures
            distinct_keys(self.key_seq()),
            self.key_seq().len() == self.value_seq().len(),
            forall|k: Seq<char>| #[trigger] self.as_map().dom().contains(k) <==> self.key_seq().contains(k),
            forall|i: int| 0 <= i < self.key_seq().len() ==> #[trigger] self.as_map()[self.key_seq()[i]] == self.value_seq()[i],
    {
        assert forall|i: int| 0 <= i < self.key_seq().len() implies #[trigger] self.as_map()[self.key_seq()[i]] == self.value_seq()[i] by {
            let ks = keys_of(self.entries@);
            assert(ks.contains(ks[i]));
            let j = ks.index_of(ks[i]);
            assert(ks[j] == ks[i]);
            assert(j == i);
        }
    }

    /// An empty map.
    pub fn new() -> (res: Self)
        ensures
            res.wf(),
            res.as_map() == Map::<Seq<char>, V>::empty(),
            res.key_seq().len() == 0,
    {
        let res = TextMap { entries: Vec::new() };
        assert(res.as_map() =~= Map::<Seq<char>, V>::empty());
        res
    }

    /// The number of keys.
    pub fn len(&self) -> (res: usize)
        ensures
            res == self.key_seq().len(),
    {
        self.entries.len()
    }

    /// The position of `key` in `key_seq`, if it is there.
    fn position(&self, key: &str) -> (res: Option<usize>)
        ensures
            match res {
                Some(i) => i < self.key_seq().len() && self.key_seq()[i as int] == key@,
                None => !self.key_seq().contains(key@),
            },
    {
        let mut i: usize = 0;
        while i < self.entries.len()
            invariant
                0 <= i <= self.entries@.len(),
                forall|j: int| 0 <= j < i ==> self.entries@[j].0@ != key@,
            decreases self.entries@.len() - i,
        {
            if crate::text::str_eq(self.entries[i].0.as_str(), key) {
                return Some(i);
            }
            i = i + 1;
        }
        proof {
            if keys_of(self.entries@).contains(key@) {
                let j = choose|j: int| 0 <= j < keys_of(self.entries@).len() && keys_of(self.entries@)[j] == key@;
                assert(self.entries@[j].0@ == key@);
            }
        }
        None
    }

    /// The value stored under `key`.
    pub fn get(&self, key: &str) -> (res: Option<&V>)
        requires
            self.wf(),
        ensures
            match res {
                Some(v) => self.as_map().dom().contains(key@) && *v == self.as_map()[key@],
                None => !self.as_map().dom().contains(key@),
            },
    {
        proof { self.lemma_shape(); }
        match self.position(key) {
            Some(i) => {
                assert(self.value_seq()[i as int] == self.entries@[i as int].1);
                Some(&self.entries[i].1)
            },
            None => None,
        }
    }

    /// The entry at position `i` of `key_seq`.
    pub fn entry_at(&self, i: usize) -> (res: (&String, &V))
        requires
            i < self.key_seq().len(),
        ensures
            res.0@ == self.key_seq()[i as int],
            *res.1 == self.value_seq()[i as int],
    {
        let e = &self.entries[i];
        (&e.0, &e.1)
    }

    /// Stores `value` under `key`: a key already present keeps its position,
    /// a new key goes last.
    pub fn insert(&mut self, key: String, value: V)
        requires
            old(self).wf(),
        ensures
            final(self).wf(),
            final(self).as_map() == old(self).as_map().insert(key@, value),
            old(self).key_seq().contains(key@) ==> final(self).key_seq() == old(self).key_seq(),
            !old(self).key_seq().contains(key@) ==> final(self).key_seq() == old(self).key_seq().push(key@),
            forall|i: int| 0 <= i < old(self).key_seq().len() && old(self).key_seq()[i] != key@
                ==> #[trigger] final(self).value_seq()[i] == old(self).value_seq()[i],
    {
        let ghost old_entries = self.entries@;
        let pos = self.position(key.as_str());
        let mut entries: Vec<(String, V)> = Vec::new();
        std::mem::swap(&mut entries, &mut self.entries);
        match pos {
            Some(i) => {
                let ghost k = key@;
                entries.set(i, (key, value));
                assert(keys_of(entries@) =~= keys_of(old_entries));
            },
            None => {
                entries.push((key, value));
                assert(keys_of(entries@) =~= keys_of(old_entries).push(key@));
            },
        }
        self.entries = entries;
        proof {
            let ks = keys_of(self.entries@);
            let oks = keys_of(old_entries);
            assert forall|k: Seq<char>| #[trigger] ks.contains(k) <==> oks.contains(k) || k == key@ by {
                if ks.contains(k) {
                    let j = choose|j: int| 0 <= j < ks.len() && ks[j] == k;
                    if j < oks.len() && k != key@ { assert(oks[j] == k); }
                }
                if oks.contains(k) {
                    let j = choose|j: int| 0 <= j < oks.len() && oks[j] == k;
                    assert(ks[j] == k);
                }
                if k == key@ {
                    match pos {
                        Some(i) => assert(ks[i as int] == k),
                        None => assert(ks[oks.len() as int] == k),
                    }
                }
            }
            assert forall|k: Seq<char>| ks.contains(k) implies self.entries@[ks.index_of(k)].1
                == old(self).as_map().insert(key@, value)[k] by {
                let j = ks.index_of(k);
                assert(ks[j] == k);
                if k != key@ {
                    assert(oks.contains(k));
                    let oj = oks.index_of(k);
                    assert(oks[oj] == k);
                    assert(ks[oj] == k);
                    assert(oj == j);
                } else {
                    match pos {
                        Some(i) => assert(ks[i as int] == k),
                        None => assert(ks[oks.len() as int] == k),
                    }
                }
            }
            assert(self.as_map() =~= old(self).as_map().insert(key@, value));
        }
    }

    /// The entries, in order.
    pub fn into_entries(self) -> (res: Vec<(String, V)>)
        ensures
            keys_of(res@) == self.key_seq(),
            res@.map_values(|e: (String, V)| e.1) == self.value_seq(),
    {
        self.entries
    }
}

} // verus!
