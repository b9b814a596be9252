//! A map from paths, written as their keys, to values.

use vstd::hash_map::StringHashMap;
use vstd::prelude::*;

verus! {

/// A map from the keys of paths to values.
pub struct PathMap<V> {
    /// Where the entry of each key stands.
    index: StringHashMap<usize>,
    entries: Vec<(String, V)>,
}

impl<V> View for PathMap<V> {
    type V = Map<Seq<char>, V>;

    closed spec fn view(&self) -> Map<Seq<char>, V> {
        Map::new(
            |key: Seq<char>| self.index@.contains_key(key),
            |key: Seq<char>| self.entries@[self.index@[key] as int].1,
        )
    }
}

impl<V> PathMap<V> {
    /// Each entry stands where the index says, and nothing else is in the index.
    pub closed spec fn wf(&self) -> bool {
        &&& forall|i: int|
            0 <= i < self.entries@.len() ==> {
                &&& #[trigger] self.index@.contains_key(self.entries@[i].0@)
                &&& self.index@[self.entries@[i].0@] == i
            }
        &&& forall|key: Seq<char>| #[trigger]
            self.index@.contains_key(key) ==> {
                &&& self.index@[key] < self.entries@.len()
                &&& self.entries@[self.index@[key] as int].0@ == key
            }
    }

    /// The map without entries.
    pub fn new() -> (map: PathMap<V>)
        ensures
            map.wf(),
            map@ == Map::<Seq<char>, V>::empty(),
    {
        let map = PathMap { index: StringHashMap::new(), entries: Vec::new() };
        assert(map@ =~= Map::<Seq<char>, V>::empty());
        map
    }

    /// Whether there is an entry for `key`.
    pub fn contains_key(&self, key: &str) -> (r: bool)
        ensures
            r == self@.contains_key(key@),
    {
        self.index.contains_key(key)
    }

    /// Adds an entry for `key`, which has none.
    pub fn insert(&mut self, key: String, value: V)
        requires
            old(self).wf(),
            !old(self)@.contains_key(key@),
        ensures
            final(self).wf(),
            final(self)@ == old(self)@.insert(key@, value),
    {
        let at: usize = self.entries.len();
        self.index.insert(key.clone(), at);
        self.entries.push((key, value));
        assert(self@ =~= old(self)@.insert(key@, value));
    }

    /// Takes out the entry for `key`, if there is one.
    pub fn remove(&mut self, key: &str) -> (value: Option<V>)
        requires
            old(self).wf(),
        ensures
            final(self).wf(),
            final(self)@ == old(self)@.remove(key@),
            match value {
                Some(value) => old(self)@.contains_key(key@) && value == old(self)@[key@],
                None => !old(self)@.contains_key(key@),
            },
    {
        let at: usize = match self.index.get(key) {
            Some(at) => *at,
            None => {
                assert(self@ =~= old(self)@.remove(key@));
                return None;
            },
        };
        self.index.remove(key);
        let (_, value) = self.entries.swap_remove(at);
        if at < self.entries.len() {
            let moved = self.entries[at].0.clone();
            self.index.insert(moved, at);
        }
        proof {
            let index = old(self).index@;
            let entries = old(self).entries@;
            let last = entries.len() - 1;
            assert(index.contains_key(entries[last].0@));
            assert forall|i: int| 0 <= i < self.entries@.len() implies {
                &&& #[trigger] self.index@.contains_key(self.entries@[i].0@)
                &&& self.index@[self.entries@[i].0@] == i
            } by {
                assert(index.contains_key(entries[i].0@));
            }
            assert forall|k: Seq<char>| #[trigger] self.index@.contains_key(k) implies {
                &&& self.index@[k] < self.entries@.len()
                &&& self.entries@[self.index@[k] as int].0@ == k
                &&& self.entries@[self.index@[k] as int].1 == entries[index[k] as int].1
            } by {
                assert(index.contains_key(k));
            }
        }
        assert(self@ =~= old(self)@.remove(key@));
        Some(value)
    }
}

} // verus!
