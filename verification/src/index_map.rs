//! The session's callable table and the item table of one frozen package:
//! a map from a local declaration id to a value. Re-inserting under the same
//! id replaces the earlier value (last write wins, same id).

use vstd::prelude::*;

verus! {

struct Entry<V> {
    id: usize,
    value: V,
}

/// The content of an entry list as a map; the last entry of an id wins.
spec fn entries_map<V>(s: Seq<Entry<V>>) -> Map<int, V>
    decreases s.len(),
{
    if s.len() == 0 {
        Map::empty()
    } else {
        entries_map(s.drop_last()).insert(s.last().id as int, s.last().value)
    }
}

/// Maps a `usize` id to a value; absent ids read as `None`.
pub struct IndexMap<V> {
    entries: Vec<Entry<V>>,
}

impl<V> IndexMap<V> {
    /// The mathematical content: a finite map from ids to values.
    pub closed spec fn as_map(&self) -> Map<int, V> {
        entries_map(self.entries@)
    }

    /// An empty map.
    pub fn new() -> (r: IndexMap<V>)
        ensures
            r.as_map() == Map::<int, V>::empty(),
    {
        IndexMap { entries: Vec::new() }
    }

    /// Reads the value stored under `id`, if any.
    pub fn get(&self, id: usize) -> (r: Option<&V>)
        ensures
            match r {
                Some(v) => self.as_map().dom().contains(id as int) && self.as_map()[id as int]
                    == *v,
                None => !self.as_map().dom().contains(id as int),
            },
    {
        let mut i: usize = self.entries.len();
        proof {
            assert(self.entries@.take(i as int) =~= self.entries@);
        }
        while i > 0
            invariant
                i <= self.entries@.len(),
                entries_map(self.entries@.take(i as int)).dom().contains(id as int)
                    == self.as_map().dom().contains(id as int),
                entries_map(self.entries@.take(i as int)).dom().contains(id as int)
                    ==> entries_map(self.entries@.take(i as int))[id as int] == self.as_map()[id as int],
            decreases i,
        {
            i = i - 1;
            proof {
                assert(self.entries@.take(i + 1).drop_last() =~= self.entries@.take(i as int));
            }
            if self.entries[i].id == id {
                return Some(&self.entries[i].value);
            }
        }
        proof {
            assert(self.entries@.take(0) =~= Seq::<Entry<V>>::empty());
        }
        None
    }

    /// Stores `value` under `id`, replacing any earlier value (last write
    /// wins, same id).
    pub fn insert(&mut self, id: usize, value: V)
        ensures
            final(self).as_map() == old(self).as_map().insert(id as int, value),
    {
        self.entries.push(Entry { id, value });
        proof {
            assert(self.entries@.drop_last() =~= old(self).entries@);
        }
    }
}

} // verus!
