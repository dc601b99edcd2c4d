//! A bounded cache of what has been loaded or built for chunks.

use vstd::prelude::*;

verus! {

pub const MAX_CACHED_CHUNKS: usize = 128;

pub const MAX_CACHED_CHUNK_PACKETS: usize = 512;

/// What a cache entry belongs to: a database, a chunk in it, and a protocol
/// version, which is 0 for entries that are the same for all versions.
#[derive(Clone, Copy, Debug, PartialEq, Eq, Structural)]
pub struct CacheKey {
    pub database: usize,
    pub x: i32,
    pub z: i32,
    pub protocol: i32,
}

/// A cache that starts over when it is full.
#[derive(Debug)]
pub struct ChunkCache<V> {
    limit: usize,
    entries: Vec<(CacheKey, V)>,
}

/// The map that a list of entries makes: the first entry of a key counts.
pub open spec fn entries_map<V>(s: Seq<(CacheKey, V)>) -> Map<CacheKey, V>
    decreases s.len(),
{
    if s.len() == 0 {
        Map::empty()
    } else {
        entries_map(s.drop_first()).insert(s[0].0, s[0].1)
    }
}

impl<V> View for ChunkCache<V> {
    type V = Map<CacheKey, V>;

    closed spec fn view(&self) -> Map<CacheKey, V> {
        entries_map(self.entries@)
    }
}

proof fn lemma_entries<V>(s: Seq<(CacheKey, V)>, key: CacheKey)
    ensures
        entries_map(s).dom().contains(key) <==> exists|i: int|
            0 <= i < s.len() && (#[trigger] s[i]).0 == key,
        forall|i: int|
            0 <= i < s.len() && (#[trigger] s[i]).0 == key && (forall|j: int|
                0 <= j < i ==> (#[trigger] s[j]).0 != key) ==> entries_map(s)[key] == s[i].1,
    decreases s.len(),
{
    if s.len() > 0 {
        let rest = s.drop_first();
        lemma_entries(rest, key);
        if exists|i: int| 0 <= i < s.len() && (#[trigger] s[i]).0 == key {
            let i = choose|i: int| 0 <= i < s.len() && (#[trigger] s[i]).0 == key;
            if i > 0 {
                assert(rest[i - 1].0 == key);
            }
        }
        if entries_map(rest).dom().contains(key) {
            let i = choose|i: int| 0 <= i < rest.len() && (#[trigger] rest[i]).0 == key;
            assert(s[i + 1].0 == key);
        }
        if s[0].0 == key {
            assert(s[0].0 == key);
        }
        assert forall|i: int|
            0 <= i < s.len() && (#[trigger] s[i]).0 == key && (forall|j: int|
                0 <= j < i ==> (#[trigger] s[j]).0 != key) implies entries_map(s)[key]
            == s[i].1 by {
            if i > 0 {
                assert(s[0].0 != key);
                assert(rest[i - 1] == s[i]);
                assert forall|j: int| 0 <= j < i - 1 implies (#[trigger] rest[j]).0 != key by {
                    assert(s[j + 1].0 != key);
                }
            }
        }
    }
}

impl<V> ChunkCache<V> {
    /// No key is held twice, and there are never more entries than the limit.
    pub closed spec fn wf(&self) -> bool {
        &&& 0 < self.limit
        &&& self.entries@.len() <= self.limit
        &&& forall|i: int, j: int|
            0 <= i < j < self.entries@.len() ==> (#[trigger] self.entries@[i]).0 != (
            #[trigger] self.entries@[j]).0
    }

    /// How many entries there can be.
    pub closed spec fn bound(&self) -> nat {
        self.limit as nat
    }

    /// How many entries there are.
    pub closed spec fn size(&self) -> nat {
        self.entries@.len()
    }

    /// What stays when an entry is made: nothing of a full cache.
    pub open spec fn kept(&self) -> Map<CacheKey, V> {
        if self.size() >= self.bound() {
            Map::empty()
        } else {
            self@
        }
    }

    pub fn new(limit: usize) -> (c: Self)
        requires
            0 < limit,
        ensures
            c.wf(),
            c.bound() == limit,
            c.size() == 0,
            c@ == Map::<CacheKey, V>::empty(),
    {
        ChunkCache { limit, entries: Vec::new() }
    }

    fn position(&self, key: CacheKey) -> (r: Option<usize>)
        ensures
            r matches Some(i) ==> i < self.entries@.len() && self.entries@[i as int].0 == key
                && forall|j: int| 0 <= j < i ==> (#[trigger] self.entries@[j]).0 != key,
            r is None ==> forall|j: int|
                0 <= j < self.entries@.len() ==> (#[trigger] self.entries@[j]).0 != key,
    {
        let mut i: usize = 0;
        while i < self.entries.len()
            invariant
                i <= self.entries.len(),
                forall|j: int| 0 <= j < i ==> (#[trigger] self.entries@[j]).0 != key,
            decreases self.entries.len() - i,
        {
            if self.entries[i].0 == key {
                return Some(i);
            }
            i += 1;
        }
        None
    }

    pub fn get(&self, key: CacheKey) -> (r: Option<&V>)
        ensures
            r == (if self@.dom().contains(key) {
                Some(&self@[key])
            } else {
                None
            }),
    {
        proof {
            lemma_entries(self.entries@, key);
        }
        match self.position(key) {
            Some(i) => Some(&self.entries[i].1),
            None => None,
        }
    }

    /// Enters a value, in place of what the key had before. A full cache is
    /// emptied first.
    pub fn insert(&mut self, key: CacheKey, value: V)
        requires
            old(self).wf(),
        ensures
            final(self).wf(),
            final(self).bound() == old(self).bound(),
            final(self)@ == old(self).kept().insert(key, value),
    {
        if self.entries.len() >= self.limit {
            self.entries.clear();
        }
        let ghost before = self.entries@;
        match self.position(key) {
            Some(i) => {
                self.entries.set(i, (key, value));
                proof {
                    let after = self.entries@;
                    assert forall|k: CacheKey|
                        entries_map(after).dom().contains(k) <==> entries_map(before).insert(
                            key,
                            value,
                        ).dom().contains(k) by {
                        lemma_entries(after, k);
                        lemma_entries(before, k);
                        if entries_map(after).dom().contains(k) {
                            let j = choose|j: int|
                                0 <= j < after.len() && (#[trigger] after[j]).0 == k;
                            assert(before[j].0 == k);
                        }
                        if entries_map(before).dom().contains(k) {
                            let j = choose|j: int|
                                0 <= j < before.len() && (#[trigger] before[j]).0 == k;
                            assert(after[j].0 == k);
                        }
                        assert(after[i as int].0 == key);
                    }
                    assert forall|k: CacheKey| #[trigger]
                        entries_map(after).dom().contains(k) implies entries_map(after)[k]
                        == entries_map(before).insert(key, value)[k] by {
                        lemma_entries(after, k);
                        lemma_entries(before, k);
                        let j = choose|j: int| 0 <= j < after.len() && (#[trigger] after[j]).0 == k;
                        assert forall|m: int| 0 <= m < j implies (#[trigger] after[m]).0 != k by {
                            assert(before[m].0 != before[j].0);
                        }
                        assert forall|m: int| 0 <= m < j implies (#[trigger] before[m]).0 != k by {
                            assert(before[m].0 != before[j].0);
                        }
                        assert(before[j].0 == k);
                        if k == key {
                            if j != i {
                                if j < i {
                                    assert(before[j].0 != before[i as int].0);
                                } else {
                                    assert(before[i as int].0 != before[j].0);
                                }
                            }
                        }
                    }
                    assert(entries_map(after) =~= entries_map(before).insert(key, value));
                }
            },
            None => {
                self.entries.insert(0, (key, value));
                proof {
                    let after = self.entries@;
                    assert(after.drop_first() =~= before);
                    assert(after[0] == (key, value));
                    assert(entries_map(after) == entries_map(before).insert(key, value));
                    assert forall|i: int, j: int| 0 <= i < j < after.len() implies (
                    #[trigger] after[i]).0 != (#[trigger] after[j]).0 by {
                        assert(after[j] == before[j - 1]);
                        if i > 0 {
                            assert(after[i] == before[i - 1]);
                        }
                    }
                }
            },
        }
    }

    /// Drops every entry that belongs to a chunk of a database, whatever the
    /// protocol version.
    pub fn forget_chunk(&mut self, database: usize, x: i32, z: i32)
        requires
            old(self).wf(),
        ensures
            final(self).wf(),
            final(self).bound() == old(self).bound(),
            final(self).size() <= old(self).size(),
            forall|key: CacheKey|
                #![trigger final(self)@.dom().contains(key)]
                final(self)@.dom().contains(key) <==> old(self)@.dom().contains(key) && !(
                key.database == database && key.x == x && key.z == z),
            forall|key: CacheKey|
                final(self)@.dom().contains(key) ==> #[trigger] final(self)@[key] == old(
                    self,
                )@[key],
    {
        let mut i: usize = 0;
        let ghost start = self.entries@;
        while i < self.entries.len()
            invariant
                self.wf(),
                self.limit == old(self).limit,
                start == old(self).entries@,
                i <= self.entries@.len() <= start.len(),
                forall|a: int, b: int|
                    0 <= a < b < start.len() ==> (#[trigger] start[a]).0 != (#[trigger] start[b]).0,
                forall|k: int|
                    0 <= k < self.entries@.len() ==> start.contains(#[trigger] self.entries@[k]),
                forall|k: int|
                    0 <= k < i ==> !((#[trigger] self.entries@[k]).0.database == database
                        && self.entries@[k].0.x == x && self.entries@[k].0.z == z),
                forall|k: int|
                    0 <= k < start.len() && !((#[trigger] start[k]).0.database == database
                        && start[k].0.x == x && start[k].0.z == z) ==> self.entries@.contains(
                        start[k],
                    ),
            decreases self.entries@.len() - i,
        {
            let key = self.entries[i].0;
            if key.database == database && key.x == x && key.z == z {
                let ghost before = self.entries@;
                self.entries.remove(i);
                proof {
                    let after = self.entries@;
                    assert(after == before.remove(i as int));
                    assert forall|a: int, b: int| 0 <= a < b < after.len() implies (
                    #[trigger] after[a]).0 != (#[trigger] after[b]).0 by {
                        let a1 = if a < i {
                            a
                        } else {
                            a + 1
                        };
                        let b1 = if b < i {
                            b
                        } else {
                            b + 1
                        };
                        assert(after[a] == before[a1] && after[b] == before[b1]);
                    }
                    assert forall|k: int| 0 <= k < after.len() implies start.contains(
                        #[trigger] after[k],
                    ) by {
                        if k < i {
                            assert(after[k] == before[k]);
                        } else {
                            assert(after[k] == before[k + 1]);
                        }
                    }
                    assert forall|k: int|
                        0 <= k < start.len() && !((#[trigger] start[k]).0.database == database
                            && start[k].0.x == x && start[k].0.z == z) implies after.contains(
                        start[k],
                    ) by {
                        let m = choose|m: int| 0 <= m < before.len() && before[m] == start[k];
                        assert(m != i);
                        if m < i {
                            assert(after[m] == start[k]);
                        } else {
                            assert(after[m - 1] == start[k]);
                        }
                    }
                }
            } else {
                i += 1;
            }
        }
        proof {
            let end = self.entries@;
            assert forall|key: CacheKey| #[trigger]
                entries_map(end).dom().contains(key) <==> entries_map(start).dom().contains(key)
                    && !(key.database == database && key.x == x && key.z == z) by {
                lemma_entries(end, key);
                lemma_entries(start, key);
                if entries_map(end).dom().contains(key) {
                    let k = choose|k: int| 0 <= k < end.len() && (#[trigger] end[k]).0 == key;
                    assert(start.contains(end[k]));
                    let m = choose|m: int| 0 <= m < start.len() && start[m] == end[k];
                    assert(start[m].0 == key);
                }
                if entries_map(start).dom().contains(key) && !(key.database == database && key.x
                    == x && key.z == z) {
                    let m = choose|m: int| 0 <= m < start.len() && (#[trigger] start[m]).0 == key;
                    assert(end.contains(start[m]));
                    let k = choose|k: int| 0 <= k < end.len() && end[k] == start[m];
                    assert(end[k].0 == key);
                }
            }
            assert forall|key: CacheKey| entries_map(end).dom().contains(key) implies #[trigger]
                entries_map(end)[key] == entries_map(start)[key] by {
                lemma_entries(end, key);
                lemma_entries(start, key);
                let k = choose|k: int| 0 <= k < end.len() && (#[trigger] end[k]).0 == key;
                assert(start.contains(end[k]));
                let m = choose|m: int| 0 <= m < start.len() && start[m] == end[k];
                assert forall|j: int| 0 <= j < k implies (#[trigger] end[j]).0 != key by {}
                assert forall|j: int| 0 <= j < m implies (#[trigger] start[j]).0 != key by {
                    assert(start[j].0 != start[m].0);
                }
                assert(entries_map(end)[key] == end[k].1);
                assert(entries_map(start)[key] == start[m].1);
            }
        }
    }

    /// A cache holds as many values as it has entries, and never more than its
    /// limit.
    pub proof fn law_cache_is_bounded(&self)
        requires
            self.wf(),
        ensures
            self@.dom().finite(),
            self@.dom().len() == self.size(),
            self.size() <= self.bound(),
    {
        lemma_entries_count(self.entries@);
    }
}

proof fn lemma_entries_count<V>(s: Seq<(CacheKey, V)>)
    requires
        forall|i: int, j: int|
            0 <= i < j < s.len() ==> (#[trigger] s[i]).0 != (#[trigger] s[j]).0,
    ensures
        entries_map(s).dom().finite(),
        entries_map(s).dom().len() == s.len(),
    decreases s.len(),
{
    if s.len() > 0 {
        let rest = s.drop_first();
        assert forall|i: int, j: int| 0 <= i < j < rest.len() implies (#[trigger] rest[i]).0 != (
        #[trigger] rest[j]).0 by {
            assert(s[i + 1].0 != s[j + 1].0);
        }
        lemma_entries_count(rest);
        lemma_entries(rest, s[0].0);
        if entries_map(rest).dom().contains(s[0].0) {
            let i = choose|i: int| 0 <= i < rest.len() && (#[trigger] rest[i]).0 == s[0].0;
            assert(s[0].0 != s[i + 1].0);
        }
        assert(entries_map(s).dom() =~= entries_map(rest).dom().insert(s[0].0));
    } else {
        assert(entries_map(s).dom() =~= Set::<CacheKey>::empty());
    }
}

} // verus!
