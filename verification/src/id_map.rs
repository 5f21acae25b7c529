//! [`IdMap`] and [`IdSet`]: hashed collections keyed by [`Bytes32`].
//!
//! Entries live in one dense list. An index from the first eight bytes of a key to the list
//! positions of the entries with that prefix finds a key without walking the list. The list makes
//! the collections cheap to walk, and its order is unspecified: removing an entry moves the last
//! one into the gap.

use std::collections::HashMap;

use vstd::prelude::*;

use crate::bytes::Bytes32;

verus! {

broadcast use vstd::std_specs::hash::group_hash_axioms;

/// List positions filed under key prefixes. No position is filed twice under one prefix.
struct PrefixIndex {
    buckets: HashMap<u64, Vec<usize>>,
}

impl PrefixIndex {
    spec fn wf(&self) -> bool {
        forall|k: u64| #[trigger]
            self.buckets@.contains_key(k) ==> self.buckets@[k]@.no_duplicates()
    }

    /// Whether position `p` is filed under prefix `k`.
    spec fn listed(&self, k: u64, p: usize) -> bool {
        self.buckets@.contains_key(k) && self.buckets@[k]@.contains(p)
    }

    fn new() -> (index: Self)
        ensures
            index.wf(),
            forall|k: u64, p: usize| !index.listed(k, p),
    {
        PrefixIndex { buckets: HashMap::new() }
    }

    /// Files position `p` under prefix `k`.
    fn add_position(&mut self, k: u64, p: usize)
        requires
            old(self).wf(),
            !old(self).listed(k, p),
        ensures
            final(self).wf(),
            forall|k2: u64, p2: usize| #[trigger]
                final(self).listed(k2, p2) <==> (old(self).listed(k2, p2) || (k2 == k && p2 == p)),
    {
        let mut bucket: Vec<usize> = match self.buckets.remove(&k) {
            Some(bucket) => bucket,
            None => Vec::new(),
        };
        let ghost before = bucket@;
        bucket.push(p);
        let ghost after = bucket@;
        self.buckets.insert(k, bucket);
        proof {
            assert forall|p2: usize| after.contains(p2) <==> (before.contains(p2) || p2 == p) by {
                assert(after[before.len() as int] == p);
                if before.contains(p2) {
                    let j = choose|j: int| 0 <= j < before.len() && before[j] == p2;
                    assert(after[j] == p2);
                }
            }
            assert(self.buckets@[k]@ == after);
            assert(forall|k2: u64|
                k2 != k ==> (self.buckets@.contains_key(k2) <==> old(self).buckets@.contains_key(
                    k2,
                )));
            assert(forall|k2: u64|
                k2 != k && self.buckets@.contains_key(k2) ==> #[trigger] self.buckets@[k2]
                    == old(self).buckets@[k2]);
        }
    }

    /// Removes position `p` from prefix `k`.
    fn drop_position(&mut self, k: u64, p: usize)
        requires
            old(self).wf(),
            old(self).listed(k, p),
        ensures
            final(self).wf(),
            forall|k2: u64, p2: usize| #[trigger]
                final(self).listed(k2, p2) <==> (old(self).listed(k2, p2) && !(k2 == k && p2 == p)),
    {
        match self.buckets.remove(&k) {
            None => {},
            Some(old_bucket) => {
                let mut bucket: Vec<usize> = old_bucket;
                let ghost before = bucket@;
                let mut i: usize = 0;
                while i < bucket.len() && bucket[i] != p
                    invariant
                        bucket@ == before,
                        i <= before.len(),
                        forall|j: int| 0 <= j < i ==> before[j] != p,
                    decreases before.len() - i,
                {
                    i += 1;
                }
                assert(before.contains(p));
                bucket.swap_remove(i);
                let ghost after = bucket@;
                proof {
                    lemma_swap_remove(before, i as int);
                }
                assert(before[i as int] == p);
                if bucket.len() > 0 {
                    self.buckets.insert(k, bucket);
                    assert(self.buckets@[k]@ == after);
                }
                assert(forall|k2: u64|
                    k2 != k ==> (self.buckets@.contains_key(k2) <==> old(
                        self,
                    ).buckets@.contains_key(k2)));
                assert(forall|k2: u64|
                    k2 != k && self.buckets@.contains_key(k2) ==> #[trigger] self.buckets@[k2]
                        == old(self).buckets@[k2]);
                assert(forall|p2: usize| self.listed(k, p2) <==> after.contains(p2));
            },
        }
    }
}

/// Moving the last element of a list without repetitions over element `i` and shortening the list
/// by one takes out exactly that element.
proof fn lemma_swap_remove<T>(s: Seq<T>, i: int)
    requires
        0 <= i < s.len(),
        s.no_duplicates(),
    ensures
        s.update(i, s.last()).drop_last().no_duplicates(),
        forall|x: T| #[trigger]
            s.update(i, s.last()).drop_last().contains(x) <==> (s.contains(x) && x != s[i]),
{
    let r = s.update(i, s.last()).drop_last();
    assert forall|x: T| #[trigger] r.contains(x) <==> (s.contains(x) && x != s[i]) by {
        if r.contains(x) {
            let j = choose|j: int| 0 <= j < r.len() && r[j] == x;
            if j == i {
                assert(s[s.len() - 1] == x);
            } else {
                assert(s[j] == x);
            }
        }
        if s.contains(x) && x != s[i] {
            let j = choose|j: int| 0 <= j < s.len() && s[j] == x;
            if j == s.len() - 1 {
                assert(r[i] == x);
            } else {
                assert(r[j] == x);
            }
        }
    }
}

/// The keys of an entry list, in list order.
pub open spec fn entry_ids<V>(entries: Seq<(Bytes32, V)>) -> Seq<Bytes32> {
    entries.map_values(|entry: (Bytes32, V)| entry.0)
}

/// The map that an entry list without repeated keys stands for.
pub open spec fn entries_map<V>(entries: Seq<(Bytes32, V)>) -> Map<Bytes32, V> {
    Map::new(
        |id: Bytes32| entry_ids(entries).contains(id),
        |id: Bytes32| entries[entry_ids(entries).index_of(id)].1,
    )
}

/// What an entry list without repeated keys stands for: each entry maps its key to its value, and
/// there is one mapping per entry.
pub proof fn lemma_entries_map<V>(entries: Seq<(Bytes32, V)>)
    requires
        entry_ids(entries).no_duplicates(),
    ensures
        forall|i: int|
            0 <= i < entries.len() ==> entries_map(entries).contains_key((#[trigger] entries[i]).0)
                && entries_map(entries)[entries[i].0] == entries[i].1,
        entries_map(entries).dom() == entry_ids(entries).to_set(),
        entries_map(entries).dom().finite(),
        entries_map(entries).dom().len() == entries.len(),
{
    let ids = entry_ids(entries);
    assert forall|i: int| 0 <= i < entries.len() implies entries_map(entries).contains_key(
        (#[trigger] entries[i]).0,
    ) && entries_map(entries)[entries[i].0] == entries[i].1 by {
        assert(ids[i] == entries[i].0);
        assert(ids.contains(ids[i]));
        let j = ids.index_of(ids[i]);
        assert(0 <= j < ids.len() && ids[j] == ids[i]);
    }
    assert(entries_map(entries).dom() =~= ids.to_set());
    ids.unique_seq_to_set();
}

/// Replacing the value of one entry is a map update.
proof fn lemma_update_value<V>(entries: Seq<(Bytes32, V)>, i: int, value: V)
    requires
        entry_ids(entries).no_duplicates(),
        0 <= i < entries.len(),
    ensures
        entry_ids(entries.update(i, (entries[i].0, value))) == entry_ids(entries),
        entries_map(entries.update(i, (entries[i].0, value))) == entries_map(entries).insert(
            entries[i].0,
            value,
        ),
{
    let after = entries.update(i, (entries[i].0, value));
    assert(entry_ids(after) =~= entry_ids(entries));
    lemma_entries_map(entries);
    lemma_entries_map(after);
    assert(entries_map(after) =~= entries_map(entries).insert(entries[i].0, value)) by {
        assert forall|id: Bytes32| #[trigger]
            entries_map(after).contains_key(id) implies entries_map(after)[id]
            == entries_map(entries).insert(entries[i].0, value)[id] by {
            let j = entry_ids(after).index_of(id);
            assert(entry_ids(after)[j] == after[j].0);
            assert(after[j].0 == entries[j].0);
            assert(entry_ids(entries)[j] == entries[j].0);
            assert(entry_ids(entries)[i] == entries[i].0);
        }
        assert(entry_ids(entries)[i] == entries[i].0);
    }
}

/// Appending an entry with a new key is a map insertion.
proof fn lemma_push_entry<V>(entries: Seq<(Bytes32, V)>, id: Bytes32, value: V)
    requires
        entry_ids(entries).no_duplicates(),
        !entry_ids(entries).contains(id),
    ensures
        entry_ids(entries.push((id, value))).no_duplicates(),
        entries_map(entries.push((id, value))) == entries_map(entries).insert(id, value),
{
    let after = entries.push((id, value));
    assert(entry_ids(after) =~= entry_ids(entries).push(id));
    assert forall|i: int, j: int|
        0 <= i < after.len() && 0 <= j < after.len() && i != j implies entry_ids(after)[i]
        != entry_ids(after)[j] by {
        if i < entries.len() {
            assert(entry_ids(entries).contains(entry_ids(entries)[i]));
        }
        if j < entries.len() {
            assert(entry_ids(entries).contains(entry_ids(entries)[j]));
        }
    }
    lemma_entries_map(entries);
    lemma_entries_map(after);
    assert(entries_map(after) =~= entries_map(entries).insert(id, value)) by {
        assert(entry_ids(after)[entries.len() as int] == id);
        assert forall|x: Bytes32| entry_ids(after).contains(x) <==> (entry_ids(entries).contains(x)
            || x == id) by {
            if entry_ids(entries).contains(x) {
                let j = entry_ids(entries).index_of(x);
                assert(entry_ids(after)[j] == x);
            }
        }
        assert forall|x: Bytes32| #[trigger]
            entries_map(after).contains_key(x) implies entries_map(after)[x] == entries_map(
            entries,
        ).insert(id, value)[x] by {
            let j = entry_ids(after).index_of(x);
            assert(entry_ids(after)[j] == after[j].0);
            if j < entries.len() {
                assert(after[j] == entries[j]);
                assert(entry_ids(entries)[j] == x);
                assert(entry_ids(entries).contains(x));
            }
        }
    }
}

/// Moving the last entry over entry `i` and shortening the list by one is a map removal.
proof fn lemma_remove_entry<V>(entries: Seq<(Bytes32, V)>, i: int)
    requires
        entry_ids(entries).no_duplicates(),
        0 <= i < entries.len(),
    ensures
        entry_ids(entries.update(i, entries.last()).drop_last()).no_duplicates(),
        entries_map(entries.update(i, entries.last()).drop_last()) == entries_map(entries).remove(
            entries[i].0,
        ),
{
    let after = entries.update(i, entries.last()).drop_last();
    let ids = entry_ids(entries);
    assert(entry_ids(after) =~= ids.update(i, ids.last()).drop_last());
    lemma_swap_remove(ids, i);
    lemma_entries_map(entries);
    lemma_entries_map(after);
    assert(entries_map(after) =~= entries_map(entries).remove(entries[i].0)) by {
        assert forall|x: Bytes32| #[trigger]
            entries_map(after).contains_key(x) implies entries_map(after)[x] == entries_map(
            entries,
        ).remove(entries[i].0)[x] by {
            let j = entry_ids(after).index_of(x);
            assert(entry_ids(after)[j] == after[j].0);
            let k = if j == i {
                entries.len() - 1
            } else {
                j
            };
            assert(after[j] == entries[k]);
        }
    }
}

/// A map from [`Bytes32`] keys.
pub struct IdMap<V> {
    entries: Vec<(Bytes32, V)>,
    index: PrefixIndex,
}

impl<V> View for IdMap<V> {
    type V = Map<Bytes32, V>;

    open spec fn view(&self) -> Map<Bytes32, V> {
        entries_map(self.listing())
    }
}

impl<V> IdMap<V> {
    /// The entries in the order in which they are stored.
    pub closed spec fn listing(&self) -> Seq<(Bytes32, V)> {
        self.entries@
    }

    /// No key is stored twice, and the index files exactly the stored positions.
    pub closed spec fn wf(&self) -> bool {
        &&& entry_ids(self.listing()).no_duplicates()
        &&& self.index.wf()
        &&& forall|k: u64, p: usize| #[trigger]
            self.index.listed(k, p) <==> (p < self.entries@.len()
                && self.entries@[p as int].0.spec_prefix() == k)
    }

    /// What well-formedness says of the map: each stored entry is a mapping, and there is one
    /// mapping per stored entry.
    pub proof fn lemma_listing(&self)
        requires
            self.wf(),
        ensures
            entry_ids(self.listing()).no_duplicates(),
            forall|i: int|
                0 <= i < self.listing().len() ==> self@.contains_key((#[trigger] self.listing()[i]).0)
                    && self@[self.listing()[i].0] == self.listing()[i].1,
            self@.dom() == entry_ids(self.listing()).to_set(),
            self@.dom().finite(),
            self@.dom().len() == self.listing().len(),
    {
        lemma_entries_map(self.listing());
    }
}

impl<V: Copy> IdMap<V> {
    /// An empty map.
    pub fn new() -> (map: Self)
        ensures
            map.wf(),
            map@ == Map::<Bytes32, V>::empty(),
    {
        let map = IdMap { entries: Vec::new(), index: PrefixIndex::new() };
        assert(map@ =~= Map::<Bytes32, V>::empty());
        map
    }

    /// The number of mappings.
    pub fn len(&self) -> (len: usize)
        requires
            self.wf(),
        ensures
            len == self@.dom().len(),
            len == self.listing().len(),
    {
        proof {
            self.lemma_listing();
        }
        self.entries.len()
    }

    /// The entry stored at position `i`.
    pub fn entry(&self, i: usize) -> (entry: (Bytes32, V))
        requires
            i < self.listing().len(),
        ensures
            entry == self.listing()[i as int],
    {
        self.entries[i]
    }

    /// The position at which `id` is stored.
    fn position(&self, id: Bytes32) -> (position: Option<usize>)
        requires
            self.wf(),
        ensures
            match position {
                Some(p) => p < self.entries@.len() && self.entries@[p as int].0 == id,
                None => !entry_ids(self.entries@).contains(id),
            },
    {
        let k: u64 = id.prefix();
        let n: usize = self.entries.len();
        match self.index.buckets.get(&k) {
            None => {
                assert forall|j: int| 0 <= j < self.entries@.len() implies #[trigger] entry_ids(
                    self.entries@,
                )[j] != id by {
                    assert(!self.index.listed(k, j as usize));
                }
                None
            },
            Some(bucket) => {
                let mut i: usize = 0;
                while i < bucket.len()
                    invariant
                        i <= bucket@.len(),
                        self.wf(),
                        self.index.buckets@.contains_key(k),
                        *bucket == self.index.buckets@[k],
                        k == id.spec_prefix(),
                        n == self.entries@.len(),
                        forall|j: int|
                            0 <= j < i ==> self.entries@[(#[trigger] bucket@[j]) as int].0 != id,
                    decreases bucket@.len() - i,
                {
                    let p: usize = bucket[i];
                    assert(bucket@.contains(p));
                    assert(self.index.listed(k, p));
                    if self.entries[p].0 == id {
                        return Some(p);
                    }
                    i += 1;
                }
                assert forall|j: int| 0 <= j < self.entries@.len() implies #[trigger] entry_ids(
                    self.entries@,
                )[j] != id by {
                    if self.entries@[j].0 == id {
                        assert(self.index.listed(k, j as usize));
                        assert(bucket@.contains(j as usize));
                    }
                }
                None
            },
        }
    }

    /// The value mapped to `id`.
    pub fn get(&self, id: Bytes32) -> (value: Option<V>)
        requires
            self.wf(),
        ensures
            value == (if self@.contains_key(id) {
                Some(self@[id])
            } else {
                None
            }),
    {
        proof {
            self.lemma_listing();
        }
        match self.position(id) {
            Some(p) => {
                assert(self.listing()[p as int].0 == id);
                Some(self.entries[p].1)
            },
            None => None,
        }
    }

    /// Whether `id` has a mapping.
    pub fn contains_key(&self, id: Bytes32) -> (found: bool)
        requires
            self.wf(),
        ensures
            found == self@.contains_key(id),
    {
        proof {
            self.lemma_listing();
        }
        match self.position(id) {
            Some(p) => {
                assert(self.listing()[p as int].0 == id);
                true
            },
            None => false,
        }
    }

    /// Maps `id` to `value`, replacing any earlier value.
    pub fn insert(&mut self, id: Bytes32, value: V)
        requires
            old(self).wf(),
        ensures
            final(self).wf(),
            final(self)@ == old(self)@.insert(id, value),
    {
        match self.position(id) {
            Some(p) => {
                self.set_value(p, value);
            },
            None => {
                let p: usize = self.entries.len();
                proof {
                    lemma_push_entry(self.entries@, id, value);
                }
                self.index.add_position(id.prefix(), p);
                self.entries.push((id, value));
            },
        }
    }

    /// Replaces the value stored at position `i`.
    pub fn set_value(&mut self, i: usize, value: V)
        requires
            old(self).wf(),
            i < old(self).listing().len(),
        ensures
            final(self).wf(),
            final(self).listing() == old(self).listing().update(
                i as int,
                (old(self).listing()[i as int].0, value),
            ),
            final(self)@ == old(self)@.insert(old(self).listing()[i as int].0, value),
    {
        proof {
            lemma_update_value(self.entries@, i as int, value);
        }
        let id = self.entries[i].0;
        self.entries[i] = (id, value);
    }

    /// Removes the entry stored at position `i`; the last entry takes its place.
    pub fn remove_at(&mut self, i: usize)
        requires
            old(self).wf(),
            i < old(self).listing().len(),
        ensures
            final(self).wf(),
            final(self).listing() == old(self).listing().update(
                i as int,
                old(self).listing().last(),
            ).drop_last(),
            final(self)@ == old(self)@.remove(old(self).listing()[i as int].0),
    {
        proof {
            lemma_remove_entry(self.entries@, i as int);
        }
        let last: usize = self.entries.len() - 1;
        let gone = self.entries[i].0;
        let moved = self.entries[last].0;
        let ghost before = self.entries@;
        assert(self.index.listed(gone.spec_prefix() as u64, i)) by {
            gone.lemma_prefix_bound();
        }
        self.index.drop_position(gone.prefix(), i);
        if i != last {
            self.index.drop_position(moved.prefix(), last);
            self.index.add_position(moved.prefix(), i);
        }
        self.entries.swap_remove(i);
        assert forall|k: u64, p: usize| #[trigger] self.index.listed(k, p) <==> (p
            < self.entries@.len() && self.entries@[p as int].0.spec_prefix() == k) by {
            if p < self.entries@.len() && p != i {
                assert(self.entries@[p as int] == before[p as int]);
            }
        }
    }

    /// Removes the mapping of `id`, if there is one.
    pub fn remove(&mut self, id: Bytes32)
        requires
            old(self).wf(),
        ensures
            final(self).wf(),
            final(self)@ == old(self)@.remove(id),
    {
        proof {
            self.lemma_listing();
        }
        match self.position(id) {
            Some(p) => {
                self.remove_at(p);
            },
            None => {
                assert(self@ =~= self@.remove(id));
            },
        }
    }
}

/// A set of [`Bytes32`] values.
pub struct IdSet {
    members: IdMap<()>,
}

impl View for IdSet {
    type V = Set<Bytes32>;

    closed spec fn view(&self) -> Set<Bytes32> {
        self.members@.dom()
    }
}

impl IdSet {
    /// The backing map is well formed.
    pub closed spec fn wf(&self) -> bool {
        self.members.wf()
    }

    /// A stored set is finite.
    pub proof fn lemma_finite(&self)
        requires
            self.wf(),
        ensures
            self@.finite(),
    {
        self.members.lemma_listing();
    }

    /// An empty set.
    pub fn new() -> (set: Self)
        ensures
            set.wf(),
            set@ == Set::<Bytes32>::empty(),
    {
        let set = IdSet { members: IdMap::new() };
        assert(set@ =~= Set::<Bytes32>::empty());
        set
    }

    /// The number of members.
    pub fn len(&self) -> (len: usize)
        requires
            self.wf(),
        ensures
            len == self@.len(),
    {
        self.members.len()
    }

    /// Whether `id` is a member.
    pub fn contains(&self, id: Bytes32) -> (found: bool)
        requires
            self.wf(),
        ensures
            found == self@.contains(id),
    {
        self.members.contains_key(id)
    }

    /// Adds `id`.
    pub fn insert(&mut self, id: Bytes32)
        requires
            old(self).wf(),
        ensures
            final(self).wf(),
            final(self)@ == old(self)@.insert(id),
    {
        self.members.insert(id, ());
        assert(self@ =~= old(self)@.insert(id));
    }

    /// Removes `id`.
    pub fn remove(&mut self, id: Bytes32)
        requires
            old(self).wf(),
        ensures
            final(self).wf(),
            final(self)@ == old(self)@.remove(id),
    {
        self.members.remove(id);
        assert(self@ =~= old(self)@.remove(id));
    }

    /// The members, each once, in no particular order.
    pub fn to_vec(&self) -> (ids: Vec<Bytes32>)
        requires
            self.wf(),
        ensures
            ids@.no_duplicates(),
            ids@.to_set() == self@,
    {
        proof {
            self.members.lemma_listing();
        }
        let n: usize = self.members.len();
        let ghost all = entry_ids(self.members.listing());
        let mut ids: Vec<Bytes32> = Vec::new();
        let mut i: usize = 0;
        while i < n
            invariant
                i <= n,
                n == self.members.listing().len(),
                all == entry_ids(self.members.listing()),
                ids@ == all.take(i as int),
            decreases n - i,
        {
            ids.push(self.members.entry(i).0);
            i += 1;
            assert(ids@ =~= all.take(i as int));
        }
        assert(all.take(n as int) =~= all);
        ids
    }
}

} // verus!
