use vstd::prelude::*;

use crate::types::{Address, Symbol};

verus! {

/// A key of a [`Table`]: two keys are the same key when their views are equal.
pub trait Key: View + Sized {
    fn same_key(&self, other: &Self) -> (b: bool)
        ensures
            b == (self@ == other@),
    ;
}

impl Key for Symbol {
    fn same_key(&self, other: &Symbol) -> (b: bool) {
        self.same_as(other)
    }
}

/// The key under which the office records that an account holds a ticket
/// for an event.
pub struct Holder {
    pub holder: Address,
    pub event_id: Symbol,
}

impl View for Holder {
    type V = (Seq<char>, Seq<char>);

    open spec fn view(&self) -> (Seq<char>, Seq<char>) {
        (self.holder@, self.event_id@)
    }
}

impl Key for Holder {
    fn same_key(&self, other: &Holder) -> (b: bool) {
        self.holder.same_as(&other.holder) && self.event_id.same_as(&other.event_id)
    }
}

/// The map that storing `entries` one after the other gives: where a key
/// occurs more than once, the last entry for it counts.
pub open spec fn map_of<K: View, V>(entries: Seq<(K, V)>) -> Map<K::V, V>
    decreases entries.len(),
{
    if entries.len() == 0 {
        Map::empty()
    } else {
        map_of(entries.drop_last()).insert(entries.last().0@, entries.last().1)
    }
}

/// A finite map from keys to values, kept as a list of entries in which no
/// key occurs twice.
#[verifier::reject_recursive_types(K)]
#[verifier::reject_recursive_types(V)]
pub struct Table<K: Key, V> {
    entries: Vec<(K, V)>,
    contents: Ghost<Map<K::V, V>>,
}

impl<K: Key, V> View for Table<K, V> {
    type V = Map<K::V, V>;

    closed spec fn view(&self) -> Map<K::V, V> {
        self.contents@
    }
}

impl<K: Key, V> Table<K, V> {
    /// The entries are the contents of the map, each key once.
    pub closed spec fn wf(&self) -> bool {
        &&& self.contents@.dom().finite()
        &&& forall|i: int, j: int|
            0 <= i < j < self.entries@.len() ==> #[trigger] self.entries@[i].0@
                != #[trigger] self.entries@[j].0@
        &&& forall|i: int|
            0 <= i < self.entries@.len() ==> {
                &&& self.contents@.contains_key(#[trigger] self.entries@[i].0@)
                &&& self.contents@[self.entries@[i].0@] == self.entries@[i].1
            }
        &&& forall|k: K::V| #[trigger]
            self.contents@.contains_key(k) ==> exists|i: int|
                0 <= i < self.entries@.len() && #[trigger] self.entries@[i].0@ == k
    }

    /// A well-formed table holds finitely many entries.
    pub proof fn lemma_finite(&self)
        requires
            self.wf(),
        ensures
            self@.dom().finite(),
    {
    }

    /// An empty table.
    pub fn new() -> (t: Self)
        ensures
            t.wf(),
            t@ == Map::<K::V, V>::empty(),
    {
        Table { entries: Vec::new(), contents: Ghost(Map::empty()) }
    }

    /// The table that storing `entries` one after the other gives.
    pub fn from_entries(entries: Vec<(K, V)>) -> (t: Self)
        ensures
            t.wf(),
            t@ == map_of(entries@),
    {
        let ghost all = entries@;
        let mut table = Table::new();
        let mut rest = entries;
        let ghost mut i: int = 0;
        while rest.len() > 0
            invariant
                table.wf(),
                0 <= i <= all.len(),
                rest@ == all.skip(i),
                table@ == map_of(all.take(i)),
            decreases rest@.len(),
        {
            let (k, v) = rest.remove(0);
            proof {
                assert(all.take(i + 1).drop_last() =~= all.take(i));
                assert(all.skip(i)[0] == all[i]);
            }
            table.insert(k, v);
            proof {
                assert(rest@ =~= all.skip(i + 1));
                i = i + 1;
            }
        }
        proof {
            assert(all.take(i) =~= all);
        }
        table
    }

    /// The position of the entry whose key is `k`, if there is one.
    fn find(&self, k: &K) -> (r: Option<usize>)
        requires
            self.wf(),
        ensures
            match r {
                Some(i) => i < self.entries@.len() && self.entries@[i as int].0@ == k@
                    && self@.contains_key(k@),
                None => !self@.contains_key(k@),
            },
    {
        let mut i: usize = 0;
        while i < self.entries.len()
            invariant
                self.wf(),
                i <= self.entries@.len(),
                forall|j: int| 0 <= j < i ==> self.entries@[j].0@ != k@,
            decreases self.entries@.len() - i,
        {
            if self.entries[i].0.same_key(k) {
                return Some(i);
            }
            i = i + 1;
        }
        None
    }

    /// Whether the table has an entry for `k`.
    pub fn contains_key(&self, k: &K) -> (b: bool)
        requires
            self.wf(),
        ensures
            b == self@.contains_key(k@),
    {
        self.find(k).is_some()
    }

    /// The value stored under `k`, if there is one.
    pub fn get(&self, k: &K) -> (r: Option<&V>)
        requires
            self.wf(),
        ensures
            match r {
                Some(v) => self@.contains_key(k@) && *v == self@[k@],
                None => !self@.contains_key(k@),
            },
    {
        match self.find(k) {
            Some(i) => Some(&self.entries[i].1),
            None => None,
        }
    }

    /// Stores `v` under `k`, in place of what was stored there.
    pub fn insert(&mut self, k: K, v: V)
        requires
            old(self).wf(),
        ensures
            final(self).wf(),
            final(self)@ == old(self)@.insert(k@, v),
    {
        let ghost kv = k@;
        let ghost vv = v;
        let ghost new_contents = self.contents@.insert(kv, vv);
        let ghost old_entries = self.entries@;
        match self.find(&k) {
            Some(i) => {
                self.entries[i] = (k, v);
                self.contents = Ghost(new_contents);
                proof {
                    let n = self.entries@;
                    assert forall|key: K::V| #[trigger] self.contents@.contains_key(key) implies exists|a: int|
                        0 <= a < n.len() && #[trigger] n[a].0@ == key by {
                        if key != kv {
                            let j = choose|j: int|
                                0 <= j < old_entries.len() && #[trigger] old_entries[j].0@ == key;
                            assert(n[j].0@ == key);
                        } else {
                            assert(n[i as int].0@ == key);
                        }
                    }
                }
            },
            None => {
                self.entries.push((k, v));
                self.contents = Ghost(new_contents);
                proof {
                    let n = self.entries@;
                    assert(n[old_entries.len() as int].0@ == kv);
                    assert forall|key: K::V| #[trigger] self.contents@.contains_key(key) implies exists|a: int|
                        0 <= a < n.len() && #[trigger] n[a].0@ == key by {
                        if key != kv {
                            let j = choose|j: int|
                                0 <= j < old_entries.len() && #[trigger] old_entries[j].0@ == key;
                            assert(n[j].0@ == key);
                        } else {
                            assert(n[old_entries.len() as int].0@ == key);
                        }
                    }
                }
            },
        }
    }

    /// Removes the entry for `k`, if there is one.
    pub fn remove(&mut self, k: &K)
        requires
            old(self).wf(),
        ensures
            final(self).wf(),
            final(self)@ == old(self)@.remove(k@),
    {
        let ghost kv = k@;
        let ghost old_entries = self.entries@;
        let ghost new_contents = self.contents@.remove(kv);
        match self.find(k) {
            Some(i) => {
                self.entries.remove(i);
                self.contents = Ghost(new_contents);
                proof {
                    let n = self.entries@;
                    assert forall|a: int| 0 <= a < n.len() implies #[trigger] n[a] == (if a < i {
                        old_entries[a]
                    } else {
                        old_entries[a + 1]
                    }) by {}
                    assert forall|a: int, b: int| 0 <= a < b < n.len() implies #[trigger] n[a].0@
                        != #[trigger] n[b].0@ by {
                        let oa = if a < i { a } else { a + 1 };
                        let ob = if b < i { b } else { b + 1 };
                        assert(old_entries[oa].0@ != old_entries[ob].0@);
                    }
                    assert forall|a: int| 0 <= a < n.len() implies {
                        &&& self.contents@.contains_key(#[trigger] n[a].0@)
                        &&& self.contents@[n[a].0@] == n[a].1
                    } by {
                        let oa = if a < i { a } else { a + 1 };
                        assert(old_entries[oa].0@ != old_entries[i as int].0@);
                    }
                    assert forall|key: K::V| #[trigger] self.contents@.contains_key(key) implies exists|a: int|
                        0 <= a < n.len() && #[trigger] n[a].0@ == key by {
                        let j = choose|j: int|
                            0 <= j < old_entries.len() && #[trigger] old_entries[j].0@ == key;
                        if j < i {
                            assert(n[j].0@ == key);
                        } else {
                            assert(j != i);
                            assert(n[j - 1].0@ == key);
                        }
                    }
                }
            },
            None => {
                assert(new_contents =~= self.contents@);
            },
        }
    }
}

} // verus!
