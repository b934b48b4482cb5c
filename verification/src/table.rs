//! A keyed table: an association list with unique keys, viewed as a map.
//! It holds the engine's in-memory registries (scenarios, linked pipelines,
//! discovery configurations, landing pages).

use vstd::prelude::*;
use crate::text::same_text;

verus! {

/// A key whose equality is decided on its view.
pub trait TableKey: View + Sized {
    fn same_key(&self, other: &Self) -> (r: bool)
        ensures
            r == (self@ == other@),
    ;
}

impl TableKey for String {
    fn same_key(&self, other: &Self) -> (r: bool) {
        same_text(self.as_str(), other.as_str())
    }
}

impl TableKey for (String, String) {
    fn same_key(&self, other: &Self) -> (r: bool) {
        same_text(self.0.as_str(), other.0.as_str()) && same_text(self.1.as_str(), other.1.as_str())
    }
}

/// The map that an association list denotes (a later entry overrides).
pub open spec fn table_map<K: View, V>(entries: Seq<(K, V)>) -> Map<K::V, V>
    decreases entries.len(),
{
    if entries.len() == 0 {
        Map::empty()
    } else {
        table_map(entries.drop_last()).insert(entries.last().0@, entries.last().1)
    }
}

/// No two entries share a key.
pub open spec fn keys_unique<K: View, V>(entries: Seq<(K, V)>) -> bool {
    forall|i: int, j: int|
        0 <= i < entries.len() && 0 <= j < entries.len() && i != j ==> #[trigger] entries[i].0@ != #[trigger] entries[j].0@
}

/// What the map of an association list with unique keys holds.
pub proof fn lemma_table_map<K: View, V>(entries: Seq<(K, V)>)
    requires
        keys_unique(entries),
    ensures
        forall|k: K::V| #[trigger] table_map(entries).contains_key(k) <==> exists|i: int|
            0 <= i < entries.len() && #[trigger] entries[i].0@ == k,
        forall|i: int| 0 <= i < entries.len() ==> #[trigger] table_map(entries)[entries[i].0@] == entries[i].1,
        table_map(entries).dom().finite(),
        table_map(entries).len() == entries.len(),
    decreases entries.len(),
{
    if entries.len() > 0 {
        let prefix = entries.drop_last();
        assert(keys_unique(prefix)) by {
            assert forall|i: int, j: int|
                0 <= i < prefix.len() && 0 <= j < prefix.len() && i != j implies #[trigger] prefix[i].0@ != #[trigger] prefix[j].0@ by {
                assert(prefix[i] == entries[i]);
                assert(prefix[j] == entries[j]);
            }
        }
        lemma_table_map(prefix);
        let last = entries.last();
        assert(!table_map(prefix).contains_key(last.0@)) by {
            if table_map(prefix).contains_key(last.0@) {
                let i = choose|i: int| 0 <= i < prefix.len() && #[trigger] prefix[i].0@ == last.0@;
                assert(entries[i].0@ == entries[entries.len() - 1].0@);
            }
        }
        assert forall|k: K::V| #[trigger] table_map(entries).contains_key(k) <==> exists|i: int|
            0 <= i < entries.len() && #[trigger] entries[i].0@ == k by {
            if table_map(entries).contains_key(k) && k != last.0@ {
                let i = choose|i: int| 0 <= i < prefix.len() && #[trigger] prefix[i].0@ == k;
                assert(entries[i] == prefix[i]);
            }
            if exists|i: int| 0 <= i < entries.len() && #[trigger] entries[i].0@ == k {
                let i = choose|i: int| 0 <= i < entries.len() && #[trigger] entries[i].0@ == k;
                if i < entries.len() - 1 {
                    assert(prefix[i] == entries[i]);
                }
            }
        }
        assert forall|i: int| 0 <= i < entries.len() implies #[trigger] table_map(entries)[entries[i].0@] == entries[i].1 by {
            if i < entries.len() - 1 {
                assert(prefix[i] == entries[i]);
                assert(entries[i].0@ != entries[entries.len() - 1].0@);
            }
        }
    }
}

/// A keyed table with unique keys.
pub struct KeyedTable<K, V> {
    entries: Vec<(K, V)>,
}

impl<K: TableKey, V> View for KeyedTable<K, V> {
    type V = Map<K::V, V>;

    closed spec fn view(&self) -> Map<K::V, V> {
        table_map(self.entries@)
    }
}

impl<K: TableKey, V> KeyedTable<K, V> {
    /// The table's entries are keyed uniquely.
    pub closed spec fn wf(&self) -> bool {
        keys_unique(self.entries@)
    }

    /// The entries in storage order.
    pub closed spec fn entry_seq(&self) -> Seq<(K, V)> {
        self.entries@
    }

    /// The entries list exactly what the map holds.
    pub proof fn lemma_entries(&self)
        requires
            self.wf(),
        ensures
            forall|k: K::V| #[trigger] self@.contains_key(k) <==> exists|i: int|
                0 <= i < self.entry_seq().len() && #[trigger] self.entry_seq()[i].0@ == k,
            forall|i: int| 0 <= i < self.entry_seq().len() ==> #[trigger] self@[self.entry_seq()[i].0@] == self.entry_seq()[i].1,
            self@.dom().finite(),
            self@.len() == self.entry_seq().len(),
            keys_unique(self.entry_seq()),
    {
        lemma_table_map(self.entries@);
        assert forall|k: K::V| #[trigger] self@.contains_key(k) <==> exists|i: int|
            0 <= i < self.entry_seq().len() && #[trigger] self.entry_seq()[i].0@ == k by {
            if self@.contains_key(k) {
                let i = choose|i: int| 0 <= i < self.entries@.len() && #[trigger] self.entries@[i].0@ == k;
                assert(self.entry_seq()[i].0@ == k);
            }
        }
    }

    /// An empty table.
    pub fn new() -> (t: Self)
        ensures
            t.wf(),
            t@ == Map::<K::V, V>::empty(),
            t.entry_seq().len() == 0,
    {
        KeyedTable { entries: Vec::new() }
    }

    /// The entries in storage order.
    pub fn entries(&self) -> (e: &Vec<(K, V)>)
        ensures
            e@ == self.entry_seq(),
    {
        &self.entries
    }

    /// Number of entries.
    pub fn len(&self) -> (n: usize)
        requires
            self.wf(),
        ensures
            n == self@.len(),
    {
        proof {
            lemma_table_map(self.entries@);
        }
        self.entries.len()
    }

    fn find(&self, key: &K) -> (r: Option<usize>)
        ensures
            r matches Some(j) ==> j < self.entries@.len() && self.entries@[j as int].0@ == key@,
            r is None ==> forall|i: int| 0 <= i < self.entries@.len() ==> #[trigger] self.entries@[i].0@ != key@,
    {
        let mut j: usize = 0;
        while j < self.entries.len()
            invariant
                j <= self.entries@.len(),
                forall|i: int| 0 <= i < j ==> #[trigger] self.entries@[i].0@ != key@,
            decreases self.entries.len() - j,
        {
            if self.entries[j].0.same_key(key) {
                return Some(j);
            }
            j += 1;
        }
        None
    }

    /// The value stored under a key.
    pub fn get(&self, key: &K) -> (r: Option<&V>)
        requires
            self.wf(),
        ensures
            r is Some == self@.contains_key(key@),
            r matches Some(v) ==> *v == self@[key@],
    {
        proof {
            lemma_table_map(self.entries@);
        }
        match self.find(key) {
            Some(j) => Some(&self.entries[j].1),
            None => None,
        }
    }

    /// Store a value under a key, replacing any value it had.
    pub fn insert(&mut self, key: K, value: V)
        requires
            old(self).wf(),
        ensures
            final(self).wf(),
            final(self)@ == old(self)@.insert(key@, value),
    {
        proof {
            lemma_table_map(self.entries@);
        }
        let ghost k = key@;
        let ghost before = self.entries@;
        match self.find(&key) {
            Some(j) => {
                self.entries.set(j, (key, value));
                proof {
                    let after = self.entries@;
                    assert(after == before.update(j as int, after[j as int]));
                    assert(keys_unique(after)) by {
                        assert forall|a: int, b: int|
                            0 <= a < after.len() && 0 <= b < after.len() && a != b implies #[trigger] after[a].0@ != #[trigger] after[b].0@ by {
                            if a != j && b != j {
                                assert(after[a] == before[a]);
                                assert(after[b] == before[b]);
                            } else if a == j {
                                assert(after[b] == before[b]);
                                assert(before[j as int].0@ != before[b].0@);
                            } else {
                                assert(after[a] == before[a]);
                                assert(before[j as int].0@ != before[a].0@);
                            }
                        }
                    }
                    lemma_table_map(after);
                    assert(table_map(after) =~= table_map(before).insert(k, value)) by {
                        assert forall|x: K::V| #[trigger] table_map(after).contains_key(x) == table_map(before).insert(k, value).contains_key(x) by {
                            if table_map(after).contains_key(x) {
                                let i = choose|i: int| 0 <= i < after.len() && #[trigger] after[i].0@ == x;
                                if i != j {
                                    assert(after[i] == before[i]);
                                }
                            }
                            if table_map(before).contains_key(x) {
                                let i = choose|i: int| 0 <= i < before.len() && #[trigger] before[i].0@ == x;
                                if i != j {
                                    assert(after[i] == before[i]);
                                } else {
                                    assert(after[i].0@ == x);
                                }
                            }
                            if x == k {
                                assert(after[j as int].0@ == x);
                            }
                        }
                        assert forall|x: K::V| #[trigger] table_map(after).contains_key(x) implies table_map(after)[x] == table_map(before).insert(k, value)[x] by {
                            let i = choose|i: int| 0 <= i < after.len() && #[trigger] after[i].0@ == x;
                            if i != j {
                                assert(after[i] == before[i]);
                            }
                        }
                    }
                }
            },
            None => {
                self.entries.push((key, value));
                proof {
                    let after = self.entries@;
                    assert(after.drop_last() =~= before);
                    assert(keys_unique(after)) by {
                        assert forall|a: int, b: int|
                            0 <= a < after.len() && 0 <= b < after.len() && a != b implies #[trigger] after[a].0@ != #[trigger] after[b].0@ by {
                            if a < before.len() {
                                assert(after[a] == before[a]);
                            }
                            if b < before.len() {
                                assert(after[b] == before[b]);
                            }
                        }
                    }
                }
            },
        }
    }

    /// Remove the entry of a key, returning its value.
    pub fn remove(&mut self, key: &K) -> (r: Option<V>)
        requires
            old(self).wf(),
        ensures
            final(self).wf(),
            final(self)@ == old(self)@.remove(key@),
            r is Some == old(self)@.contains_key(key@),
            r matches Some(v) ==> v == old(self)@[key@],
    {
        proof {
            lemma_table_map(self.entries@);
        }
        let ghost k = key@;
        let ghost before = self.entries@;
        match self.find(key) {
            Some(j) => {
                let (_, v) = self.entries.remove(j);
                proof {
                    let after = self.entries@;
                    assert(after =~= before.remove(j as int));
                    assert(keys_unique(after)) by {
                        assert forall|a: int, b: int|
                            0 <= a < after.len() && 0 <= b < after.len() && a != b implies #[trigger] after[a].0@ != #[trigger] after[b].0@ by {
                            let a2 = if a < j { a } else { a + 1 };
                            let b2 = if b < j { b } else { b + 1 };
                            assert(after[a] == before[a2]);
                            assert(after[b] == before[b2]);
                        }
                    }
                    lemma_table_map(after);
                    assert(table_map(after) =~= table_map(before).remove(k)) by {
                        assert forall|x: K::V| #[trigger] table_map(after).contains_key(x) == table_map(before).remove(k).contains_key(x) by {
                            if table_map(after).contains_key(x) {
                                let i = choose|i: int| 0 <= i < after.len() && #[trigger] after[i].0@ == x;
                                let i2 = if i < j { i } else { i + 1 };
                                assert(after[i] == before[i2]);
                                assert(before[i2].0@ != before[j as int].0@);
                            }
                            if table_map(before).contains_key(x) && x != k {
                                let i = choose|i: int| 0 <= i < before.len() && #[trigger] before[i].0@ == x;
                                assert(i != j);
                                let i1 = if i < j { i } else { i - 1 };
                                assert(after[i1] == before[i]);
                            }
                        }
                        assert forall|x: K::V| #[trigger] table_map(after).contains_key(x) implies table_map(after)[x] == table_map(before).remove(k)[x] by {
                            let i = choose|i: int| 0 <= i < after.len() && #[trigger] after[i].0@ == x;
                            let i2 = if i < j { i } else { i + 1 };
                            assert(after[i] == before[i2]);
                        }
                    }
                }
                Some(v)
            },
            None => {
                proof {
                    assert(table_map(before) =~= table_map(before).remove(k));
                }
                None
            },
        }
    }
}

} // verus!
