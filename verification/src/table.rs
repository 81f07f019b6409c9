//! A small keyed table: at most one value per key, found by a linear scan.
//!
//! The engine's per-peer tables are short (users in one room, frames in
//! flight), and they are emptied by age, entry by entry, which a hash map
//! offers no specified way to do; so a vector of pairs serves. What a table means is the map from
//! its keys to their values; the order in which pairs are stored is not
//! part of that.

use vstd::prelude::*;

verus! {

/// No key stands in the sequence twice.
pub open spec fn distinct_keys<V>(entries: Seq<(u64, V)>) -> bool {
    forall|i: int, j: int| 0 <= i < j < entries.len() ==> entries[i].0 != entries[j].0
}

/// Some pair of the sequence holds the key.
pub open spec fn has_key<V>(entries: Seq<(u64, V)>, key: u64) -> bool {
    exists|i: int| 0 <= i < entries.len() && (#[trigger] entries[i]).0 == key
}

/// The map that a sequence of pairs stands for.
pub open spec fn map_of<V>(entries: Seq<(u64, V)>) -> Map<u64, V> {
    Map::new(
        |k: u64| has_key(entries, k),
        |k: u64| entries[choose|i: int| 0 <= i < entries.len() && (#[trigger] entries[i]).0 == k].1,
    )
}

proof fn lemma_map_of_index<V>(entries: Seq<(u64, V)>, i: int)
    requires
        distinct_keys(entries),
        0 <= i < entries.len(),
    ensures
        map_of(entries).contains_key(entries[i].0),
        map_of(entries)[entries[i].0] == entries[i].1,
{
    let k = entries[i].0;
    assert(has_key(entries, k));
    let c = choose|c: int| 0 <= c < entries.len() && (#[trigger] entries[c]).0 == k;
    assert(c == i);
}

proof fn lemma_map_of_absent<V>(entries: Seq<(u64, V)>, key: u64)
    requires
        forall|i: int| 0 <= i < entries.len() ==> (#[trigger] entries[i]).0 != key,
    ensures
        !map_of(entries).contains_key(key),
{
}

proof fn lemma_map_of_push<V>(entries: Seq<(u64, V)>, key: u64, value: V)
    requires
        distinct_keys(entries),
        !map_of(entries).contains_key(key),
    ensures
        distinct_keys(entries.push((key, value))),
        map_of(entries.push((key, value))) == map_of(entries).insert(key, value),
{
    let longer = entries.push((key, value));
    assert forall|i: int, j: int| 0 <= i < j < longer.len() implies longer[i].0 != longer[j].0 by {
        if j == entries.len() {
            assert(entries[i].0 != key) by {
                if entries[i].0 == key {
                    assert(has_key(entries, key));
                }
            }
        }
    }
    assert forall|k: u64| map_of(longer).contains_key(k) <==> map_of(entries).insert(
        key,
        value,
    ).contains_key(k) by {
        if has_key(longer, k) {
            let i = choose|i: int| 0 <= i < longer.len() && (#[trigger] longer[i]).0 == k;
            if i < entries.len() {
                assert(entries[i].0 == k);
            }
        }
        if has_key(entries, k) {
            let i = choose|i: int| 0 <= i < entries.len() && (#[trigger] entries[i]).0 == k;
            assert(longer[i].0 == k);
        }
        if k == key {
            assert(longer[entries.len() as int].0 == k);
        }
    }
    assert forall|k: u64| map_of(longer).contains_key(k) implies map_of(longer)[k] == map_of(
        entries,
    ).insert(key, value)[k] by {
        let i = choose|i: int| 0 <= i < longer.len() && (#[trigger] longer[i]).0 == k;
        lemma_map_of_index(longer, i);
        if i < entries.len() {
            assert(entries[i] == longer[i]);
            lemma_map_of_index(entries, i);
        }
    }
    assert(map_of(longer) =~= map_of(entries).insert(key, value));
}

proof fn lemma_map_of_remove<V>(entries: Seq<(u64, V)>, at: int)
    requires
        distinct_keys(entries),
        0 <= at < entries.len(),
    ensures
        distinct_keys(entries.remove(at)),
        map_of(entries.remove(at)) == map_of(entries).remove(entries[at].0),
{
    let shorter = entries.remove(at);
    let gone = entries[at].0;
    assert forall|i: int| 0 <= i < shorter.len() implies #[trigger] shorter[i] == entries[if i
        < at {
        i
    } else {
        i + 1
    }] by {}
    assert forall|k: u64| map_of(shorter).contains_key(k) <==> map_of(entries).remove(
        gone,
    ).contains_key(k) by {
        if has_key(shorter, k) {
            let i = choose|i: int| 0 <= i < shorter.len() && (#[trigger] shorter[i]).0 == k;
            let j = if i < at {
                i
            } else {
                i + 1
            };
            assert(entries[j].0 == k);
        }
        if has_key(entries, k) && k != gone {
            let j = choose|j: int| 0 <= j < entries.len() && (#[trigger] entries[j]).0 == k;
            let i = if j < at {
                j
            } else {
                j - 1
            };
            assert(shorter[i].0 == k);
        }
    }
    assert forall|k: u64| map_of(shorter).contains_key(k) implies map_of(shorter)[k] == map_of(
        entries,
    ).remove(gone)[k] by {
        let i = choose|i: int| 0 <= i < shorter.len() && (#[trigger] shorter[i]).0 == k;
        let j = if i < at {
            i
        } else {
            i + 1
        };
        lemma_map_of_index(shorter, i);
        lemma_map_of_index(entries, j);
    }
    assert(map_of(shorter) =~= map_of(entries).remove(gone));
}

proof fn lemma_map_of_empty<V>(entries: Seq<(u64, V)>)
    requires
        entries.len() == 0,
    ensures
        map_of(entries) == Map::<u64, V>::empty(),
{
    assert(map_of(entries) =~= Map::<u64, V>::empty());
}

/// A table from `u64` keys to values.
pub struct Table<V> {
    entries: Vec<(u64, V)>,
}

impl<V> View for Table<V> {
    type V = Map<u64, V>;

    closed spec fn view(&self) -> Map<u64, V> {
        map_of(self.entries@)
    }
}

impl<V> Table<V> {
    #[verifier::type_invariant]
    spec fn well_formed(&self) -> bool {
        distinct_keys(self.entries@)
    }

    /// The number of keys.
    pub closed spec fn count(&self) -> nat {
        self.entries@.len()
    }

    /// A table is empty exactly when it has no key.
    pub proof fn lemma_count_zero(&self)
        ensures
            self.count() == 0 <==> self@ == Map::<u64, V>::empty(),
            self.count() > 0 ==> exists|k: u64| self@.contains_key(k),
    {
        if self.entries@.len() == 0 {
            lemma_map_of_empty(self.entries@);
        } else {
            assert(has_key(self.entries@, self.entries@[0].0));
            assert(self@.contains_key(self.entries@[0].0));
        }
    }

    /// The empty table.
    pub fn new() -> (t: Table<V>)
        ensures
            t@ == Map::<u64, V>::empty(),
            t.count() == 0,
    {
        let t = Table { entries: Vec::new() };
        proof {
            lemma_map_of_empty(t.entries@);
        }
        t
    }

    /// The number of keys.
    pub fn len(&self) -> (n: usize)
        ensures
            n == self.count(),
    {
        self.entries.len()
    }

    fn position(&self, key: u64) -> (at: Option<usize>)
        ensures
            match at {
                Some(i) => i < self.entries@.len() && self.entries@[i as int].0 == key
                    && self@.contains_key(key) && self@[key] == self.entries@[i as int].1,
                None => !self@.contains_key(key),
            },
    {
        proof {
            use_type_invariant(self);
        }
        let mut i: usize = 0;
        while i < self.entries.len()
            invariant
                i <= self.entries@.len(),
                distinct_keys(self.entries@),
                forall|j: int| 0 <= j < i ==> (#[trigger] self.entries@[j]).0 != key,
            decreases self.entries@.len() - i,
        {
            if self.entries[i].0 == key {
                proof {
                    lemma_map_of_index(self.entries@, i as int);
                }
                return Some(i);
            }
            i += 1;
        }
        proof {
            lemma_map_of_absent(self.entries@, key);
        }
        None
    }

    /// Whether the key has a value.
    pub fn contains(&self, key: u64) -> (found: bool)
        ensures
            found == self@.contains_key(key),
    {
        self.position(key).is_some()
    }

    /// The value of a key, if it has one.
    pub fn get(&self, key: u64) -> (value: Option<&V>)
        ensures
            match value {
                Some(v) => self@.contains_key(key) && self@[key] == *v,
                None => !self@.contains_key(key),
            },
    {
        match self.position(key) {
            Some(i) => Some(&self.entries[i].1),
            None => None,
        }
    }

    /// Gives the key this value, in place of any it had.
    pub fn insert(&mut self, key: u64, value: V)
        ensures
            final(self)@ == old(self)@.insert(key, value),
            final(self).count() == old(self).count() + if old(self)@.contains_key(key) {
                0nat
            } else {
                1nat
            },
    {
        proof {
            use_type_invariant(&*self);
        }
        let found = self.position(key);
        let mut entries: Vec<(u64, V)> = Vec::new();
        core::mem::swap(&mut entries, &mut self.entries);
        match found {
            Some(i) => {
                proof {
                    lemma_map_of_remove(entries@, i as int);
                }
                let _ = entries.remove(i);
                proof {
                    lemma_map_of_push(entries@, key, value);
                    assert(old(self)@.remove(key).insert(key, value) =~= old(self)@.insert(
                        key,
                        value,
                    ));
                }
                entries.push((key, value));
            },
            None => {
                proof {
                    lemma_map_of_push(entries@, key, value);
                }
                entries.push((key, value));
            },
        }
        core::mem::swap(&mut entries, &mut self.entries);
    }

    /// Takes the key and its value out of the table.
    pub fn remove(&mut self, key: u64) -> (value: Option<V>)
        ensures
            final(self)@ == old(self)@.remove(key),
            match value {
                Some(v) => old(self)@.contains_key(key) && old(self)@[key] == v
                    && final(self).count() + 1 == old(self).count(),
                None => !old(self)@.contains_key(key) && final(self).count() == old(self).count(),
            },
    {
        proof {
            use_type_invariant(&*self);
        }
        match self.position(key) {
            Some(i) => {
                let mut entries: Vec<(u64, V)> = Vec::new();
                core::mem::swap(&mut entries, &mut self.entries);
                proof {
                    lemma_map_of_remove(entries@, i as int);
                }
                let pair = entries.remove(i);
                core::mem::swap(&mut entries, &mut self.entries);
                Some(pair.1)
            },
            None => {
                assert(old(self)@.remove(key) =~= old(self)@);
                None
            },
        }
    }

    /// Takes some pair out of the table; which one is not fixed. `None`
    /// exactly when the table is empty.
    pub fn take_any(&mut self) -> (pair: Option<(u64, V)>)
        ensures
            match pair {
                Some((k, v)) => old(self)@.contains_key(k) && old(self)@[k] == v
                    && final(self)@ == old(self)@.remove(k)
                    && final(self).count() + 1 == old(self).count(),
                None => old(self).count() == 0 && final(self)@ == old(self)@ && old(self)@
                    == Map::<u64, V>::empty(),
            },
    {
        proof {
            use_type_invariant(&*self);
            self.lemma_count_zero();
        }
        let n = self.entries.len();
        if n == 0 {
            return None;
        }
        let mut entries: Vec<(u64, V)> = Vec::new();
        core::mem::swap(&mut entries, &mut self.entries);
        proof {
            lemma_map_of_index(entries@, n - 1);
            lemma_map_of_remove(entries@, n - 1);
            assert(entries@.remove(n - 1) =~= entries@.drop_last());
        }
        let pair = entries.pop();
        core::mem::swap(&mut entries, &mut self.entries);
        pair
    }
}

} // verus!
