use vstd::prelude::*;
use crate::text::str_equal;

verus! {

/// Whether no two entries share a key.
pub open spec fn keys_unique<V>(entries: Seq<(String, V)>) -> bool {
    forall|i: int, j: int| 0 <= i < j < entries.len() ==> entries[i].0@ != entries[j].0@
}

/// The map that a sequence of entries with distinct keys describes.
pub open spec fn entries_map<V>(entries: Seq<(String, V)>) -> Map<Seq<char>, V>
    decreases entries.len(),
{
    if entries.len() == 0 {
        Map::empty()
    } else {
        entries_map(entries.drop_last()).insert(entries.last().0@, entries.last().1)
    }
}

/// A table of values keyed by strings. Keys are distinct; entries keep the order in which
/// their keys were first inserted.
#[derive(Debug)]
pub struct Table<V> {
    entries: Vec<(String, V)>,
}

proof fn lemma_entries_map<V>(entries: Seq<(String, V)>)
    requires
        keys_unique(entries),
    ensures
        forall|k: Seq<char>| #[trigger] entries_map(entries).contains_key(k) <==> exists|i: int| 0 <= i < entries.len() && entries[i].0@ == k,
        forall|i: int| 0 <= i < entries.len() ==> #[trigger] entries_map(entries)[entries[i].0@] == entries[i].1,
        entries_map(entries).dom().finite(),
        entries_map(entries).dom().len() == entries.len(),
    decreases entries.len(),
{
    if entries.len() > 0 {
        let init = entries.drop_last();
        assert(keys_unique(init)) by {
            assert forall|i: int, j: int| 0 <= i < j < init.len() implies init[i].0@ != init[j].0@ by {
                assert(init[i] == entries[i] && init[j] == entries[j]);
            }
        }
        lemma_entries_map(init);
        let last = entries.last();
        assert(!entries_map(init).contains_key(last.0@)) by {
            if entries_map(init).contains_key(last.0@) {
                let i = choose|i: int| 0 <= i < init.len() && init[i].0@ == last.0@;
                assert(init[i] == entries[i]);
            }
        }
        assert forall|k: Seq<char>| #[trigger] entries_map(entries).contains_key(k) <==> exists|i: int| 0 <= i < entries.len() && entries[i].0@ == k by {
            if entries_map(entries).contains_key(k) && k != last.0@ {
                let i = choose|i: int| 0 <= i < init.len() && init[i].0@ == k;
                assert(entries[i] == init[i]);
            }
            if exists|i: int| 0 <= i < entries.len() && entries[i].0@ == k {
                let i = choose|i: int| 0 <= i < entries.len() && entries[i].0@ == k;
                if i < entries.len() - 1 {
                    assert(init[i] == entries[i]);
                }
            }
        }
        assert forall|i: int| 0 <= i < entries.len() implies #[trigger] entries_map(entries)[entries[i].0@] == entries[i].1 by {
            if i < entries.len() - 1 {
                assert(init[i] == entries[i]);
            }
        }
    }
}

impl<V> View for Table<V> {
    type V = Map<Seq<char>, V>;

    open spec fn view(&self) -> Map<Seq<char>, V> {
        entries_map(self.entries())
    }
}

impl<V> Table<V> {
    #[verifier::type_invariant]
    spec fn inv(self) -> bool {
        keys_unique(self.entries@)
    }

    /// The entries, in order.
    pub closed spec fn entries(self) -> Seq<(String, V)> {
        self.entries@
    }

    /// The keys, in order.
    pub open spec fn keys(self) -> Seq<Seq<char>> {
        self.entries().map_values(|e: (String, V)| e.0@)
    }

    /// Facts that tie the entries to the map view.
    pub proof fn lemma_view(&self)
        requires
            keys_unique(self.entries()),
        ensures
            keys_unique(self.entries()),
            forall|k: Seq<char>| #[trigger] self@.contains_key(k) <==> exists|i: int| 0 <= i < self.entries().len() && self.entries()[i].0@ == k,
            forall|i: int| 0 <= i < self.entries().len() ==> #[trigger] self@[self.entries()[i].0@] == self.entries()[i].1,
            self@.dom().finite(),
            self@.dom().len() == self.entries().len(),
    {
        lemma_entries_map(self.entries());
    }

    /// An empty table.
    pub fn new() -> (r: Self)
        ensures
            r.entries() == Seq::<(String, V)>::empty(),
            r@ == Map::<Seq<char>, V>::empty(),
    {
        Table { entries: Vec::new() }
    }

    /// The number of entries.
    pub fn len(&self) -> (r: usize)
        ensures
            r == self.entries().len(),
            r == self@.dom().len(),
    {
        proof { use_type_invariant(&*self); self.lemma_view(); }
        self.entries.len()
    }

    /// Whether the table is empty.
    pub fn is_empty(&self) -> (r: bool)
        ensures
            r == (self.entries().len() == 0),
            r == (self@.dom().len() == 0),
    {
        proof { use_type_invariant(&*self); self.lemma_view(); }
        self.entries.len() == 0
    }

    /// The entries, in order.
    pub fn as_slice(&self) -> (r: &[(String, V)])
        ensures
            r@ == self.entries(),
    {
        self.entries.as_slice()
    }

    /// The position of the entry for `key`.
    pub fn position(&self, key: &str) -> (r: Option<usize>)
        ensures
            match r {
                Some(i) => i < self.entries().len() && self.entries()[i as int].0@ == key@,
                None => !self@.contains_key(key@),
            },
            r is Some <==> self@.contains_key(key@),
    {
        proof { use_type_invariant(&*self); self.lemma_view(); }
        let mut i: usize = 0;
        while i < self.entries.len()
            invariant
                i <= self.entries@.len(),
                forall|k: int| 0 <= k < i ==> self.entries@[k].0@ != key@,
            decreases self.entries@.len() - i,
        {
            if str_equal(self.entries[i].0.as_str(), key) {
                proof {
                    use_type_invariant(&*self);
                    self.lemma_view();
                    assert(self.entries()[i as int].0@ == key@);
                    assert(self@.contains_key(key@));
                }
                return Some(i);
            }
            i = i + 1;
        }
        None
    }

    /// Whether there is an entry for `key`.
    pub fn contains_key(&self, key: &str) -> (r: bool)
        ensures
            r == self@.contains_key(key@),
    {
        self.position(key).is_some()
    }

    /// The value stored under `key`.
    pub fn get(&self, key: &str) -> (r: Option<&V>)
        ensures
            match r {
                Some(v) => self@.contains_key(key@) && self@[key@] == *v,
                None => !self@.contains_key(key@),
            },
    {
        proof { use_type_invariant(&*self); self.lemma_view(); }
        match self.position(key) {
            Some(i) => Some(&self.entries[i].1),
            None => None,
        }
    }

    /// Stores `value` under `key` and gives back the value it replaces. A new key goes at the
    /// end; an existing key keeps its place.
    pub fn insert(&mut self, key: String, value: V) -> (r: Option<V>)
        ensures
            final(self)@ == old(self)@.insert(key@, value),
            match r {
                Some(v) => old(self)@.contains_key(key@) && old(self)@[key@] == v,
                None => !old(self)@.contains_key(key@),
            },
            old(self)@.contains_key(key@) ==> final(self).keys() == old(self).keys(),
            !old(self)@.contains_key(key@) ==> final(self).keys() == old(self).keys().push(key@),
    {
        proof { use_type_invariant(&*self); self.lemma_view(); }
        let ghost k = key@;
        match self.position(key.as_str()) {
            Some(i) => {
                let ghost old_entries = self.entries@;
                let mut entries: Vec<(String, V)> = Vec::new();
                std::mem::swap(&mut entries, &mut self.entries);
                let (_, old_value) = entries.remove(i);
                entries.insert(i, (key, value));
                proof {
                    assert(entries@ =~= old_entries.update(i as int, (entries@[i as int].0, value)));
                    assert(entries@[i as int].0@ == k);
                    assert(keys_unique(entries@)) by {
                        assert forall|a: int, b: int| 0 <= a < b < entries@.len() implies entries@[a].0@ != entries@[b].0@ by {
                            assert(old_entries[a].0@ != old_entries[b].0@);
                        }
                    }
                }
                self.entries = entries;
                proof {
                    lemma_entries_map(self.entries@);
                    lemma_entries_map(old_entries);
                    assert(entries_map(self.entries@) =~= entries_map(old_entries).insert(k, value)) by {
                        assert forall|kk: Seq<char>| #[trigger] entries_map(self.entries@).contains_key(kk) == entries_map(old_entries).insert(k, value).contains_key(kk) by {
                            if entries_map(old_entries).contains_key(kk) {
                                let j = choose|j: int| 0 <= j < old_entries.len() && old_entries[j].0@ == kk;
                                assert(self.entries@[j].0@ == kk);
                            }
                            if entries_map(self.entries@).contains_key(kk) {
                                let j = choose|j: int| 0 <= j < self.entries@.len() && self.entries@[j].0@ == kk;
                                assert(old_entries[j].0@ == kk || j == i);
                            }
                        }
                        assert forall|kk: Seq<char>| #[trigger] entries_map(self.entries@).contains_key(kk) implies entries_map(self.entries@)[kk] == entries_map(old_entries).insert(k, value)[kk] by {
                            let j = choose|j: int| 0 <= j < self.entries@.len() && self.entries@[j].0@ == kk;
                            if j != i {
                                assert(old_entries[j] == self.entries@[j]);
                            }
                        }
                    }
                    assert(self.keys() =~= old(self).keys()) by {
                        assert forall|a: int| 0 <= a < self.entries@.len() implies #[trigger] self.keys()[a] == old(self).keys()[a] by {
                            if a == i {
                                assert(self.entries@[a].0@ == k);
                            } else {
                                assert(self.entries@[a] == old_entries[a]);
                            }
                        }
                    }
                }
                Some(old_value)
            },
            None => {
                let ghost old_entries = self.entries@;
                let mut entries: Vec<(String, V)> = Vec::new();
                std::mem::swap(&mut entries, &mut self.entries);
                entries.push((key, value));
                proof {
                    assert(entries@.drop_last() =~= old_entries);
                    assert(keys_unique(entries@)) by {
                        assert forall|a: int, b: int| 0 <= a < b < entries@.len() implies entries@[a].0@ != entries@[b].0@ by {
                            if b < old_entries.len() {
                                assert(old_entries[a].0@ != old_entries[b].0@);
                            } else {
                                assert(entries@[a] == old_entries[a]);
                            }
                        }
                    }
                }
                self.entries = entries;
                proof {
                    assert(self.keys() =~= old(self).keys().push(k));
                }
                None
            },
        }
    }

    /// Removes the entry for `key` and gives back its value.
    pub fn remove(&mut self, key: &str) -> (r: Option<V>)
        ensures
            final(self)@ == old(self)@.remove(key@),
            match r {
                Some(v) => old(self)@.contains_key(key@) && old(self)@[key@] == v,
                None => !old(self)@.contains_key(key@),
            },
    {
        proof { use_type_invariant(&*self); self.lemma_view(); }
        match self.position(key) {
            Some(i) => {
                let ghost old_entries = self.entries@;
                let mut entries: Vec<(String, V)> = Vec::new();
                std::mem::swap(&mut entries, &mut self.entries);
                let (_, v) = entries.remove(i);
                proof {
                    let ne = entries@;
                    assert(ne =~= old_entries.remove(i as int));
                    assert(keys_unique(ne)) by {
                        assert forall|a: int, b: int| 0 <= a < b < ne.len() implies ne[a].0@ != ne[b].0@ by {
                            let oa = if a < i { a } else { a + 1 };
                            let ob = if b < i { b } else { b + 1 };
                            assert(ne[a] == old_entries[oa] && ne[b] == old_entries[ob]);
                        }
                    }
                    lemma_entries_map(ne);
                    lemma_entries_map(old_entries);
                    assert(entries_map(ne) =~= entries_map(old_entries).remove(key@)) by {
                        assert forall|kk: Seq<char>| #[trigger] entries_map(ne).contains_key(kk) == entries_map(old_entries).remove(key@).contains_key(kk) by {
                            if entries_map(ne).contains_key(kk) {
                                let j = choose|j: int| 0 <= j < ne.len() && ne[j].0@ == kk;
                                let oj = if j < i { j } else { j + 1 };
                                assert(ne[j] == old_entries[oj]);
                                assert(oj != i);
                            }
                            if entries_map(old_entries).contains_key(kk) && kk != key@ {
                                let j = choose|j: int| 0 <= j < old_entries.len() && old_entries[j].0@ == kk;
                                assert(j != i);
                                let nj = if j < i { j } else { j - 1 };
                                assert(ne[nj] == old_entries[j]);
                            }
                        }
                        assert forall|kk: Seq<char>| #[trigger] entries_map(ne).contains_key(kk) implies entries_map(ne)[kk] == entries_map(old_entries).remove(key@)[kk] by {
                            let j = choose|j: int| 0 <= j < ne.len() && ne[j].0@ == kk;
                            let oj = if j < i { j } else { j + 1 };
                            assert(ne[j] == old_entries[oj]);
                        }
                    }
                }
                self.entries = entries;
                Some(v)
            },
            None => {
                proof {
                    assert(self@ =~= old(self)@.remove(key@));
                }
                None
            },
        }
    }

    /// Removes every entry.
    pub fn clear(&mut self)
        ensures
            final(self)@ == Map::<Seq<char>, V>::empty(),
            final(self).entries() == Seq::<(String, V)>::empty(),
    {
        self.entries = Vec::new();
    }
}

/// What a table gives back for a key is what was last stored under it: after `insert`, the
/// key holds the new value and every other key keeps what it held; after `remove`, the key
/// holds nothing and every other key keeps what it held.
pub proof fn lemma_read_after_write<V>(before: Table<V>, after_insert: Table<V>, after_remove: Table<V>, key: Seq<char>, value: V, other: Seq<char>)
    requires
        after_insert@ == before@.insert(key, value),
        after_remove@ == before@.remove(key),
        other != key,
    ensures
        after_insert@.contains_key(key) && after_insert@[key] == value,
        after_insert@.contains_key(other) == before@.contains_key(other),
        before@.contains_key(other) ==> after_insert@[other] == before@[other],
        !after_remove@.contains_key(key),
        after_remove@.contains_key(other) == before@.contains_key(other),
        before@.contains_key(other) ==> after_remove@[other] == before@[other],
{
}

} // verus!
