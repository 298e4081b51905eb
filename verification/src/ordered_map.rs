//! A map from text keys to values that remembers the order in which its keys
//! were first written.

use vstd::prelude::*;

verus! {

/// One key of an [`OrderedMap`] with its value.
#[derive(Clone, Debug, PartialEq, Eq)]
pub struct Entry<V> {
    pub key: String,
    pub value: V,
}

/// The map that a list of entries stands for: each entry is written in turn,
/// so of two entries with one key the later one counts.
pub open spec fn entries_map<V: View>(entries: Seq<Entry<V>>) -> Map<Seq<char>, V::V>
    decreases entries.len(),
{
    if entries.len() == 0 {
        Map::empty()
    } else {
        entries_map(entries.drop_last()).insert(entries.last().key@, entries.last().value@)
    }
}

/// No key occurs twice in `entries`.
pub open spec fn distinct_keys<V>(entries: Seq<Entry<V>>) -> bool {
    forall|i: int, j: int|
        0 <= i < entries.len() && 0 <= j < entries.len() && i != j ==> entries[i].key@
            != entries[j].key@
}

/// A key is in the map of `entries` exactly when an entry has it.
pub proof fn lemma_entries_map_domain<V: View>(entries: Seq<Entry<V>>, key: Seq<char>)
    ensures
        entries_map(entries).contains_key(key) <==> exists|i: int|
            0 <= i < entries.len() && entries[i].key@ == key,
    decreases entries.len(),
{
    if entries.len() > 0 {
        let front = entries.drop_last();
        lemma_entries_map_domain(front, key);
        if entries_map(entries).contains_key(key) {
            if entries.last().key@ == key {
                assert(entries[entries.len() - 1].key@ == key);
            } else {
                let i = choose|i: int| 0 <= i < front.len() && front[i].key@ == key;
                assert(entries[i].key@ == key);
            }
        }
        if exists|i: int| 0 <= i < entries.len() && entries[i].key@ == key {
            let i = choose|i: int| 0 <= i < entries.len() && entries[i].key@ == key;
            if i < entries.len() - 1 {
                assert(front[i].key@ == key);
            }
        }
    }
}

/// Where no key occurs twice, the map of `entries` gives each key the value
/// of its entry.
pub proof fn lemma_entries_map_value<V: View>(entries: Seq<Entry<V>>, i: int)
    requires
        distinct_keys(entries),
        0 <= i < entries.len(),
    ensures
        entries_map(entries).contains_key(entries[i].key@),
        entries_map(entries)[entries[i].key@] == entries[i].value@,
    decreases entries.len(),
{
    let front = entries.drop_last();
    if i < entries.len() - 1 {
        assert(distinct_keys(front)) by {
            assert forall|a: int, b: int|
                0 <= a < front.len() && 0 <= b < front.len() && a != b implies front[a].key@
                != front[b].key@ by {
                assert(entries[a].key@ != entries[b].key@);
            }
        }
        lemma_entries_map_value(front, i);
        assert(entries[i].key@ != entries[entries.len() - 1].key@);
    }
}

/// Replacing the value of the entry that holds a key writes that key.
pub proof fn lemma_entries_map_update<V: View>(entries: Seq<Entry<V>>, i: int, entry: Entry<V>)
    requires
        distinct_keys(entries),
        0 <= i < entries.len(),
        entry.key@ == entries[i].key@,
    ensures
        distinct_keys(entries.update(i, entry)),
        entries_map(entries.update(i, entry)) == entries_map(entries).insert(
            entry.key@,
            entry.value@,
        ),
    decreases entries.len(),
{
    let updated = entries.update(i, entry);
    assert(distinct_keys(updated)) by {
        assert forall|a: int, b: int|
            0 <= a < updated.len() && 0 <= b < updated.len() && a != b implies updated[a].key@
            != updated[b].key@ by {
            assert(entries[a].key@ != entries[b].key@);
        }
    }
    let front = entries.drop_last();
    if i == entries.len() - 1 {
        assert(updated.drop_last() =~= front);
        assert(entries_map(updated) =~= entries_map(entries).insert(entry.key@, entry.value@));
    } else {
        assert(distinct_keys(front)) by {
            assert forall|a: int, b: int|
                0 <= a < front.len() && 0 <= b < front.len() && a != b implies front[a].key@
                != front[b].key@ by {
                assert(entries[a].key@ != entries[b].key@);
            }
        }
        lemma_entries_map_update(front, i, entry);
        assert(updated.drop_last() =~= front.update(i, entry));
        assert(entries[i].key@ != entries[entries.len() - 1].key@);
        assert(entries_map(updated) =~= entries_map(entries).insert(entry.key@, entry.value@));
    }
}

/// A map from text keys to values, kept as the list of its entries in the
/// order in which the keys were first written. Its view maps the text of
/// each key to the view of its value.
#[derive(Debug)]
pub struct OrderedMap<V> {
    entries: Vec<Entry<V>>,
}

impl<V: View> View for OrderedMap<V> {
    type V = Map<Seq<char>, V::V>;

    closed spec fn view(&self) -> Map<Seq<char>, V::V> {
        entries_map(self.entries@)
    }
}

impl<V> OrderedMap<V> {
    #[verifier::type_invariant]
    spec fn keys_are_distinct(self) -> bool {
        distinct_keys(self.entries@)
    }

    /// The entries in the order in which their keys were first written.
    pub closed spec fn listing(self) -> Seq<Entry<V>> {
        self.entries@
    }
}

impl<V: View> OrderedMap<V> {
    /// The empty map.
    pub fn new() -> (r: Self)
        ensures
            r@ == Map::<Seq<char>, V::V>::empty(),
            r.listing() == Seq::<Entry<V>>::empty(),
    {
        OrderedMap { entries: Vec::new() }
    }

    /// The number of keys.
    pub fn len(&self) -> (r: usize)
        ensures
            r == self.listing().len(),
    {
        self.entries.len()
    }

    /// The position of `key` in the listing.
    fn position(&self, key: &String) -> (r: Option<usize>)
        ensures
            match r {
                Some(i) => i < self.entries@.len() && self.entries@[i as int].key@ == key@,
                None => forall|j: int| 0 <= j < self.entries@.len() ==> self.entries@[j].key@ != key@,
            },
    {
        let mut i: usize = 0;
        while i < self.entries.len()
            invariant
                i <= self.entries@.len(),
                forall|j: int| 0 <= j < i ==> self.entries@[j].key@ != key@,
            decreases self.entries@.len() - i,
        {
            if self.entries[i].key == *key {
                return Some(i);
            }
            i += 1;
        }
        None
    }

    /// The value of `key`, if the map has that key.
    pub fn get(&self, key: &String) -> (r: Option<&V>)
        ensures
            match r {
                Some(v) => self@.contains_key(key@) && v@ == self@[key@],
                None => !self@.contains_key(key@),
            },
    {
        proof {
            use_type_invariant(self);
            lemma_entries_map_domain(self.entries@, key@);
        }
        match self.position(key) {
            Some(i) => {
                proof {
                    lemma_entries_map_value(self.entries@, i as int);
                }
                Some(&self.entries[i].value)
            },
            None => None,
        }
    }

    /// Whether the map has `key`.
    pub fn contains_key(&self, key: &String) -> (r: bool)
        ensures
            r == self@.contains_key(key@),
    {
        self.get(key).is_some()
    }

    /// Writes `value` under `key`. A key that the map has keeps its place in
    /// the listing; a new key goes to the end.
    pub fn insert(&mut self, key: String, value: V)
        ensures
            final(self)@ == old(self)@.insert(key@, value@),
            old(self)@.contains_key(key@) ==> exists|i: int|
                0 <= i < old(self).listing().len() && old(self).listing()[i].key@ == key@
                    && final(self).listing() == #[trigger] old(self).listing().update(
                    i,
                    Entry { key, value },
                ),
            !old(self)@.contains_key(key@) ==> final(self).listing() == old(self).listing().push(
                Entry { key, value },
            ),
    {
        proof {
            use_type_invariant(&*self);
            lemma_entries_map_domain(self.entries@, key@);
        }
        let found = self.position(&key);
        let entry = Entry { key, value };
        let ghost written = entry;
        let ghost before = self.entries@;
        let mut entries: Vec<Entry<V>> = Vec::new();
        core::mem::swap(&mut self.entries, &mut entries);
        match found {
            Some(i) => {
                proof {
                    lemma_entries_map_update(before, i as int, entry);
                }
                entries.set(i, entry);
                assert(entries@ == before.update(i as int, entry));
            },
            None => {
                entries.push(entry);
                proof {
                    assert(entries@.drop_last() =~= before);
                    assert forall|a: int, b: int|
                        0 <= a < entries@.len() && 0 <= b < entries@.len() && a
                            != b implies entries@[a].key@ != entries@[b].key@ by {
                        if a < before.len() && b < before.len() {
                            assert(before[a].key@ != before[b].key@);
                        }
                    }
                }
            },
        }
        core::mem::swap(&mut self.entries, &mut entries);
        proof {
            match found {
                Some(i) => {
                    let at = i as int;
                    assert(written == Entry { key, value });
                    assert(before == old(self).listing());
                    assert(0 <= at < old(self).listing().len() && old(self).listing()[at].key@
                        == key@ && self.listing() == old(self).listing().update(
                        at,
                        Entry { key, value },
                    ));
                },
                None => {
                    assert(!old(self)@.contains_key(key@));
                },
            }
        }
    }

    /// The entries in the order in which their keys were first written. No
    /// key occurs twice among them, and the map is the map of these entries.
    pub fn entries(&self) -> (r: &Vec<Entry<V>>)
        ensures
            r@ == self.listing(),
            distinct_keys(r@),
            entries_map(r@) == self@,
    {
        proof {
            use_type_invariant(self);
        }
        &self.entries
    }
}

} // verus!
