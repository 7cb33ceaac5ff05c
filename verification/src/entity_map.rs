//! A small map from entity identifiers to values that remembers the order in
//! which its entries arrived.

use vstd::prelude::*;

verus! {

/// One entry of an [`EntityMap`]: an entity's identifier and what is stored for it.
#[derive(Clone, Copy, Debug, PartialEq)]
pub struct Entry<V> {
    pub id: u64,
    pub value: V,
}

/// A map from entity identifiers to values, kept in order of arrival.
#[derive(Debug)]
pub struct EntityMap<V> {
    entries: Vec<Entry<V>>,
}

/// Some entry of `entries` has the identifier `id`.
pub open spec fn has_id<V>(entries: Seq<Entry<V>>, id: u64) -> bool {
    exists|i: int| 0 <= i < entries.len() && (#[trigger] entries[i]).id == id
}

/// The position of an entry with the identifier `id`, if there is one.
pub open spec fn position_of<V>(entries: Seq<Entry<V>>, id: u64) -> int {
    choose|i: int| 0 <= i < entries.len() && (#[trigger] entries[i]).id == id
}

/// No two entries share an identifier.
pub open spec fn has_distinct_ids<V>(entries: Seq<Entry<V>>) -> bool {
    forall|i: int, j: int|
        0 <= i < j < entries.len() ==> (#[trigger] entries[i]).id != (#[trigger] entries[j]).id
}

/// The map that the entries stand for.
pub open spec fn as_map<V>(entries: Seq<Entry<V>>) -> Map<u64, V> {
    Map::new(|id: u64| has_id(entries, id), |id: u64| entries[position_of(entries, id)].value)
}

/// In a list with distinct identifiers, an entry is found at its position
/// and the map holds its value.
pub proof fn lemma_entry_is_mapped<V>(entries: Seq<Entry<V>>, i: int)
    requires
        has_distinct_ids(entries),
        0 <= i < entries.len(),
    ensures
        has_id(entries, entries[i].id),
        position_of(entries, entries[i].id) == i,
        as_map(entries).contains_key(entries[i].id),
        as_map(entries)[entries[i].id] == entries[i].value,
{
}

/// Every key of the map is the identifier of the entry at its position.
pub proof fn lemma_key_has_entry<V>(entries: Seq<Entry<V>>, id: u64)
    requires
        as_map(entries).contains_key(id),
    ensures
        0 <= position_of(entries, id) < entries.len(),
        entries[position_of(entries, id)].id == id,
        entries[position_of(entries, id)].value == as_map(entries)[id],
{
}

/// Appending an entry under an unused identifier inserts it into the map.
pub proof fn lemma_push_inserts<V>(entries: Seq<Entry<V>>, entry: Entry<V>)
    requires
        has_distinct_ids(entries),
        !has_id(entries, entry.id),
    ensures
        has_distinct_ids(entries.push(entry)),
        as_map(entries.push(entry)) == as_map(entries).insert(entry.id, entry.value),
{
    let after = entries.push(entry);
    assert forall|id: u64| has_id(after, id) == (has_id(entries, id) || id == entry.id) by {
        if has_id(entries, id) {
            assert(after[position_of(entries, id)].id == id);
        }
        if id == entry.id {
            assert(after[entries.len() as int].id == id);
        }
    }
    assert forall|id: u64| has_id(after, id) implies #[trigger] as_map(after)[id] == as_map(
        entries,
    ).insert(entry.id, entry.value)[id] by {
        let i = position_of(after, id);
        lemma_entry_is_mapped(after, i);
        if i < entries.len() {
            lemma_entry_is_mapped(entries, i);
        }
    }
}

/// Replacing the value of the entry at position `i` replaces it in the map.
pub proof fn lemma_update_inserts<V>(entries: Seq<Entry<V>>, i: int, value: V)
    requires
        has_distinct_ids(entries),
        0 <= i < entries.len(),
    ensures
        has_distinct_ids(entries.update(i, (Entry { id: entries[i].id, value }))),
        as_map(entries.update(i, (Entry { id: entries[i].id, value }))) == as_map(entries).insert(
            entries[i].id,
            value,
        ),
{
    let after = entries.update(i, Entry { id: entries[i].id, value });
    assert forall|id: u64| has_id(after, id) == has_id(entries, id) by {
        if has_id(entries, id) {
            assert(after[position_of(entries, id)].id == id);
        }
    }
    assert forall|id: u64| has_id(after, id) implies #[trigger] as_map(after)[id] == as_map(
        entries,
    ).insert(entries[i].id, value)[id] by {
        let k = position_of(after, id);
        lemma_entry_is_mapped(after, k);
        lemma_entry_is_mapped(entries, k);
    }
}

/// The position in `entries` of the entry that stands at position `k` once
/// the entry at position `i` is taken out.
spec fn before_removal(i: int, k: int) -> int {
    if k < i {
        k
    } else {
        k + 1
    }
}

/// Taking out the entry at position `i` removes its identifier from the map.
pub proof fn lemma_remove_removes<V>(entries: Seq<Entry<V>>, i: int)
    requires
        has_distinct_ids(entries),
        0 <= i < entries.len(),
    ensures
        has_distinct_ids(entries.remove(i)),
        as_map(entries.remove(i)) == as_map(entries).remove(entries[i].id),
{
    let gone = entries[i].id;
    let after = entries.remove(i);
    assert forall|k: int| 0 <= k < after.len() implies (#[trigger] after[k])
        == entries[before_removal(i, k)] by {}
    assert forall|id: u64| has_id(after, id) == (has_id(entries, id) && id != gone) by {
        if has_id(entries, id) && id != gone {
            let k = position_of(entries, id);
            assert(after[if k < i { k } else { k - 1 }].id == id);
        }
        if has_id(after, id) {
            lemma_entry_is_mapped(entries, before_removal(i, position_of(after, id)));
            lemma_entry_is_mapped(entries, i);
        }
    }
    assert forall|id: u64| has_id(after, id) implies #[trigger] as_map(after)[id] == as_map(
        entries,
    ).remove(gone)[id] by {
        let k = position_of(after, id);
        lemma_entry_is_mapped(after, k);
        lemma_entry_is_mapped(entries, before_removal(i, k));
    }
}

impl<V> EntityMap<V> {
    /// The entries in order of arrival.
    pub closed spec fn entries(&self) -> Seq<Entry<V>> {
        self.entries@
    }

    /// No two entries share an identifier.
    pub open spec fn wf(&self) -> bool {
        has_distinct_ids(self.entries())
    }

    /// The map that the entries stand for.
    pub open spec fn map(&self) -> Map<u64, V> {
        as_map(self.entries())
    }

    /// A map without entries.
    pub fn new() -> (fresh: EntityMap<V>)
        ensures
            fresh.wf(),
            fresh.entries().len() == 0,
            fresh.map() == Map::<u64, V>::empty(),
    {
        let fresh = EntityMap { entries: Vec::new() };
        fresh
    }

    /// The number of entries.
    pub fn len(&self) -> (len: usize)
        ensures
            len == self.entries().len(),
    {
        self.entries.len()
    }

    /// The entry at position `i` in order of arrival.
    pub fn entry(&self, i: usize) -> (entry: &Entry<V>)
        requires
            i < self.entries().len(),
        ensures
            *entry == self.entries()[i as int],
    {
        &self.entries[i]
    }

    /// The position of the entry with the identifier `id`, if there is one.
    pub fn position(&self, id: u64) -> (found: Option<usize>)
        requires
            self.wf(),
        ensures
            found is Some == self.map().contains_key(id),
            found matches Some(i) ==> i < self.entries().len() && self.entries()[i as int].id == id
                && self.entries()[i as int].value == self.map()[id],
    {
        let mut i: usize = 0;
        while i < self.entries.len()
            invariant
                i <= self.entries().len(),
                self.wf(),
                forall|k: int| 0 <= k < i ==> (#[trigger] self.entries()[k]).id != id,
            decreases self.entries.len() - i,
        {
            if self.entries[i].id == id {
                proof {
                    lemma_entry_is_mapped(self.entries(), i as int);
                }
                return Some(i);
            }
            i += 1;
        }
        None
    }

    /// The value stored for `id`, if there is one.
    pub fn get(&self, id: u64) -> (found: Option<&V>)
        requires
            self.wf(),
        ensures
            found is Some == self.map().contains_key(id),
            found matches Some(value) ==> *value == self.map()[id],
    {
        match self.position(id) {
            Some(i) => Some(&self.entries[i].value),
            None => None,
        }
    }

    /// Whether a value is stored for `id`.
    pub fn contains(&self, id: u64) -> (known: bool)
        requires
            self.wf(),
        ensures
            known == self.map().contains_key(id),
    {
        self.position(id).is_some()
    }

    /// Stores `value` for `id`. A new identifier is appended; a known one
    /// keeps its place and has its value replaced.
    pub fn insert(&mut self, id: u64, value: V)
        requires
            old(self).wf(),
        ensures
            final(self).wf(),
            final(self).map() == old(self).map().insert(id, value),
            final(self).entries() == if old(self).map().contains_key(id) {
                old(self).entries().update(
                    position_of(old(self).entries(), id),
                    (Entry { id, value }),
                )
            } else {
                old(self).entries().push((Entry { id, value }))
            },
    {
        match self.position(id) {
            Some(i) => {
                proof {
                    lemma_entry_is_mapped(self.entries(), i as int);
                    lemma_update_inserts(self.entries(), i as int, value);
                }
                self.entries.set(i, Entry { id, value });
            },
            None => {
                proof {
                    lemma_push_inserts(self.entries(), Entry { id, value });
                }
                self.entries.push(Entry { id, value });
            },
        }
    }

    /// Takes the entry for `id` out and returns its value. The other entries
    /// keep their order.
    pub fn remove(&mut self, id: u64) -> (removed: Option<V>)
        requires
            old(self).wf(),
        ensures
            final(self).wf(),
            final(self).map() == old(self).map().remove(id),
            removed is Some == old(self).map().contains_key(id),
            removed matches Some(value) ==> value == old(self).map()[id],
            final(self).entries() == if old(self).map().contains_key(id) {
                old(self).entries().remove(position_of(old(self).entries(), id))
            } else {
                old(self).entries()
            },
    {
        match self.position(id) {
            Some(i) => {
                proof {
                    lemma_entry_is_mapped(self.entries(), i as int);
                    lemma_remove_removes(self.entries(), i as int);
                }
                let entry = self.entries.remove(i);
                Some(entry.value)
            },
            None => None,
        }
    }
}

} // verus!
