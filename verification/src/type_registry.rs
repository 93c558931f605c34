//! The channels that are found by the type of their processor.
use vstd::prelude::*;
use core::any::TypeId;

use crate::processor::same_type;

verus! {

/// The channel that was registered last for each processor type.
pub struct TypeRegistry {
    entries: Vec<(TypeId, u32)>,
}

/// Whether `i` is the place of `key` among the entries.
spec fn is_entry(entries: Seq<(TypeId, u32)>, key: TypeId, i: int) -> bool {
    0 <= i < entries.len() && entries[i].0 == key
}

/// The map that the entries stand for.
spec fn entries_map(entries: Seq<(TypeId, u32)>) -> Map<TypeId, u32> {
    Map::new(
        |key: TypeId| exists|i: int| is_entry(entries, key, i),
        |key: TypeId| entries[choose|i: int| is_entry(entries, key, i)].1,
    )
}

/// No key occurs twice.
spec fn keys_unique(entries: Seq<(TypeId, u32)>) -> bool {
    forall|i: int, j: int|
        0 <= i < entries.len() && 0 <= j < entries.len() && #[trigger] entries[i].0
            == #[trigger] entries[j].0 ==> i == j
}

/// Every entry is found under its key.
proof fn lemma_entry(entries: Seq<(TypeId, u32)>, i: int)
    requires
        keys_unique(entries),
        0 <= i < entries.len(),
    ensures
        entries_map(entries).contains_key(entries[i].0),
        entries_map(entries)[entries[i].0] == entries[i].1,
{
    let key = entries[i].0;
    assert(is_entry(entries, key, i));
    let j = choose|j: int| is_entry(entries, key, j);
    assert(entries[j].0 == entries[i].0);
}

impl View for TypeRegistry {
    type V = Map<TypeId, u32>;

    closed spec fn view(&self) -> Map<TypeId, u32> {
        entries_map(self.entries@)
    }
}

impl TypeRegistry {
    /// No type is registered twice.
    pub closed spec fn wf(&self) -> bool {
        keys_unique(self.entries@)
    }

    /// Starts with no type.
    pub fn new() -> (r: TypeRegistry)
        ensures
            r.wf(),
            r@ == Map::<TypeId, u32>::empty(),
    {
        let r = TypeRegistry { entries: Vec::new() };
        assert(r@ =~= Map::<TypeId, u32>::empty());
        r
    }

    /// The place of `key` among the entries, or their number.
    fn position(&self, key: &TypeId) -> (r: usize)
        ensures
            r <= self.entries@.len(),
            r < self.entries@.len() ==> self.entries@[r as int].0 == *key,
            r == self.entries@.len() ==> forall|i: int|
                0 <= i < self.entries@.len() ==> (#[trigger] self.entries@[i]).0 != *key,
    {
        let mut i: usize = 0;
        while i < self.entries.len()
            invariant
                i <= self.entries@.len(),
                forall|j: int| 0 <= j < i ==> (#[trigger] self.entries@[j]).0 != *key,
            decreases self.entries@.len() - i,
        {
            if same_type(&self.entries[i].0, key) {
                return i;
            }
            i = i + 1;
        }
        i
    }

    /// The channel that is registered for a type.
    pub fn get(&self, key: &TypeId) -> (r: Option<u32>)
        requires
            self.wf(),
        ensures
            r == if self@.contains_key(*key) {
                Some(self@[*key])
            } else {
                None
            },
    {
        let i: usize = self.position(key);
        if i < self.entries.len() {
            proof {
                lemma_entry(self.entries@, i as int);
            }
            Some(self.entries[i].1)
        } else {
            None
        }
    }

    /// Registers a channel for a type, in place of an earlier one.
    pub fn insert(&mut self, key: TypeId, channel_id: u32)
        requires
            old(self).wf(),
        ensures
            final(self).wf(),
            final(self)@ == old(self)@.insert(key, channel_id),
    {
        let i: usize = self.position(&key);
        let ghost before = self.entries@;
        if i < self.entries.len() {
            self.entries.set(i, (key, channel_id));
        } else {
            self.entries.push((key, channel_id));
        }
        proof {
            let after = self.entries@;
            assert(after[i as int] == (key, channel_id));
            assert forall|j: int| 0 <= j < before.len() && j != i implies after[j] == before[j] by {}
            assert forall|t: TypeId| #[trigger]
                entries_map(after).contains_key(t) <==> entries_map(before).insert(
                    key,
                    channel_id,
                ).contains_key(t) by {
                if t == key {
                    assert(is_entry(after, key, i as int));
                } else {
                    if exists|j: int| is_entry(before, t, j) {
                        let j = choose|j: int| is_entry(before, t, j);
                        assert(is_entry(after, t, j));
                    }
                    if exists|j: int| is_entry(after, t, j) {
                        let j = choose|j: int| is_entry(after, t, j);
                        assert(is_entry(before, t, j));
                    }
                }
            }
            assert forall|t: TypeId| #[trigger]
                entries_map(after).contains_key(t) implies entries_map(after)[t] == entries_map(
                before,
            ).insert(key, channel_id)[t] by {
                let j = choose|j: int| is_entry(after, t, j);
                lemma_entry(after, j);
                if t == key {
                    lemma_entry(after, i as int);
                } else {
                    lemma_entry(before, j);
                }
            }
            assert(entries_map(after) =~= entries_map(before).insert(key, channel_id));
        }
    }

    /// Forgets the channel of a type.
    pub fn remove(&mut self, key: &TypeId)
        requires
            old(self).wf(),
        ensures
            final(self).wf(),
            final(self)@ == old(self)@.remove(*key),
    {
        let i: usize = self.position(key);
        let ghost before = self.entries@;
        if i < self.entries.len() {
            self.entries.remove(i);
        }
        proof {
            let after = self.entries@;
            assert forall|t: TypeId| #[trigger]
                entries_map(after).contains_key(t) <==> entries_map(before).remove(
                    *key,
                ).contains_key(t) by {
                if exists|j: int| is_entry(after, t, j) {
                    let j = choose|j: int| is_entry(after, t, j);
                    let k = if j < i {
                        j
                    } else {
                        j + 1
                    };
                    assert(after[j] == before[k]);
                    assert(is_entry(before, t, k));
                    if i < before.len() {
                        assert(before[i as int].0 == *key);
                    }
                }
                if t != *key && exists|j: int| is_entry(before, t, j) {
                    let j = choose|j: int| is_entry(before, t, j);
                    let k = if j < i {
                        j
                    } else {
                        j - 1
                    };
                    assert(after[k] == before[j]);
                    assert(is_entry(after, t, k));
                }
            }
            assert forall|t: TypeId| #[trigger]
                entries_map(after).contains_key(t) implies entries_map(after)[t] == entries_map(
                before,
            ).remove(*key)[t] by {
                let j = choose|j: int| is_entry(after, t, j);
                let k = if j < i {
                    j
                } else {
                    j + 1
                };
                lemma_entry(after, j);
                assert(after[j] == before[k]);
                lemma_entry(before, k);
            }
            assert(entries_map(after) =~= entries_map(before).remove(*key));
        }
    }
}

} // verus!
