//! The posts that a chain received from others, each under its key.

use vstd::prelude::*;
use crate::types::ReceivedKey;

verus! {

/// One received post: its key and its text.
pub struct Entry {
    pub key: ReceivedKey,
    pub text: String,
}

/// The keys of `entries` rise strictly from each entry to the next.
pub open spec fn strictly_sorted(entries: Seq<Entry>) -> bool {
    forall|i: int, j: int|
        0 <= i < j < entries.len() ==> (#[trigger] entries[i]).key.lt((#[trigger] entries[j]).key)
}

/// Whether some entry of `entries` has the key `key`.
pub open spec fn holds(entries: Seq<Entry>, key: ReceivedKey) -> bool {
    exists|i: int| 0 <= i < entries.len() && (#[trigger] entries[i]).key == key
}

/// The place of an entry with the key `key`, where there is one.
pub open spec fn slot(entries: Seq<Entry>, key: ReceivedKey) -> int {
    choose|i: int| 0 <= i < entries.len() && (#[trigger] entries[i]).key == key
}

/// The map from each key of `entries` to the text that stands with it.
pub open spec fn contents(entries: Seq<Entry>) -> Map<ReceivedKey, Seq<char>> {
    Map::new(
        |key: ReceivedKey| holds(entries, key),
        |key: ReceivedKey| entries[slot(entries, key)].text@,
    )
}

/// In a sorted sequence a key stands at one place only.
pub proof fn lemma_slot_unique(entries: Seq<Entry>, i: int)
    requires
        strictly_sorted(entries),
        0 <= i < entries.len(),
    ensures
        holds(entries, entries[i].key),
        slot(entries, entries[i].key) == i,
{
    let key = entries[i].key;
    let s = slot(entries, key);
    if s < i {
        assert(entries[s].key.lt(entries[i].key));
    } else if i < s {
        assert(entries[i].key.lt(entries[s].key));
    }
}

/// A map from keys to texts that is kept in the order of its keys. Writing
/// under a key that is present replaces the text that was there.
pub struct Store {
    entries: Vec<Entry>,
}

impl View for Store {
    type V = Map<ReceivedKey, Seq<char>>;

    closed spec fn view(&self) -> Map<ReceivedKey, Seq<char>> {
        contents(self.entries@)
    }
}

impl Store {
    /// The entries stand in the strict order of their keys.
    pub closed spec fn wf(&self) -> bool {
        strictly_sorted(self.entries@)
    }

    /// A store without entries.
    pub fn new() -> (store: Store)
        ensures
            store.wf(),
            store@ == Map::<ReceivedKey, Seq<char>>::empty(),
    {
        let store = Store { entries: Vec::new() };
        assert(store@ =~= Map::<ReceivedKey, Seq<char>>::empty());
        store
    }

    /// The first place whose key does not come before `key`.
    fn lower_bound(&self, key: &ReceivedKey) -> (at: usize)
        requires
            self.wf(),
        ensures
            at <= self.entries@.len(),
            forall|j: int| 0 <= j < at ==> (#[trigger] self.entries@[j]).key.lt(*key),
            at < self.entries@.len() ==> !self.entries@[at as int].key.lt(*key),
            forall|j: int|
                at < j < self.entries@.len() ==> key.lt((#[trigger] self.entries@[j]).key),
    {
        let mut at: usize = 0;
        while at < self.entries.len() && self.entries[at].key.precedes(key)
            invariant
                at <= self.entries@.len(),
                forall|j: int| 0 <= j < at ==> (#[trigger] self.entries@[j]).key.lt(*key),
            decreases self.entries@.len() - at,
        {
            at = at + 1;
        }
        assert forall|j: int| at < j < self.entries@.len() implies key.lt(
            (#[trigger] self.entries@[j]).key,
        ) by {
            assert(self.entries@[at as int].key.lt(self.entries@[j].key));
        }
        at
    }

    /// The text under `key`, if there is one.
    pub fn get(&self, key: &ReceivedKey) -> (res: Option<String>)
        requires
            self.wf(),
        ensures
            self@.contains_key(*key) ==> res.is_some() && res.unwrap()@ == self@[*key],
            !self@.contains_key(*key) ==> res.is_none(),
    {
        let at = self.lower_bound(key);
        if at < self.entries.len() && self.entries[at].key == *key {
            proof {
                lemma_slot_unique(self.entries@, at as int);
            }
            Some(self.entries[at].text.clone())
        } else {
            proof {
                if holds(self.entries@, *key) {
                    let s = slot(self.entries@, *key);
                    if s < at {
                        assert(self.entries@[s].key.lt(*key));
                    } else if s > at {
                        assert(key.lt(self.entries@[s].key));
                    }
                }
            }
            None
        }
    }

    /// Writes `text` under `key`, in place of what was there.
    pub fn upsert(&mut self, key: ReceivedKey, text: String)
        requires
            old(self).wf(),
        ensures
            final(self).wf(),
            final(self)@ == old(self)@.insert(key, text@),
    {
        let at = self.lower_bound(&key);
        let ghost before = self.entries@;
        let present = at < self.entries.len() && self.entries[at].key == key;
        if present {
            self.entries.set(at, Entry { key, text });
        } else {
            self.entries.insert(at, Entry { key, text });
        }
        proof {
            let after = self.entries@;
            assert(after[at as int].key == key);
            assert(after[at as int].text@ == text@);
            if present {
                assert(after.len() == before.len());
                assert forall|j: int| 0 <= j < after.len() implies (#[trigger] after[j]).key
                    == before[j].key by {}
                assert forall|i: int, j: int| 0 <= i < j < after.len() implies (#[trigger] after[i]).key.lt(
                    (#[trigger] after[j]).key,
                ) by {
                    assert(before[i].key.lt(before[j].key));
                }
            } else {
                assert(after.len() == before.len() + 1);
                assert forall|j: int| 0 <= j < at implies #[trigger] after[j] == before[j] by {}
                assert forall|j: int| at < j < after.len() implies #[trigger] after[j] == before[j
                    - 1] by {}
                assert forall|j: int| at <= j < before.len() implies key.lt(
                    (#[trigger] before[j]).key,
                ) by {
                    if j == at {
                        ReceivedKey::lemma_lt_total(key, before[j].key);
                    }
                }
                assert forall|i: int, j: int| 0 <= i < j < after.len() implies (#[trigger] after[i]).key.lt(
                    (#[trigger] after[j]).key,
                ) by {
                    if i < at && j > at {
                        assert(before[i].key.lt(before[j - 1].key));
                    } else if i < at && j < at {
                        assert(before[i].key.lt(before[j].key));
                    } else if i > at {
                        assert(before[i - 1].key.lt(before[j - 1].key));
                    } else if i == at {
                        assert(key.lt(before[j - 1].key));
                    } else {
                        assert(before[i].key.lt(key));
                    }
                }
            }
            assert(strictly_sorted(after));
            let new_map = contents(after);
            let old_map = contents(before);
            assert forall|k: ReceivedKey| new_map.contains_key(k) <==> old_map.insert(
                key,
                text@,
            ).contains_key(k) by {
                if holds(after, k) && k != key {
                    let s = slot(after, k);
                    if present {
                        assert(before[s].key == k);
                    } else if s < at {
                        assert(before[s].key == k);
                    } else {
                        assert(before[s - 1].key == k);
                    }
                }
                if holds(before, k) && k != key {
                    let s = slot(before, k);
                    if present {
                        assert(after[s].key == k);
                    } else if s < at {
                        assert(after[s].key == k);
                    } else {
                        assert(after[s + 1].key == k);
                    }
                }
                if k == key {
                    assert(after[at as int].key == k);
                }
            }
            assert forall|k: ReceivedKey| new_map.contains_key(k) implies new_map[k]
                == old_map.insert(key, text@)[k] by {
                let s = slot(after, k);
                lemma_slot_unique(after, s);
                if k == key {
                    lemma_slot_unique(after, at as int);
                } else {
                    if present {
                        assert(before[s].key == k);
                        lemma_slot_unique(before, s);
                    } else if s < at {
                        assert(before[s].key == k);
                        lemma_slot_unique(before, s);
                    } else {
                        assert(before[s - 1].key == k);
                        lemma_slot_unique(before, s - 1);
                    }
                }
            }
            assert(new_map =~= old_map.insert(key, text@));
        }
    }

    /// The number of entries.
    pub fn len(&self) -> (n: usize)
        requires
            self.wf(),
        ensures
            self@.dom().finite(),
            n == self@.dom().len(),
            n == self.keys_in_order().len(),
    {
        proof {
            self.lemma_keys_in_order();
            self.keys_in_order().unique_seq_to_set();
        }
        self.entries.len()
    }

    /// The keys of the store, in rising order.
    pub closed spec fn keys_in_order(&self) -> Seq<ReceivedKey> {
        Seq::new(self.entries@.len(), |i: int| self.entries@[i].key)
    }

    /// The keys in order are sorted, and they are the keys of the map.
    pub proof fn lemma_keys_in_order(&self)
        requires
            self.wf(),
        ensures
            forall|i: int, j: int|
                0 <= i < j < self.keys_in_order().len() ==> (#[trigger] self.keys_in_order()[i]).lt(
                    #[trigger] self.keys_in_order()[j],
                ),
            forall|k: ReceivedKey| self.keys_in_order().contains(k) <==> self@.contains_key(k),
            self.keys_in_order().no_duplicates(),
            self.keys_in_order().to_set() == self@.dom(),
    {
        let keys = self.keys_in_order();
        assert forall|i: int, j: int| 0 <= i < j < keys.len() implies (#[trigger] keys[i]).lt(
            #[trigger] keys[j],
        ) by {
            assert(self.entries@[i].key.lt(self.entries@[j].key));
        }
        assert forall|k: ReceivedKey| keys.contains(k) <==> self@.contains_key(k) by {
            if keys.contains(k) {
                let i = choose|i: int| 0 <= i < keys.len() && keys[i] == k;
                assert(self.entries@[i].key == k);
            }
            if self@.contains_key(k) {
                let s = slot(self.entries@, k);
                assert(keys[s] == k);
            }
        }
        assert forall|i: int, j: int| 0 <= i < keys.len() && 0 <= j < keys.len() && i != j implies keys[i]
            != keys[j] by {
            if i < j {
                assert(keys[i].lt(keys[j]));
            } else {
                assert(keys[j].lt(keys[i]));
            }
        }
        assert(keys.to_set() =~= self@.dom());
    }

    /// The key at place `index` in the order of the keys, with its text.
    pub fn entry_at(&self, index: usize) -> (res: Option<(ReceivedKey, String)>)
        requires
            self.wf(),
        ensures
            index >= self.keys_in_order().len() ==> res.is_none(),
            index < self.keys_in_order().len() ==> res.is_some() && res.unwrap().0
                == self.keys_in_order()[index as int] && self@.contains_key(res.unwrap().0)
                && res.unwrap().1@ == self@[res.unwrap().0],
    {
        if index < self.entries.len() {
            proof {
                lemma_slot_unique(self.entries@, index as int);
            }
            Some((self.entries[index].key, self.entries[index].text.clone()))
        } else {
            None
        }
    }
}

} // verus!
