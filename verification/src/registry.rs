//! The chains that are subscribed to a chain's channel.

use vstd::prelude::*;
use crate::types::ChainId;

verus! {

/// The membership after `chain` asked to be subscribed.
pub open spec fn subscribed(members: Set<ChainId>, chain: ChainId) -> Set<ChainId> {
    members.insert(chain)
}

/// The membership after `chain` asked to be unsubscribed.
pub open spec fn unsubscribed(members: Set<ChainId>, chain: ChainId) -> Set<ChainId> {
    members.remove(chain)
}

/// The membership after `chain` asked `times` times in a row to be subscribed.
pub open spec fn subscribed_repeatedly(members: Set<ChainId>, chain: ChainId, times: nat) -> Set<
    ChainId,
>
    decreases times,
{
    if times == 0 {
        members
    } else {
        subscribed(subscribed_repeatedly(members, chain, (times - 1) as nat), chain)
    }
}

/// The membership after `chain` asked `times` times in a row to be unsubscribed.
pub open spec fn unsubscribed_repeatedly(
    members: Set<ChainId>,
    chain: ChainId,
    times: nat,
) -> Set<ChainId>
    decreases times,
{
    if times == 0 {
        members
    } else {
        unsubscribed(unsubscribed_repeatedly(members, chain, (times - 1) as nat), chain)
    }
}

/// Subscribing a second time changes nothing.
pub proof fn lemma_subscribe_idempotent(members: Set<ChainId>, chain: ChainId)
    ensures
        subscribed(subscribed(members, chain), chain) == subscribed(members, chain),
        subscribed(members, chain).contains(chain),
{
    assert(members.insert(chain).insert(chain) =~= members.insert(chain));
}

/// Unsubscribing a second time changes nothing.
pub proof fn lemma_unsubscribe_idempotent(members: Set<ChainId>, chain: ChainId)
    ensures
        unsubscribed(unsubscribed(members, chain), chain) == unsubscribed(members, chain),
        !unsubscribed(members, chain).contains(chain),
{
    assert(members.remove(chain).remove(chain) =~= members.remove(chain));
}

/// Asking once or more to be subscribed comes to the same as asking once, and
/// likewise for unsubscribing.
pub proof fn lemma_repetition_is_once(members: Set<ChainId>, chain: ChainId, times: nat)
    requires
        times >= 1,
    ensures
        subscribed_repeatedly(members, chain, times) == subscribed(members, chain),
        unsubscribed_repeatedly(members, chain, times) == unsubscribed(members, chain),
    decreases times,
{
    if times > 1 {
        lemma_repetition_is_once(members, chain, (times - 1) as nat);
        lemma_subscribe_idempotent(members, chain);
        lemma_unsubscribe_idempotent(members, chain);
    } else {
        assert(subscribed_repeatedly(members, chain, 0) == members);
        assert(unsubscribed_repeatedly(members, chain, 0) == members);
    }
}

/// However often a chain subscribed and unsubscribed before, once it has
/// subscribed and then unsubscribed it is no member, and the other chains are
/// members exactly if they were at the start.
pub proof fn lemma_unsubscribe_after_subscribe(
    members: Set<ChainId>,
    chain: ChainId,
    subscribes: nat,
    unsubscribes: nat,
)
    requires
        subscribes >= 1,
        unsubscribes >= 1,
    ensures
        !unsubscribed_repeatedly(
            subscribed_repeatedly(members, chain, subscribes),
            chain,
            unsubscribes,
        ).contains(chain),
        unsubscribed_repeatedly(subscribed_repeatedly(members, chain, subscribes), chain, unsubscribes)
            == unsubscribed(members, chain),
{
    lemma_repetition_is_once(members, chain, subscribes);
    lemma_repetition_is_once(subscribed(members, chain), chain, unsubscribes);
    assert(members.insert(chain).remove(chain) =~= members.remove(chain));
}

/// The set of chains subscribed to one channel. A chain is a member or it is
/// not: nothing else is kept about it.
pub struct Registry {
    members: Vec<ChainId>,
}

impl View for Registry {
    type V = Set<ChainId>;

    closed spec fn view(&self) -> Set<ChainId> {
        self.members@.to_set()
    }
}

impl Registry {
    /// No chain is listed twice.
    pub closed spec fn wf(&self) -> bool {
        self.members@.no_duplicates()
    }

    /// A registry without members.
    pub fn new() -> (registry: Registry)
        ensures
            registry.wf(),
            registry@ == Set::<ChainId>::empty(),
    {
        let registry = Registry { members: Vec::new() };
        assert(registry@ =~= Set::<ChainId>::empty());
        registry
    }

    /// The number of members.
    pub fn len(&self) -> (n: usize)
        requires
            self.wf(),
        ensures
            n == self@.len(),
            self@.finite(),
    {
        proof {
            self.members@.unique_seq_to_set();
        }
        self.members.len()
    }

    fn position(&self, chain: ChainId) -> (res: Option<usize>)
        ensures
            match res {
                Some(i) => i < self.members@.len() && self.members@[i as int] == chain,
                None => !self.members@.contains(chain),
            },
    {
        let mut i: usize = 0;
        while i < self.members.len()
            invariant
                i <= self.members@.len(),
                forall|j: int| 0 <= j < i ==> self.members@[j] != chain,
            decreases self.members@.len() - i,
        {
            if self.members[i] == chain {
                return Some(i);
            }
            i = i + 1;
        }
        None
    }

    /// Whether `chain` is a member.
    pub fn contains(&self, chain: ChainId) -> (b: bool)
        ensures
            b == self@.contains(chain),
    {
        self.position(chain).is_some()
    }

    /// Makes `chain` a member; nothing changes if it is one already.
    pub fn subscribe(&mut self, chain: ChainId)
        requires
            old(self).wf(),
        ensures
            final(self).wf(),
            final(self)@ == subscribed(old(self)@, chain),
    {
        if self.position(chain).is_none() {
            self.members.push(chain);
            assert(self.members@ =~= old(self).members@.push(chain));
            assert(self.members@.to_set() =~= old(self).members@.to_set().insert(chain)) by {
                assert forall|c: ChainId|
                    self.members@.contains(c) <==> old(self).members@.contains(c) || c == chain by {
                    if old(self).members@.contains(c) {
                        let j = choose|j: int|
                            0 <= j < old(self).members@.len() && old(self).members@[j] == c;
                        assert(self.members@[j] == c);
                    }
                    if c == chain {
                        assert(self.members@[self.members@.len() - 1] == c);
                    }
                }
            }
        } else {
            assert(self@.insert(chain) =~= self@);
        }
    }

    /// Ends the membership of `chain`; nothing changes if it is no member.
    pub fn unsubscribe(&mut self, chain: ChainId)
        requires
            old(self).wf(),
        ensures
            final(self).wf(),
            final(self)@ == unsubscribed(old(self)@, chain),
    {
        match self.position(chain) {
            Some(i) => {
                self.members.remove(i);
                assert(self.members@ =~= old(self).members@.remove(i as int));
                assert(self.members@.to_set() =~= old(self).members@.to_set().remove(chain)) by {
                    let before = old(self).members@;
                    let after = self.members@;
                    assert forall|c: ChainId|
                        after.contains(c) <==> before.contains(c) && c != chain by {
                        if after.contains(c) {
                            let j = choose|j: int| 0 <= j < after.len() && after[j] == c;
                            if j < i {
                                assert(before[j] == c);
                            } else {
                                assert(before[j + 1] == c);
                            }
                        }
                        if before.contains(c) && c != chain {
                            let j = choose|j: int| 0 <= j < before.len() && before[j] == c;
                            if j < i {
                                assert(after[j] == c);
                            } else {
                                assert(after[j - 1] == c);
                            }
                        }
                    }
                }
            },
            None => {
                assert(self@.remove(chain) =~= self@);
            },
        }
    }

    /// The members, each once.
    pub fn members(&self) -> (list: Vec<ChainId>)
        requires
            self.wf(),
        ensures
            list@.no_duplicates(),
            list@.to_set() == self@,
    {
        let mut list: Vec<ChainId> = Vec::new();
        let mut i: usize = 0;
        while i < self.members.len()
            invariant
                i <= self.members@.len(),
                list@ == self.members@.subrange(0, i as int),
            decreases self.members@.len() - i,
        {
            list.push(self.members[i]);
            assert(list@ =~= self.members@.subrange(0, i + 1));
            i = i + 1;
        }
        assert(list@ =~= self.members@);
        list
    }
}

} // verus!
