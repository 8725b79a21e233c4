//! The state of one chain.

use vstd::prelude::*;
use crate::log::Log;
use crate::registry::Registry;
use crate::store::Store;

verus! {

/// The application state of one chain. Each handler takes it by reference: no
/// state is shared between chains.
pub struct Messera {
    /// Our posts.
    pub my_messages: Log,
    /// Posts we received from authors we subscribed to.
    pub received_messages: Store,
    /// The chains that receive our posts.
    pub subscribers: Registry,
}

impl Messera {
    /// The registry and the store are well-formed.
    pub open spec fn wf(&self) -> bool {
        self.received_messages.wf() && self.subscribers.wf()
    }

    /// The state of a chain that has not posted, received or been subscribed to.
    pub fn new() -> (state: Messera)
        ensures
            state.wf(),
            state.my_messages@ == Seq::<crate::types::PostView>::empty(),
            state.received_messages@ == Map::<crate::types::ReceivedKey, Seq<char>>::empty(),
            state.subscribers@ == Set::<crate::types::ChainId>::empty(),
    {
        Messera {
            my_messages: Log::new(),
            received_messages: Store::new(),
            subscribers: Registry::new(),
        }
    }
}

} // verus!
