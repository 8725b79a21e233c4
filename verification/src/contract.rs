//! The handlers: what a chain does with a submitted operation and with a
//! message from another chain.

use vstd::prelude::*;
use crate::log::window_of;
use crate::registry::{subscribed, unsubscribed};
use crate::state::Messera;
use crate::types::{
    ChainId, Destination, Operation, OperationView, Outbound, OutboundView, Post, PostView,
    ProtocolMessage, ProtocolMessageView, ReceivedKey, outbound_views, post_views,
};

verus! {

/// How many of its most recent posts a chain sends along with each new post.
pub const LAST_MESSAGES: usize = 20;

/// The name of the channel on which a chain announces its posts: the ASCII
/// bytes of `messages`.
pub fn messages_channel_name() -> (name: Vec<u8>)
    ensures
        name@ == seq![109u8, 101u8, 115u8, 115u8, 97u8, 103u8, 101u8, 115u8],
{
    let name: Vec<u8> = vec![109u8, 101u8, 115u8, 115u8, 97u8, 103u8, 101u8, 115u8];
    assert(name@ =~= seq![109u8, 101u8, 115u8, 115u8, 97u8, 103u8, 101u8, 115u8]);
    name
}

/// An error that can occur during the contract execution.
#[derive(Debug, PartialEq, Eq)]
pub enum Error {
    /// The application doesn't support any cross-application sessions.
    SessionsNotSupported,
    /// The application doesn't support any application calls.
    ApplicationCallsNotSupported,
    /// The storage failed, with the storage's words.
    View(String),
    /// Failed to deserialize BCS bytes.
    BcsError,
    /// Failed to deserialize JSON string.
    JsonError,
}

impl Error {
    /// The words that describe this error.
    pub fn message(&self) -> (text: String)
        ensures
            text@ == match *self {
                Error::SessionsNotSupported => "Messera doesn't support any cross-application sessions"@,
                Error::ApplicationCallsNotSupported => "Messera doesn't support any application calls"@,
                Error::View(words) => words@,
                Error::BcsError => "Failed to deserialize BCS bytes"@,
                Error::JsonError => "Failed to deserialize JSON string"@,
            },
    {
        match self {
            Error::SessionsNotSupported => {
                "Messera doesn't support any cross-application sessions".to_string()
            },
            Error::ApplicationCallsNotSupported => {
                "Messera doesn't support any application calls".to_string()
            },
            Error::View(words) => words.clone(),
            Error::BcsError => "Failed to deserialize BCS bytes".to_string(),
            Error::JsonError => "Failed to deserialize JSON string".to_string(),
        }
    }
}

/// The log after `operation` was executed at `timestamp`: a new post is
/// appended, anything else leaves the log alone.
pub open spec fn log_after_operation(
    log: Seq<PostView>,
    timestamp: u64,
    operation: OperationView,
) -> Seq<PostView> {
    match operation {
        OperationView::Content(text) => log.push(PostView { timestamp, text }),
        _ => log,
    }
}

/// The batch that announces the newest posts of `log`: the length of the whole
/// log, and its last posts, newest first.
pub open spec fn announcement(log: Seq<PostView>) -> OutboundView {
    OutboundView {
        destination: Destination::Subscribers,
        message: ProtocolMessageView::MessageBatch {
            total_count: log.len() as u64,
            messages: window_of(log, LAST_MESSAGES as nat),
        },
    }
}

/// The one message that leaves when `operation` is executed at `timestamp` on
/// a chain whose log was `log`.
pub open spec fn operation_effect(
    log: Seq<PostView>,
    timestamp: u64,
    operation: OperationView,
) -> OutboundView {
    match operation {
        OperationView::RequestSubscribe(target) => OutboundView {
            destination: Destination::Recipient(target),
            message: ProtocolMessageView::RequestSubscribe,
        },
        OperationView::RequestUnsubscribe(target) => OutboundView {
            destination: Destination::Recipient(target),
            message: ProtocolMessageView::RequestUnsubscribe,
        },
        OperationView::Content(text) => announcement(log_after_operation(log, timestamp, operation)),
    }
}

/// The log after each post of `submitted` was published in turn, the first
/// one first.
pub open spec fn log_after_contents(log: Seq<PostView>, submitted: Seq<PostView>) -> Seq<PostView>
    decreases submitted.len(),
{
    if submitted.len() == 0 {
        log
    } else {
        log_after_operation(
            log_after_contents(log, submitted.drop_last()),
            submitted.last().timestamp,
            OperationView::Content(submitted.last().text),
        )
    }
}

/// Publishing posts one after the other lengthens the log by their number,
/// leaves what was there in place, and puts each new post at the place that
/// its rank among the submissions gives: on an empty log, the post submitted
/// as number `i` stands at index `i`.
pub proof fn lemma_contents_fill_log_in_order(log: Seq<PostView>, submitted: Seq<PostView>)
    ensures
        log_after_contents(log, submitted) == log + submitted,
        log_after_contents(log, submitted).len() == log.len() + submitted.len(),
        forall|i: int|
            0 <= i < log.len() ==> #[trigger] log_after_contents(log, submitted)[i] == log[i],
        forall|i: int|
            0 <= i < submitted.len() ==> #[trigger] log_after_contents(log, submitted)[log.len()
                + i] == submitted[i],
    decreases submitted.len(),
{
    if submitted.len() == 0 {
        assert(log + submitted =~= log);
    } else {
        let last = submitted.last();
        lemma_contents_fill_log_in_order(log, submitted.drop_last());
        assert(PostView { timestamp: last.timestamp, text: last.text } == last);
        assert((log + submitted.drop_last()).push(last) =~= log + submitted);
    }
}

/// After the posts of `submitted` were published on an empty log, the window
/// holds the last of them first, then the one before it, and so on, as many
/// as there are and at most as many as the window takes.
pub proof fn lemma_window_after_contents(submitted: Seq<PostView>, max_window: nat)
    ensures
        window_of(log_after_contents(Seq::empty(), submitted), max_window).len() == if submitted.len()
            <= max_window {
            submitted.len()
        } else {
            max_window
        },
        forall|i: int|
            0 <= i < window_of(log_after_contents(Seq::empty(), submitted), max_window).len()
                ==> #[trigger] window_of(
                log_after_contents(Seq::empty(), submitted),
                max_window,
            )[i] == submitted[submitted.len() - 1 - i],
{
    lemma_contents_fill_log_in_order(Seq::empty(), submitted);
    assert(Seq::<PostView>::empty() + submitted =~= submitted);
}

/// How many posts of a batch are taken: all of them, unless the batch claims
/// a shorter log than it holds posts.
pub open spec fn taken(total_count: u64, len: nat) -> nat {
    if len <= total_count {
        len
    } else {
        total_count as nat
    }
}

/// The key of the post at place `i` of a batch from `sender`: the batch
/// starts with the newest post, whose index is one less than `total_count`.
pub open spec fn key_at(
    sender: ChainId,
    total_count: u64,
    messages: Seq<PostView>,
    i: int,
) -> ReceivedKey {
    ReceivedKey {
        timestamp: messages[i].timestamp,
        author: sender,
        sequence: (total_count - 1 - i) as u64,
    }
}

/// The store after the first `n` posts of a batch were written into it, each
/// under its key.
pub open spec fn merged(
    store: Map<ReceivedKey, Seq<char>>,
    sender: ChainId,
    total_count: u64,
    messages: Seq<PostView>,
    n: nat,
) -> Map<ReceivedKey, Seq<char>>
    decreases n,
{
    if n == 0 {
        store
    } else {
        merged(store, sender, total_count, messages, (n - 1) as nat).insert(
            key_at(sender, total_count, messages, n - 1),
            messages[n - 1].text,
        )
    }
}

/// The registry after `message` came from `sender`.
pub open spec fn registry_after_message(
    members: Set<ChainId>,
    sender: ChainId,
    message: ProtocolMessageView,
) -> Set<ChainId> {
    match message {
        ProtocolMessageView::RequestSubscribe => subscribed(members, sender),
        ProtocolMessageView::RequestUnsubscribe => unsubscribed(members, sender),
        ProtocolMessageView::MessageBatch { .. } => members,
    }
}

/// The registry after the messages of `messages` came from `sender`, the
/// first one first.
pub open spec fn registry_after_messages(
    members: Set<ChainId>,
    sender: ChainId,
    messages: Seq<ProtocolMessageView>,
) -> Set<ChainId>
    decreases messages.len(),
{
    if messages.len() == 0 {
        members
    } else {
        registry_after_message(
            registry_after_messages(members, sender, messages.drop_last()),
            sender,
            messages.last(),
        )
    }
}

/// Whatever a chain sent before, its last request decides whether it is
/// subscribed: after a request to subscribe it is, after a request to
/// unsubscribe it is not. The membership of the other chains stays as it was.
pub proof fn lemma_last_request_decides(
    members: Set<ChainId>,
    sender: ChainId,
    messages: Seq<ProtocolMessageView>,
)
    requires
        messages.len() > 0,
    ensures
        messages.last() is RequestSubscribe ==> registry_after_messages(
            members,
            sender,
            messages,
        ).contains(sender),
        messages.last() is RequestUnsubscribe ==> !registry_after_messages(
            members,
            sender,
            messages,
        ).contains(sender),
        forall|other: ChainId|
            other != sender ==> (#[trigger] registry_after_messages(
                members,
                sender,
                messages,
            ).contains(other)) == members.contains(other),
    decreases messages.len(),
{
    let before = registry_after_messages(members, sender, messages.drop_last());
    let after = registry_after_messages(members, sender, messages);
    if messages.len() > 1 {
        lemma_last_request_decides(members, sender, messages.drop_last());
    }
    assert forall|other: ChainId| other != sender implies (#[trigger] after.contains(other))
        == members.contains(other) by {
        assert(after.contains(other) == before.contains(other));
    }
}

/// The store after `message` came from `sender`.
pub open spec fn store_after_message(
    store: Map<ReceivedKey, Seq<char>>,
    sender: ChainId,
    message: ProtocolMessageView,
) -> Map<ReceivedKey, Seq<char>> {
    match message {
        ProtocolMessageView::MessageBatch { total_count, messages } => merged(
            store,
            sender,
            total_count,
            messages,
            taken(total_count, messages.len()),
        ),
        _ => store,
    }
}

/// What the first `n` posts of a batch leave in the store: each stands under
/// its own key, and every other key has what it had.
pub proof fn lemma_merged_contents(
    store: Map<ReceivedKey, Seq<char>>,
    sender: ChainId,
    total_count: u64,
    messages: Seq<PostView>,
    n: nat,
)
    requires
        n <= taken(total_count, messages.len()),
    ensures
        forall|i: int|
            0 <= i < n ==> merged(store, sender, total_count, messages, n).contains_key(
                #[trigger] key_at(sender, total_count, messages, i),
            ) && merged(store, sender, total_count, messages, n)[key_at(
                sender,
                total_count,
                messages,
                i,
            )] == messages[i].text,
        forall|k: ReceivedKey|
            (forall|i: int| 0 <= i < n ==> key_at(sender, total_count, messages, i) != k) ==> (
            #[trigger] merged(store, sender, total_count, messages, n).contains_key(k)
                == store.contains_key(k)) && merged(store, sender, total_count, messages, n)[k]
                == store[k],
        forall|k: ReceivedKey|
            #[trigger] merged(store, sender, total_count, messages, n).contains_key(k)
                ==> store.contains_key(k) || exists|i: int|
                0 <= i < n && key_at(sender, total_count, messages, i) == k,
    decreases n,
{
    if n > 0 {
        let before = merged(store, sender, total_count, messages, (n - 1) as nat);
        let after = merged(store, sender, total_count, messages, n);
        let last = key_at(sender, total_count, messages, n - 1);
        lemma_merged_contents(store, sender, total_count, messages, (n - 1) as nat);
        assert forall|i: int| 0 <= i < n implies after.contains_key(
            #[trigger] key_at(sender, total_count, messages, i),
        ) && after[key_at(sender, total_count, messages, i)] == messages[i].text by {
            if i < n - 1 {
                assert(key_at(sender, total_count, messages, i).sequence != last.sequence);
            }
        }
        assert forall|k: ReceivedKey|
            (forall|i: int| 0 <= i < n ==> key_at(sender, total_count, messages, i) != k) implies (
        #[trigger] after.contains_key(k) == store.contains_key(k)) && after[k] == store[k] by {
            assert(key_at(sender, total_count, messages, n - 1) != k);
            assert forall|i: int| 0 <= i < n - 1 implies key_at(sender, total_count, messages, i)
                != k by {}
        }
        assert forall|k: ReceivedKey| #[trigger] after.contains_key(k) implies store.contains_key(k)
            || exists|i: int| 0 <= i < n && key_at(sender, total_count, messages, i) == k by {
            if k != last {
                assert(before.contains_key(k));
                if !store.contains_key(k) {
                    let i = choose|i: int|
                        0 <= i < n - 1 && key_at(sender, total_count, messages, i) == k;
                    assert(0 <= i < n && key_at(sender, total_count, messages, i) == k);
                }
            } else {
                assert(key_at(sender, total_count, messages, n - 1) == k);
            }
        }
    }
}

/// A batch that is delivered a second time changes nothing.
pub proof fn lemma_merge_idempotent(
    store: Map<ReceivedKey, Seq<char>>,
    sender: ChainId,
    total_count: u64,
    messages: Seq<PostView>,
)
    ensures
        store_after_message(
            store_after_message(
                store,
                sender,
                ProtocolMessageView::MessageBatch { total_count, messages },
            ),
            sender,
            ProtocolMessageView::MessageBatch { total_count, messages },
        ) == store_after_message(
            store,
            sender,
            ProtocolMessageView::MessageBatch { total_count, messages },
        ),
{
    let n = taken(total_count, messages.len());
    let once = merged(store, sender, total_count, messages, n);
    let twice = merged(once, sender, total_count, messages, n);
    lemma_merged_contents(store, sender, total_count, messages, n);
    lemma_merged_contents(once, sender, total_count, messages, n);
    assert forall|k: ReceivedKey| twice.contains_key(k) == once.contains_key(k) && (
    twice.contains_key(k) ==> twice[k] == once[k]) by {
        if exists|i: int| 0 <= i < n && key_at(sender, total_count, messages, i) == k {
            let i = choose|i: int| 0 <= i < n && key_at(sender, total_count, messages, i) == k;
            assert(twice.contains_key(key_at(sender, total_count, messages, i)));
            assert(once.contains_key(key_at(sender, total_count, messages, i)));
        } else {
            assert(twice.contains_key(k) == once.contains_key(k));
        }
    }
    assert(twice =~= once);
}

/// The entries that a batch from `sender` stands for, in the order of the
/// batch: each post that is taken, under its key.
pub fn batch_entries(sender: ChainId, total_count: u64, messages: &Vec<Post>) -> (entries: Vec<
    (ReceivedKey, String),
>)
    ensures
        entries@.len() == taken(total_count, messages@.len()),
        forall|i: int|
            0 <= i < entries@.len() ==> (#[trigger] entries@[i]).0 == key_at(
                sender,
                total_count,
                post_views(messages@),
                i,
            ) && entries@[i].1@ == messages@[i].text@,
{
    let mut entries: Vec<(ReceivedKey, String)> = Vec::new();
    let mut i: usize = 0;
    while i < messages.len() && (i as u64) < total_count
        invariant
            i <= taken(total_count, messages@.len()),
            entries@.len() == i,
            forall|j: int|
                0 <= j < i ==> (#[trigger] entries@[j]).0 == key_at(
                    sender,
                    total_count,
                    post_views(messages@),
                    j,
                ) && entries@[j].1@ == messages@[j].text@,
        decreases messages@.len() - i,
    {
        let key = ReceivedKey {
            timestamp: messages[i].timestamp,
            author: sender,
            sequence: total_count - 1 - (i as u64),
        };
        entries.push((key, messages[i].text.clone()));
        i = i + 1;
    }
    entries
}

/// The batch that tells the subscribers of a log that now holds `count`
/// posts, of which `window` are the most recent ones, newest first.
pub fn announce(count: usize, window: Vec<Post>) -> (outbound: Outbound)
    ensures
        outbound@ == (OutboundView {
            destination: Destination::Subscribers,
            message: ProtocolMessageView::MessageBatch {
                total_count: count as u64,
                messages: post_views(window@),
            },
        }),
{
    Outbound {
        destination: Destination::Subscribers,
        message: ProtocolMessage::MessageBatch { total_count: count as u64, messages: window },
    }
}

impl Messera {
    /// Sets up a chain: nothing is sent and nothing changes.
    pub fn initialize(&mut self) -> (effects: Vec<Outbound>)
        ensures
            effects@.len() == 0,
            *final(self) == *old(self),
    {
        Vec::new()
    }

    /// Executes an operation that a client submitted at `timestamp`. Exactly
    /// one message leaves: a request to the chain that the operation names, or
    /// for a new post the batch that announces it to the subscribers.
    pub fn execute_operation(&mut self, timestamp: u64, operation: Operation) -> (effects: Vec<
        Outbound,
    >)
        ensures
            final(self).my_messages@ == log_after_operation(
                old(self).my_messages@,
                timestamp,
                operation@,
            ),
            operation@ is Content ==> final(self).my_messages@.len() <= usize::MAX,
            final(self).received_messages == old(self).received_messages,
            final(self).subscribers == old(self).subscribers,
            outbound_views(effects@) == seq![
                operation_effect(old(self).my_messages@, timestamp, operation@),
            ],
    {
        match operation {
            Operation::RequestSubscribe(chain_id) => {
                let effects: Vec<Outbound> = vec![
                    Outbound {
                        destination: Destination::Recipient(chain_id),
                        message: ProtocolMessage::RequestSubscribe,
                    },
                ];
                assert(outbound_views(effects@) =~= seq![
                    operation_effect(old(self).my_messages@, timestamp, operation@),
                ]);
                effects
            },
            Operation::RequestUnsubscribe(chain_id) => {
                let effects: Vec<Outbound> = vec![
                    Outbound {
                        destination: Destination::Recipient(chain_id),
                        message: ProtocolMessage::RequestUnsubscribe,
                    },
                ];
                assert(outbound_views(effects@) =~= seq![
                    operation_effect(old(self).my_messages@, timestamp, operation@),
                ]);
                effects
            },
            Operation::Content(text) => self.execute_content_operation(timestamp, text),
        }
    }

    /// Appends a post with `text`, made at `timestamp`, to the log, and
    /// announces it: the batch holds the new length of the log and the most
    /// recent posts, newest first.
    pub fn execute_content_operation(&mut self, timestamp: u64, text: String) -> (effects: Vec<
        Outbound,
    >)
        ensures
            final(self).my_messages@ == old(self).my_messages@.push(
                PostView { timestamp, text: text@ },
            ),
            final(self).my_messages@.len() <= usize::MAX,
            final(self).received_messages == old(self).received_messages,
            final(self).subscribers == old(self).subscribers,
            outbound_views(effects@) == seq![announcement(final(self).my_messages@)],
    {
        self.my_messages.push(Post { timestamp, text });
        let count = self.my_messages.count();
        let messages = self.my_messages.build_window(LAST_MESSAGES);
        let effects: Vec<Outbound> = vec![announce(count, messages)];
        assert(outbound_views(effects@) =~= seq![announcement(self.my_messages@)]);
        effects
    }

    /// Executes a message that came from `sender`: a request changes the
    /// membership of `sender` in the registry, a batch is written into the
    /// store. Nothing is sent back.
    pub fn execute_message(&mut self, sender: ChainId, message: ProtocolMessage) -> (effects: Vec<
        Outbound,
    >)
        requires
            old(self).wf(),
        ensures
            final(self).wf(),
            effects@.len() == 0,
            final(self).my_messages == old(self).my_messages,
            final(self).subscribers@ == registry_after_message(
                old(self).subscribers@,
                sender,
                message@,
            ),
            final(self).received_messages@ == store_after_message(
                old(self).received_messages@,
                sender,
                message@,
            ),
    {
        match message {
            ProtocolMessage::RequestSubscribe => self.subscribers.subscribe(sender),
            ProtocolMessage::RequestUnsubscribe => self.subscribers.unsubscribe(sender),
            ProtocolMessage::MessageBatch { total_count, messages } => {
                self.execute_received_message(sender, total_count, messages)
            },
        }
        Vec::new()
    }

    /// Writes the posts of a batch from `sender` into the store. The post at
    /// place `i` of the batch goes under the sequence number
    /// `count - 1 - i`, and replaces what stood under its key.
    pub fn execute_received_message(&mut self, sender: ChainId, count: u64, messages: Vec<Post>)
        requires
            old(self).wf(),
        ensures
            final(self).wf(),
            final(self).my_messages == old(self).my_messages,
            final(self).subscribers == old(self).subscribers,
            final(self).received_messages@ == merged(
                old(self).received_messages@,
                sender,
                count,
                post_views(messages@),
                taken(count, messages@.len()),
            ),
    {
        let entries = batch_entries(sender, count, &messages);
        let ghost views = post_views(messages@);
        let n = entries.len();
        let mut i: usize = 0;
        while i < n
            invariant
                self.wf(),
                self.my_messages == old(self).my_messages,
                self.subscribers == old(self).subscribers,
                n == taken(count, messages@.len()),
                n == entries@.len(),
                i <= n,
                forall|j: int|
                    0 <= j < n ==> (#[trigger] entries@[j]).0 == key_at(sender, count, views, j)
                        && entries@[j].1@ == views[j].text,
                self.received_messages@ == merged(
                    old(self).received_messages@,
                    sender,
                    count,
                    views,
                    i as nat,
                ),
            decreases n - i,
        {
            let key = entries[i].0;
            let text = entries[i].1.clone();
            self.received_messages.upsert(key, text);
            i = i + 1;
        }
    }

    /// The chains that a message with this destination goes to, each once.
    pub fn recipients(&self, destination: Destination) -> (chains: Vec<ChainId>)
        requires
            self.wf(),
        ensures
            chains@.no_duplicates(),
            chains@.to_set() == match destination {
                Destination::Recipient(chain) => Set::<ChainId>::empty().insert(chain),
                Destination::Subscribers => self.subscribers@,
            },
    {
        match destination {
            Destination::Recipient(chain) => {
                let chains: Vec<ChainId> = vec![chain];
                assert(chains@.to_set() =~= Set::<ChainId>::empty().insert(chain)) by {
                    assert(chains@[0] == chain);
                }
                chains
            },
            Destination::Subscribers => self.subscribers.members(),
        }
    }

    /// Calls from other applications are refused, whatever they ask.
    pub fn handle_application_call(&mut self) -> (res: Result<Vec<Outbound>, Error>)
        ensures
            res is Err,
            res.unwrap_err() is ApplicationCallsNotSupported,
            *final(self) == *old(self),
    {
        Err(Error::ApplicationCallsNotSupported)
    }

    /// Calls into a session are refused, whatever they ask.
    pub fn handle_session_call(&mut self) -> (res: Result<Vec<Outbound>, Error>)
        ensures
            res is Err,
            res.unwrap_err() is SessionsNotSupported,
            *final(self) == *old(self),
    {
        Err(Error::SessionsNotSupported)
    }
}

} // verus!
