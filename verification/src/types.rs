//! The values that chains store and exchange, with their mathematical views.

use vstd::prelude::*;

verus! {

/// The identity of a chain: the four words of its 256-bit hash, first word
/// most significant.
#[derive(Clone, Copy, Debug, PartialEq, Eq, Structural, Hash)]
pub struct ChainId {
    pub part1: u64,
    pub part2: u64,
    pub part3: u64,
    pub part4: u64,
}

impl ChainId {
    /// Lexicographic order on the four words.
    pub open spec fn lt(self, other: ChainId) -> bool {
        self.part1 < other.part1 || (self.part1 == other.part1 && (self.part2 < other.part2 || (
        self.part2 == other.part2 && (self.part3 < other.part3 || (self.part3 == other.part3
            && self.part4 < other.part4)))))
    }

    /// Whether this identity comes strictly before `other`.
    pub fn precedes(&self, other: &ChainId) -> (b: bool)
        ensures
            b == self.lt(*other),
    {
        if self.part1 != other.part1 {
            self.part1 < other.part1
        } else if self.part2 != other.part2 {
            self.part2 < other.part2
        } else if self.part3 != other.part3 {
            self.part3 < other.part3
        } else {
            self.part4 < other.part4
        }
    }
}

/// What a post is: the instant it was made, in microseconds, and its characters.
pub struct PostView {
    pub timestamp: u64,
    pub text: Seq<char>,
}

/// One message of a chain's own log.
#[derive(Debug, PartialEq, Eq)]
pub struct Post {
    pub timestamp: u64,
    pub text: String,
}

impl View for Post {
    type V = PostView;

    open spec fn view(&self) -> PostView {
        PostView { timestamp: self.timestamp, text: self.text@ }
    }
}

impl Clone for Post {
    fn clone(&self) -> (res: Post)
        ensures
            res == *self,
    {
        Post { timestamp: self.timestamp, text: self.text.clone() }
    }
}

/// The views of a sequence of posts, in the same order.
pub open spec fn post_views(posts: Seq<Post>) -> Seq<PostView> {
    Seq::new(posts.len(), |i: int| posts[i]@)
}

/// The slot of one received post: when it was made, who made it, and its
/// index in the author's log.
#[derive(Clone, Copy, Debug, PartialEq, Eq, Structural, Hash)]
pub struct ReceivedKey {
    pub timestamp: u64,
    pub author: ChainId,
    pub sequence: u64,
}

impl ReceivedKey {
    /// Lexicographic order on (timestamp, author, sequence).
    pub open spec fn lt(self, other: ReceivedKey) -> bool {
        self.timestamp < other.timestamp || (self.timestamp == other.timestamp && (self.author.lt(
            other.author,
        ) || (self.author == other.author && self.sequence < other.sequence)))
    }

    /// Whether this key comes strictly before `other`.
    pub fn precedes(&self, other: &ReceivedKey) -> (b: bool)
        ensures
            b == self.lt(*other),
    {
        if self.timestamp != other.timestamp {
            self.timestamp < other.timestamp
        } else if self.author != other.author {
            self.author.precedes(&other.author)
        } else {
            self.sequence < other.sequence
        }
    }

    /// No key comes before itself.
    pub proof fn lemma_lt_irreflexive(a: ReceivedKey)
        ensures
            !a.lt(a),
    {
    }

    /// The order is transitive.
    pub proof fn lemma_lt_transitive(a: ReceivedKey, b: ReceivedKey, c: ReceivedKey)
        requires
            a.lt(b),
            b.lt(c),
        ensures
            a.lt(c),
    {
    }

    /// Of two keys, one comes before the other or they are the same key.
    pub proof fn lemma_lt_total(a: ReceivedKey, b: ReceivedKey)
        ensures
            a.lt(b) || b.lt(a) || a == b,
            !(a.lt(b) && b.lt(a)),
    {
    }
}

/// An action that a client submits to its own chain.
#[derive(Debug, PartialEq, Eq)]
pub enum Operation {
    /// Ask the given chain for its posts.
    RequestSubscribe(ChainId),
    /// Tell the given chain to stop sending its posts.
    RequestUnsubscribe(ChainId),
    /// Publish a new post with this text.
    Content(String),
}

/// What an operation is.
pub enum OperationView {
    RequestSubscribe(ChainId),
    RequestUnsubscribe(ChainId),
    Content(Seq<char>),
}

impl View for Operation {
    type V = OperationView;

    open spec fn view(&self) -> OperationView {
        match *self {
            Operation::RequestSubscribe(chain) => OperationView::RequestSubscribe(chain),
            Operation::RequestUnsubscribe(chain) => OperationView::RequestUnsubscribe(chain),
            Operation::Content(text) => OperationView::Content(text@),
        }
    }
}

/// A message that one chain sends to another.
#[derive(Debug, PartialEq, Eq)]
pub enum ProtocolMessage {
    /// The sender wants to receive the receiver's posts.
    RequestSubscribe,
    /// The sender no longer wants them.
    RequestUnsubscribe,
    /// The sender's most recent posts, newest first, and the length of its log.
    MessageBatch { total_count: u64, messages: Vec<Post> },
}

/// What a protocol message is.
pub enum ProtocolMessageView {
    RequestSubscribe,
    RequestUnsubscribe,
    MessageBatch { total_count: u64, messages: Seq<PostView> },
}

impl View for ProtocolMessage {
    type V = ProtocolMessageView;

    open spec fn view(&self) -> ProtocolMessageView {
        match *self {
            ProtocolMessage::RequestSubscribe => ProtocolMessageView::RequestSubscribe,
            ProtocolMessage::RequestUnsubscribe => ProtocolMessageView::RequestUnsubscribe,
            ProtocolMessage::MessageBatch { total_count, messages } => {
                ProtocolMessageView::MessageBatch { total_count, messages: post_views(messages@) }
            },
        }
    }
}

/// Where an outbound message goes.
#[derive(Clone, Copy, Debug, PartialEq, Eq, Structural)]
pub enum Destination {
    /// To one chain.
    Recipient(ChainId),
    /// To every chain that is subscribed to the sender's channel when the
    /// message leaves.
    Subscribers,
}

/// A message on its way out, with its destination.
#[derive(Debug, PartialEq, Eq)]
pub struct Outbound {
    pub destination: Destination,
    pub message: ProtocolMessage,
}

/// What an outbound message is.
pub struct OutboundView {
    pub destination: Destination,
    pub message: ProtocolMessageView,
}

impl View for Outbound {
    type V = OutboundView;

    open spec fn view(&self) -> OutboundView {
        OutboundView { destination: self.destination, message: self.message@ }
    }
}

/// The views of a sequence of outbound messages, in the same order.
pub open spec fn outbound_views(messages: Seq<Outbound>) -> Seq<OutboundView> {
    Seq::new(messages.len(), |i: int| messages[i]@)
}

} // verus!
