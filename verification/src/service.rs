//! The mutations that a client can ask for, each as the operation to submit.

use vstd::prelude::*;
use crate::types::{ChainId, Operation, OperationView};

verus! {

/// An error that can occur while a query is answered.
#[derive(Debug, PartialEq, Eq)]
pub enum Error {
    /// Invalid query.
    InvalidQuery,
    /// Serialization error, with the serializer's words.
    Serialization(String),
    /// Storage error, with the storage's words.
    View(String),
}

impl Error {
    /// The words that describe this error.
    pub fn message(&self) -> (text: String)
        ensures
            text@ == match *self {
                Error::InvalidQuery => "Invalid query"@,
                Error::Serialization(words) => words@,
                Error::View(words) => words@,
            },
    {
        match self {
            Error::InvalidQuery => "Invalid query".to_string(),
            Error::Serialization(words) => words.clone(),
            Error::View(words) => words.clone(),
        }
    }
}

/// Turns each mutation into the operation that the client submits to its chain.
pub struct MutationRoot;

impl MutationRoot {
    /// The operation that asks `chain_id` for its posts.
    pub fn subscribe(&self, chain_id: ChainId) -> (operation: Operation)
        ensures
            operation@ == OperationView::RequestSubscribe(chain_id),
    {
        Operation::RequestSubscribe(chain_id)
    }

    /// The operation that tells `chain_id` to stop sending its posts.
    pub fn unsubscribe(&self, chain_id: ChainId) -> (operation: Operation)
        ensures
            operation@ == OperationView::RequestUnsubscribe(chain_id),
    {
        Operation::RequestUnsubscribe(chain_id)
    }

    /// The operation that publishes `text`.
    pub fn content(&self, text: String) -> (operation: Operation)
        ensures
            operation@ == OperationView::Content(text@),
    {
        Operation::Content(text)
    }
}

} // verus!
