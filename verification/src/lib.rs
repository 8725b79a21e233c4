//! Per-chain logic of a small decentralized messaging application.
//!
//! Every chain keeps an append-only log of its own posts, a registry of the
//! chains subscribed to its channel, and a store of the posts it received from
//! other chains. The handlers in [`contract`] turn a submitted operation or an
//! inbound message into changes of that state and outbound messages.

pub mod types;
pub mod log;
pub mod registry;
pub mod store;
pub mod state;
pub mod contract;
pub mod service;
