//! Publish/subscribe delivery protocol with a tiered, bounded message history.
//!
//! A topic is a stream of payloads in a total order. Its publisher numbers
//! the payloads, retains the newest of them and sends each to every
//! subscriber; a subscriber passes the stream on and confirms what it got.
//! Nothing here performs input or output: every engine is a state machine
//! that takes one event and returns the effects for its host to perform.

pub mod address;
pub mod binary_helpers;
pub mod effects;
pub mod history;
pub mod laws;
pub mod messages;
pub mod progress;
pub mod publisher;
pub mod pubsub;
pub mod seq_util;
pub mod subscriber;

pub use history::MessageHistory;
pub use pubsub::{Pub, PubError, Sub, SubError};
