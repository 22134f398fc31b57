//! A table of the topics that a process follows and how far it has come in
//! each.

use crate::seq_util::{distinct_by, index_by, lemma_index_by_unique};
use vstd::prelude::*;

verus! {

/// The settings of a [`PubSub`] table.
#[derive(Debug, Clone, PartialEq, Eq)]
pub struct PubSubConfig {
    pub max_message_size: usize,
    pub persistence_path: Option<String>,
    pub max_retry_attempts: u32,
    pub heartbeat_interval: u64,
}

/// View of a [`PubSubConfig`].
pub struct PubSubConfigView {
    pub max_message_size: usize,
    pub persistence_path: Option<Seq<char>>,
    pub max_retry_attempts: u32,
    pub heartbeat_interval: u64,
}

impl View for PubSubConfig {
    type V = PubSubConfigView;

    open spec fn view(&self) -> PubSubConfigView {
        PubSubConfigView {
            max_message_size: self.max_message_size,
            persistence_path: self.persistence_path.deep_view(),
            max_retry_attempts: self.max_retry_attempts,
            heartbeat_interval: self.heartbeat_interval,
        }
    }
}

impl Default for PubSubConfig {
    fn default() -> (r: PubSubConfig)
        ensures
            r@ == (PubSubConfigView {
                max_message_size: 7_000_000,
                persistence_path: None,
                max_retry_attempts: 3,
                heartbeat_interval: 30,
            }),
    {
        PubSubConfig {
            max_message_size: 7_000_000,
            persistence_path: None,
            max_retry_attempts: 3,
            heartbeat_interval: 30,
        }
    }
}

/// The key of an entry of the table: its topic.
pub open spec fn by_topic() -> spec_fn((Seq<char>, u64)) -> Seq<char> {
    |e: (Seq<char>, u64)| e.0
}

/// View of a [`PubSub`] table.
pub struct PubSubView {
    pub subscriptions: Seq<(Seq<char>, u64)>,
    pub config: PubSubConfigView,
}

impl PubSubView {
    /// No topic is in the table twice.
    pub open spec fn wf(self) -> bool {
        distinct_by(self.subscriptions, by_topic())
    }

    /// The sequence number of the last message of a topic.
    pub open spec fn last_sequence(self, topic: Seq<char>) -> Option<u64> {
        match index_by(self.subscriptions, by_topic(), topic) {
            Some(i) => Some(self.subscriptions[i].1),
            None => None,
        }
    }

    /// Whether the state of the table can be persisted.
    pub open spec fn persistent(self) -> bool {
        self.config.persistence_path is Some
    }
}

/// The text of the error of a table without a place to persist to.
pub open spec fn not_configured() -> Seq<char> {
    "Persistence not configured"@
}

/// The topics that a process follows, each with the sequence number of
/// its last message.
#[derive(Debug)]
pub struct PubSub {
    subscriptions: Vec<(String, u64)>,
    config: PubSubConfig,
}

impl View for PubSub {
    type V = PubSubView;

    closed spec fn view(&self) -> PubSubView {
        PubSubView { subscriptions: self.subscriptions.deep_view(), config: self.config@ }
    }
}

impl PubSub {
    /// An empty table.
    pub fn new(config: PubSubConfig) -> (r: PubSub)
        ensures
            r@ == (PubSubView { subscriptions: Seq::empty(), config: config@ }),
            r@.wf(),
    {
        let table = PubSub { subscriptions: Vec::new(), config };
        proof {
            assert(table.subscriptions.deep_view() =~= Seq::<(Seq<char>, u64)>::empty());
        }
        table
    }

    /// The topics of the table.
    pub fn get_subscribed_topics(&self) -> (r: Vec<String>)
        ensures
            r.deep_view() == self@.subscriptions.map_values(by_topic()),
    {
        let mut topics: Vec<String> = Vec::new();
        let n = self.subscriptions.len();
        let mut i: usize = 0;
        while i < n
            invariant
                i <= n,
                n == self.subscriptions@.len(),
                topics@.len() == i,
                forall|k: int| 0 <= k < i ==> (#[trigger] topics@[k])@ == self.subscriptions@[k].0@,
            decreases n - i,
        {
            topics.push(self.subscriptions[i].0.clone());
            i += 1;
        }
        proof {
            assert(topics.deep_view() =~= self@.subscriptions.map_values(by_topic()));
        }
        topics
    }

    /// The sequence number of the last message of a topic.
    pub fn get_last_sequence(&self, topic: &str) -> (r: Option<u64>)
        requires
            self@.wf(),
        ensures
            r == self@.last_sequence(topic@),
    {
        let ghost views = self.subscriptions.deep_view();
        let wanted = topic.to_owned();
        let n = self.subscriptions.len();
        let mut i: usize = 0;
        while i < n
            invariant
                i <= n,
                n == self.subscriptions@.len(),
                views == self.subscriptions.deep_view(),
                distinct_by(views, by_topic()),
                wanted@ == topic@,
                forall|k: int| 0 <= k < i ==> by_topic()(#[trigger] views[k]) != topic@,
            decreases n - i,
        {
            if self.subscriptions[i].0 == wanted {
                proof {
                    assert(by_topic()(views[i as int]) == topic@);
                    lemma_index_by_unique(views, by_topic(), topic@, i as int);
                }
                return Some(self.subscriptions[i].1);
            }
            i += 1;
        }
        None
    }

    /// Persists the table. Only a table with a place to persist to can.
    pub fn save_state(&self) -> (r: Result<(), &'static str>)
        ensures
            r is Ok <==> self@.persistent(),
            r matches Err(e) ==> e@ == not_configured(),
    {
        if self.config.persistence_path.is_some() {
            Ok(())
        } else {
            Err("Persistence not configured")
        }
    }

    /// Restores the table. Only a table with a place to persist to can.
    pub fn load_state(&mut self) -> (r: Result<(), &'static str>)
        ensures
            final(self)@ == old(self)@,
            r is Ok <==> old(self)@.persistent(),
            r matches Err(e) ==> e@ == not_configured(),
    {
        if self.config.persistence_path.is_some() {
            Ok(())
        } else {
            Err("Persistence not configured")
        }
    }
}

} // verus!
