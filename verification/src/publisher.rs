//! The publisher of one topic.
//!
//! A publisher numbers the messages of its topic, keeps the bounded history,
//! and sends every message to every subscriber. It is a state machine: each
//! handler takes the state and one event and yields the next state and the
//! effects for the host to perform. [`PublisherView`] is the mathematical
//! state and its spec functions are the transition relation; the executable
//! handlers are proved to compute exactly those.

use crate::address::{Address, AddressParseError, AddressView};
use crate::effects::{
    duplicate_grant, grant_view, into_store_effects, store_effects, Effect, EffectView, Payload,
    PayloadView,
};
use crate::history::{EntryView, HistoryView, MessageHistory, StorageEntry};
use crate::messages::{
    AccessGrant, Ack, Heartbeat, HeartbeatResponse, HeartbeatResponseView, HeartbeatStatus,
    HeartbeatStatusView, OutcomeView, Persistence, PubSubRequest, PubSubRequestView,
    PubSubResponse, PubSubResponseView, PublishMessage, PublisherConfig, SequencedView,
    SubscribeRequest, SubscribeRequestView, SubscribeResponse, UnsubscribeRequest,
    UnsubscribeResponse,
};
use crate::seq_util::{
    distinct_by, index_by, lemma_filter_empty, lemma_filter_step, lemma_index_by_unique,
    lemma_push_distinct, lemma_remove_distinct, lemma_update_distinct,
};
use vstd::prelude::*;
use vstd::string::StringExecFns;

verus! {

/// A subscriber as the publisher knows it: where it is, and the grant that it
/// attached when it subscribed.
#[derive(Debug, Clone, PartialEq, Eq)]
pub struct SubscriberRecord {
    pub address: Address,
    pub grant: Option<AccessGrant>,
}

/// View of a [`SubscriberRecord`].
pub struct SubscriberRecordView {
    pub address: AddressView,
    pub grant: Option<Seq<u8>>,
}

impl View for SubscriberRecord {
    type V = SubscriberRecordView;

    open spec fn view(&self) -> SubscriberRecordView {
        SubscriberRecordView { address: self.address@, grant: grant_view(self.grant) }
    }
}

impl DeepView for SubscriberRecord {
    type V = SubscriberRecordView;

    open spec fn deep_view(&self) -> SubscriberRecordView {
        self@
    }
}

/// A message that was sent to a subscriber and has not been confirmed.
#[derive(Debug, Clone, PartialEq, Eq)]
pub struct PendingAck {
    pub subscriber: Address,
    pub topic: String,
    pub sequence: u64,
    pub retry_count: u32,
    pub last_sent_time: u64,
}

/// View of a [`PendingAck`].
pub struct PendingAckView {
    pub subscriber: AddressView,
    pub topic: Seq<char>,
    pub sequence: u64,
    pub retry_count: u32,
    pub last_sent_time: u64,
}

impl View for PendingAck {
    type V = PendingAckView;

    open spec fn view(&self) -> PendingAckView {
        PendingAckView {
            subscriber: self.subscriber@,
            topic: self.topic@,
            sequence: self.sequence,
            retry_count: self.retry_count,
            last_sent_time: self.last_sent_time,
        }
    }
}

impl DeepView for PendingAck {
    type V = PendingAckView;

    open spec fn deep_view(&self) -> PendingAckView {
        self@
    }
}

/// A subscriber that stopped confirming, with the number of retries that it
/// was given.
#[derive(Debug, Clone, PartialEq, Eq)]
pub struct OfflineSubscriber {
    pub address: Address,
    pub retry_count: u64,
}

/// View of an [`OfflineSubscriber`].
pub struct OfflineView {
    pub address: AddressView,
    pub retry_count: u64,
}

impl View for OfflineSubscriber {
    type V = OfflineView;

    open spec fn view(&self) -> OfflineView {
        OfflineView { address: self.address@, retry_count: self.retry_count }
    }
}

impl DeepView for OfflineSubscriber {
    type V = OfflineView;

    open spec fn deep_view(&self) -> OfflineView {
        self@
    }
}

/// Why an engine did not handle an event.
#[derive(Debug, Clone, Copy, PartialEq, Eq, Structural)]
pub enum EngineError {
    /// The body of the message could not be decoded.
    MalformedMessage,
    /// Every sequence number of the topic has been used.
    SequenceExhausted,
    /// A request that the engine waited on got no answer in time.
    CallFailed,
    /// The publisher turned a subscription down.
    SubscriptionRefused,
}

/// Why an engine could not start.
#[derive(Debug, Clone, Copy, PartialEq, Eq, Structural)]
pub enum InitError {
    /// No message arrived to start from.
    NoMessage,
    /// The first message came from outside the scope of the engine's owner.
    WrongSource,
    /// The first message was not the request that creates the engine.
    MalformedRequest,
    /// An address in the request is not an address.
    InvalidAddress(AddressParseError),
    /// The engine has no grant to attach to its subscription.
    MissingGrant,
    /// The publisher did not answer the subscription in time.
    CallFailed,
    /// The answer of the publisher could not be decoded.
    MalformedResponse,
    /// The publisher turned the subscription down.
    Refused,
}

/// The key of a subscriber record: its address.
pub open spec fn by_address() -> spec_fn(SubscriberRecordView) -> AddressView {
    |r: SubscriberRecordView| r.address
}

/// The index of the record of an address.
pub open spec fn position(records: Seq<SubscriberRecordView>, a: AddressView) -> Option<int> {
    index_by(records, by_address(), a)
}

/// No two records have the same address.
pub open spec fn distinct(records: Seq<SubscriberRecordView>) -> bool {
    distinct_by(records, by_address())
}

/// Holds of the offline entries of every address but `a`.
pub open spec fn not_offline_of(a: AddressView) -> spec_fn(OfflineView) -> bool {
    |o: OfflineView| o.address != a
}

/// Holds of the unconfirmed messages of every subscriber but `a`.
pub open spec fn not_pending_of(a: AddressView) -> spec_fn(PendingAckView) -> bool {
    |p: PendingAckView| p.subscriber != a
}

/// Holds of every unconfirmed message but the one that this confirmation
/// from `a` is about.
pub open spec fn not_confirmed_by(a: AddressView, ack: SequencedView) -> spec_fn(
    PendingAckView,
) -> bool {
    |p: PendingAckView| !(p.subscriber == a && p.topic == ack.topic && p.sequence == ack.sequence)
}

/// The text of the error that answers a request for a topic that the
/// publisher does not serve.
pub open spec fn mismatch_text(requested: Seq<char>, served: Seq<char>) -> Seq<char> {
    "error: publisher does not have requested topic: "@ + requested + ", has: "@ + served
}

/// The payload of a retained entry when it is sent again.
pub open spec fn entry_payload(entry: EntryView) -> PayloadView {
    match entry {
        EntryView::Full(m) => PayloadView::Inline(m.content),
        EntryView::SequenceOnly(key) => PayloadView::Stored(key),
    }
}

/// The effect that sends one message of a topic to a subscriber.
pub open spec fn publish_effect(
    to: SubscriberRecordView,
    topic: Seq<char>,
    sequence: u64,
    payload: PayloadView,
) -> EffectView {
    EffectView::Send {
        target: to.address,
        request: PubSubRequestView::Publish(SequencedView { topic, sequence }),
        payload,
        grant: to.grant,
    }
}

/// The effect that answers a subscribe request.
pub open spec fn subscribe_answer(success: bool, topic: Seq<char>, error: Option<Seq<char>>) -> EffectView {
    EffectView::Respond(PubSubResponseView::Subscribe(OutcomeView { success, topic, error }))
}

/// The effect that answers an unsubscribe request.
pub open spec fn unsubscribe_answer(
    success: bool,
    topic: Seq<char>,
    error: Option<Seq<char>>,
) -> EffectView {
    EffectView::Respond(PubSubResponseView::Unsubscribe(OutcomeView { success, topic, error }))
}

/// The state of a publisher, as contracts see it.
pub struct PublisherView {
    pub topic: Seq<char>,
    pub last_sequence: u64,
    pub subscribers: Seq<SubscriberRecordView>,
    pub offline: Seq<OfflineView>,
    pub config: PublisherConfig,
    pub parent: AddressView,
    pub history: HistoryView,
    pub pending: Seq<PendingAckView>,
    pub terminated: bool,
}

impl PublisherView {
    /// The state of a publisher that has just been created.
    pub open spec fn init(config: PublisherConfig, parent: AddressView, topic: Seq<char>) -> PublisherView {
        PublisherView {
            topic,
            last_sequence: 0,
            subscribers: Seq::empty(),
            offline: Seq::empty(),
            config,
            parent,
            history: HistoryView::empty(config.default_persistence),
            pending: Seq::empty(),
            terminated: false,
        }
    }

    /// What holds of every state that the handlers reach: the history fits
    /// its tier, is in ascending order and holds no sequence number that has
    /// not been assigned; no subscriber is registered twice.
    pub open spec fn wf(self) -> bool {
        &&& self.history.wf()
        &&& self.history.ascending()
        &&& self.history.persistence == self.config.default_persistence
        &&& forall|i: int|
            0 <= i < self.history.entries.len() ==> (#[trigger] self.history.entries[i]).sequence()
                <= self.last_sequence
        &&& distinct(self.subscribers)
    }

    /// Whether an address is registered as a subscriber.
    pub open spec fn is_subscribed(self, a: AddressView) -> bool {
        position(self.subscribers, a) is Some
    }

    /// The subscribers after `source` has subscribed with `grant`: its record
    /// is replaced where it has one, and appended where it has none.
    pub open spec fn with_subscriber(self, source: AddressView, grant: Option<Seq<u8>>) -> Seq<
        SubscriberRecordView,
    > {
        let record = SubscriberRecordView { address: source, grant };
        match position(self.subscribers, source) {
            Some(i) => self.subscribers.update(i, record),
            None => self.subscribers.push(record),
        }
    }

    /// The subscribers after `source` has left.
    pub open spec fn without_subscriber(self, source: AddressView) -> Seq<SubscriberRecordView> {
        match position(self.subscribers, source) {
            Some(i) => self.subscribers.remove(i),
            None => self.subscribers,
        }
    }

    /// The retained messages from `start` on as sends to one subscriber,
    /// oldest first. They carry the topic of the publisher.
    pub open spec fn replay(self, to: SubscriberRecordView, start: u64) -> Seq<EffectView> {
        self.history.read_from(start).map_values(
            |e: EntryView| publish_effect(to, self.topic, e.sequence(), entry_payload(e)),
        )
    }

    /// Subscribe: the state after it, and the effects.
    pub open spec fn subscribe(
        self,
        source: AddressView,
        request: SubscribeRequestView,
        grant: Option<Seq<u8>>,
    ) -> (PublisherView, Seq<EffectView>) {
        if request.topic == self.topic {
            let next = PublisherView {
                subscribers: self.with_subscriber(source, grant),
                offline: self.offline.filter(not_offline_of(source)),
                ..self
            };
            let answer = seq![subscribe_answer(true, request.topic, None)];
            let record = SubscriberRecordView { address: source, grant };
            match request.from_sequence {
                Some(start) => (next, answer + self.replay(record, start)),
                None => (next, answer),
            }
        } else {
            (
                self,
                seq![
                    subscribe_answer(
                        false,
                        request.topic,
                        Some(mismatch_text(request.topic, self.topic)),
                    ),
                ],
            )
        }
    }

    /// Unsubscribe: the state after it, and the effects.
    pub open spec fn unsubscribe(self, source: AddressView, topic: Seq<char>) -> (
        PublisherView,
        Seq<EffectView>,
    ) {
        if topic == self.topic {
            (
                PublisherView {
                    subscribers: self.without_subscriber(source),
                    offline: self.offline.filter(not_offline_of(source)),
                    pending: self.pending.filter(not_pending_of(source)),
                    ..self
                },
                seq![unsubscribe_answer(true, topic, None)],
            )
        } else {
            (self, seq![unsubscribe_answer(false, topic, Some(mismatch_text(topic, self.topic)))])
        }
    }

    /// Whether a publish request from `source` is accepted.
    pub open spec fn accepts(self, source: AddressView) -> bool {
        source == self.parent
    }

    /// The sends of a new message to every subscriber, in the order in which
    /// they subscribed.
    pub open spec fn fan_out(self, topic: Seq<char>, sequence: u64, payload: Seq<u8>) -> Seq<
        EffectView,
    > {
        self.subscribers.map_values(
            |r: SubscriberRecordView| publish_effect(r, topic, sequence, PayloadView::Inline(payload)),
        )
    }

    /// The confirmations that a new message makes the publisher wait for: one
    /// from every subscriber, and none where nothing is retained.
    pub open spec fn awaited(self, topic: Seq<char>, sequence: u64, now: u64) -> Seq<PendingAckView> {
        if self.config.default_persistence == Persistence::Ephemeral {
            Seq::empty()
        } else {
            self.subscribers.map_values(
                |r: SubscriberRecordView|
                    PendingAckView {
                        subscriber: r.address,
                        topic,
                        sequence,
                        retry_count: 0,
                        last_sent_time: now,
                    },
            )
        }
    }

    /// Publish: the state after it, and the effects or the error.
    pub open spec fn publish(
        self,
        source: AddressView,
        message: SequencedView,
        payload: Seq<u8>,
        now: u64,
    ) -> (PublisherView, Result<Seq<EffectView>, EngineError>) {
        if !self.accepts(source) {
            (self, Ok(Seq::empty()))
        } else if self.last_sequence == u64::MAX {
            (self, Err(EngineError::SequenceExhausted))
        } else {
            let sequence = (self.last_sequence + 1) as u64;
            (
                PublisherView {
                    last_sequence: sequence,
                    history: self.history.add(sequence, payload),
                    pending: self.pending + self.awaited(message.topic, sequence, now),
                    ..self
                },
                Ok(
                    store_effects(self.history.add_ops(sequence, payload)) + self.fan_out(
                        message.topic,
                        sequence,
                        payload,
                    ),
                ),
            )
        }
    }

    /// The state after the host has reported that the store operations of
    /// the publish with this sequence number failed: the message is not
    /// retained and no confirmation is awaited for it. The number stays used.
    pub open spec fn abort_publish(self, sequence: u64) -> PublisherView {
        PublisherView {
            history: self.history.forget(sequence),
            pending: self.pending.filter(|p: PendingAckView| p.sequence != sequence),
            ..self
        }
    }

    /// Acknowledge: the state after it. There are no effects.
    pub open spec fn acknowledge(self, source: AddressView, ack: SequencedView) -> PublisherView {
        PublisherView { pending: self.pending.filter(not_confirmed_by(source, ack)), ..self }
    }

    /// Heartbeat: the effects. The state stays.
    pub open spec fn heartbeat(self, probe: Heartbeat) -> Seq<EffectView> {
        seq![
            EffectView::Respond(
                PubSubResponseView::Heartbeat(
                    HeartbeatResponseView {
                        timestamp: probe.timestamp,
                        status: HeartbeatStatusView::Alive,
                    },
                ),
            ),
        ]
    }

    /// Kill: the state after it, and the effects. The history and the
    /// persisted state are cleared and the publisher stops for good.
    pub open spec fn kill(self) -> (PublisherView, Seq<EffectView>) {
        (
            PublisherView { history: self.history.cleared(), terminated: true, ..self },
            store_effects(self.history.clear_ops()) + seq![EffectView::ClearState, EffectView::Exit],
        )
    }
}

/// The publisher of one topic.
#[derive(Debug)]
pub struct PublisherState {
    topic: String,
    last_sequence: u64,
    subscribers: Vec<SubscriberRecord>,
    offline_subscribers: Vec<OfflineSubscriber>,
    config: PublisherConfig,
    parent: Address,
    message_history: MessageHistory,
    pending_acks: Vec<PendingAck>,
    terminated: bool,
}

impl View for PublisherState {
    type V = PublisherView;

    closed spec fn view(&self) -> PublisherView {
        PublisherView {
            topic: self.topic@,
            last_sequence: self.last_sequence,
            subscribers: self.subscribers.deep_view(),
            offline: self.offline_subscribers.deep_view(),
            config: self.config,
            parent: self.parent@,
            history: self.message_history@,
            pending: self.pending_acks.deep_view(),
            terminated: self.terminated,
        }
    }
}

/// The index of the record of an address among the records.
fn find_subscriber(records: &Vec<SubscriberRecord>, a: &Address) -> (r: Option<usize>)
    requires
        distinct(records.deep_view()),
    ensures
        match r {
            Some(i) => position(records.deep_view(), a@) == Some(i as int) && i < records@.len(),
            None => position(records.deep_view(), a@) is None,
        },
{
    let ghost views = records.deep_view();
    let n = records.len();
    let mut i: usize = 0;
    while i < n
        invariant
            i <= n,
            n == records@.len(),
            views == records.deep_view(),
            distinct(views),
            forall|k: int| 0 <= k < i ==> by_address()(#[trigger] views[k]) != a@,
        decreases n - i,
    {
        if records[i].address == *a {
            proof {
                assert(by_address()(views[i as int]) == a@);
                lemma_index_by_unique(views, by_address(), a@, i as int);
            }
            return Some(i);
        }
        i += 1;
    }
    None
}

/// The entries of the offline list that are not of this address.
fn remove_offline(offline: &Vec<OfflineSubscriber>, a: &Address) -> (r: Vec<OfflineSubscriber>)
    ensures
        r.deep_view() == offline.deep_view().filter(not_offline_of(a@)),
{
    let ghost all = offline.deep_view();
    let ghost pred = not_offline_of(a@);
    let mut out: Vec<OfflineSubscriber> = Vec::new();
    let n = offline.len();
    let mut i: usize = 0;
    proof {
        lemma_filter_empty(pred);
        assert(all.take(0) =~= Seq::<OfflineView>::empty());
        assert(out.deep_view() =~= Seq::<OfflineView>::empty());
    }
    while i < n
        invariant
            i <= n,
            n == offline@.len(),
            all == offline.deep_view(),
            pred == not_offline_of(a@),
            out.deep_view() == all.take(i as int).filter(pred),
        decreases n - i,
    {
        let ghost before = out.deep_view();
        proof {
            lemma_filter_step(all, pred, i as int);
        }
        if !(offline[i].address == *a) {
            out.push(
                OfflineSubscriber {
                    address: offline[i].address.clone(),
                    retry_count: offline[i].retry_count,
                },
            );
            proof {
                assert(out.deep_view() =~= before.push(all[i as int]));
            }
        }
        i += 1;
    }
    proof {
        assert(all.take(n as int) =~= all);
    }
    out
}

/// A copy of an unconfirmed message.
fn duplicate_pending(p: &PendingAck) -> (r: PendingAck)
    ensures
        r@ == p@,
{
    PendingAck {
        subscriber: p.subscriber.clone(),
        topic: p.topic.clone(),
        sequence: p.sequence,
        retry_count: p.retry_count,
        last_sent_time: p.last_sent_time,
    }
}

/// The unconfirmed messages that are not of this subscriber.
fn remove_pending_of(pending: &Vec<PendingAck>, a: &Address) -> (r: Vec<PendingAck>)
    ensures
        r.deep_view() == pending.deep_view().filter(not_pending_of(a@)),
{
    let ghost all = pending.deep_view();
    let ghost pred = not_pending_of(a@);
    let mut out: Vec<PendingAck> = Vec::new();
    let n = pending.len();
    let mut i: usize = 0;
    proof {
        lemma_filter_empty(pred);
        assert(all.take(0) =~= Seq::<PendingAckView>::empty());
        assert(out.deep_view() =~= Seq::<PendingAckView>::empty());
    }
    while i < n
        invariant
            i <= n,
            n == pending@.len(),
            all == pending.deep_view(),
            pred == not_pending_of(a@),
            out.deep_view() == all.take(i as int).filter(pred),
        decreases n - i,
    {
        let ghost before = out.deep_view();
        proof {
            lemma_filter_step(all, pred, i as int);
        }
        if !(pending[i].subscriber == *a) {
            out.push(duplicate_pending(&pending[i]));
            proof {
                assert(out.deep_view() =~= before.push(all[i as int]));
            }
        }
        i += 1;
    }
    proof {
        assert(all.take(n as int) =~= all);
    }
    out
}

/// The unconfirmed messages but the one that a confirmation is about.
fn remove_confirmed(pending: &Vec<PendingAck>, a: &Address, ack: &Ack) -> (r: Vec<PendingAck>)
    ensures
        r.deep_view() == pending.deep_view().filter(not_confirmed_by(a@, ack@)),
{
    let ghost all = pending.deep_view();
    let ghost pred = not_confirmed_by(a@, ack@);
    let mut out: Vec<PendingAck> = Vec::new();
    let n = pending.len();
    let mut i: usize = 0;
    proof {
        lemma_filter_empty(pred);
        assert(all.take(0) =~= Seq::<PendingAckView>::empty());
        assert(out.deep_view() =~= Seq::<PendingAckView>::empty());
    }
    while i < n
        invariant
            i <= n,
            n == pending@.len(),
            all == pending.deep_view(),
            pred == not_confirmed_by(a@, ack@),
            out.deep_view() == all.take(i as int).filter(pred),
        decreases n - i,
    {
        let ghost before = out.deep_view();
        proof {
            lemma_filter_step(all, pred, i as int);
        }
        let p = &pending[i];
        if !(p.subscriber == *a && p.topic == ack.topic && p.sequence == ack.sequence) {
            out.push(duplicate_pending(p));
            proof {
                assert(out.deep_view() =~= before.push(all[i as int]));
            }
        }
        i += 1;
    }
    proof {
        assert(all.take(n as int) =~= all);
    }
    out
}

/// The unconfirmed messages but those of one sequence number.
fn remove_pending_sequence(pending: &Vec<PendingAck>, sequence: u64) -> (r: Vec<PendingAck>)
    ensures
        r.deep_view() == pending.deep_view().filter(|p: PendingAckView| p.sequence != sequence),
{
    let ghost all = pending.deep_view();
    let ghost pred = |p: PendingAckView| p.sequence != sequence;
    let mut out: Vec<PendingAck> = Vec::new();
    let n = pending.len();
    let mut i: usize = 0;
    proof {
        lemma_filter_empty(pred);
        assert(all.take(0) =~= Seq::<PendingAckView>::empty());
        assert(out.deep_view() =~= Seq::<PendingAckView>::empty());
    }
    while i < n
        invariant
            i <= n,
            n == pending@.len(),
            all == pending.deep_view(),
            pred == (|p: PendingAckView| p.sequence != sequence),
            out.deep_view() == all.take(i as int).filter(pred),
        decreases n - i,
    {
        let ghost before = out.deep_view();
        proof {
            lemma_filter_step(all, pred, i as int);
        }
        if pending[i].sequence != sequence {
            out.push(duplicate_pending(&pending[i]));
            proof {
                assert(out.deep_view() =~= before.push(all[i as int]));
            }
        }
        i += 1;
    }
    proof {
        assert(all.take(n as int) =~= all);
    }
    out
}

/// The text of the error for a topic that is not served.
fn mismatch_message(requested: &String, served: &String) -> (r: String)
    ensures
        r@ == mismatch_text(requested@, served@),
{
    let mut text = "error: publisher does not have requested topic: ".to_owned();
    text.append(requested.as_str());
    text.append(", has: ");
    text.append(served.as_str());
    text
}

/// The payload with which a retained entry is sent again.
fn payload_of(entry: StorageEntry) -> (r: Payload)
    ensures
        r@ == entry_payload(entry@),
{
    match entry {
        StorageEntry::Full(m) => Payload::Inline(m.content),
        StorageEntry::SequenceOnly(key) => Payload::Stored(key),
    }
}

/// One message of a topic as a send to a subscriber.
fn publish_to(to: &SubscriberRecord, topic: &String, sequence: u64, payload: Payload) -> (r: Effect)
    ensures
        r@ == publish_effect(to@, topic@, sequence, payload@),
{
    Effect::Send {
        target: to.address.clone(),
        request: PubSubRequest::Publish(PublishMessage { topic: topic.clone(), sequence }),
        payload,
        grant: duplicate_grant(&to.grant),
    }
}

impl PublisherState {
    /// A publisher for `topic` on behalf of `parent`, and the effects that
    /// must succeed before it handles anything: in the disk tier, opening the
    /// durable store.
    pub fn new(config: PublisherConfig, parent: &Address, topic: String) -> (r: (
        PublisherState,
        Vec<Effect>,
    ))
        ensures
            r.0@ == PublisherView::init(config, parent@, topic@),
            r.0@.wf(),
            r.1.deep_view() == store_effects(crate::history::open_ops(config.default_persistence)),
    {
        let (message_history, ops) = MessageHistory::new(config.default_persistence);
        let state = PublisherState {
            topic,
            last_sequence: 0,
            subscribers: Vec::new(),
            offline_subscribers: Vec::new(),
            config,
            parent: parent.clone(),
            message_history,
            pending_acks: Vec::new(),
            terminated: false,
        };
        proof {
            assert(state.subscribers.deep_view() =~= Seq::<SubscriberRecordView>::empty());
            assert(state.offline_subscribers.deep_view() =~= Seq::<OfflineView>::empty());
            assert(state.pending_acks.deep_view() =~= Seq::<PendingAckView>::empty());
        }
        (state, into_store_effects(ops))
    }

    /// The topic that the publisher serves.
    pub fn topic(&self) -> (r: &String)
        ensures
            r@ == self@.topic,
    {
        &self.topic
    }

    /// The sequence number of the newest message.
    pub fn last_sequence(&self) -> (r: u64)
        ensures
            r == self@.last_sequence,
    {
        self.last_sequence
    }

    /// The subscribers, in the order in which they subscribed.
    pub fn subscribers(&self) -> (r: &Vec<SubscriberRecord>)
        ensures
            r.deep_view() == self@.subscribers,
    {
        &self.subscribers
    }

    /// The subscribers that stopped confirming.
    pub fn offline_subscribers(&self) -> (r: &Vec<OfflineSubscriber>)
        ensures
            r.deep_view() == self@.offline,
    {
        &self.offline_subscribers
    }

    /// The messages that wait for a confirmation.
    pub fn pending_acks(&self) -> (r: &Vec<PendingAck>)
        ensures
            r.deep_view() == self@.pending,
    {
        &self.pending_acks
    }

    /// The configuration of the topic.
    pub fn config(&self) -> (r: &PublisherConfig)
        ensures
            *r == self@.config,
    {
        &self.config
    }

    /// The only address whose publish requests are accepted.
    pub fn parent(&self) -> (r: &Address)
        ensures
            r@ == self@.parent,
    {
        &self.parent
    }

    /// The history of the topic.
    pub fn message_history(&self) -> (r: &MessageHistory)
        ensures
            r@ == self@.history,
    {
        &self.message_history
    }

    /// Whether the publisher has stopped for good.
    pub fn is_terminated(&self) -> (r: bool)
        ensures
            r == self@.terminated,
    {
        self.terminated
    }

    /// The effect that persists the publisher. The host performs it after a
    /// step whose effects it has performed.
    pub fn save(&self) -> (effects: Vec<Effect>)
        ensures
            effects.deep_view() == seq![EffectView::SaveState],
    {
        let mut effects: Vec<Effect> = Vec::new();
        effects.push(Effect::SaveState);
        proof {
            assert(effects.deep_view() =~= seq![EffectView::SaveState]);
        }
        effects
    }

    /// Handles a subscribe request from `source`, which attached `grant`.
    pub fn handle_subscribe(
        &mut self,
        source: &Address,
        request: SubscribeRequest,
        grant: Option<AccessGrant>,
    ) -> (effects: Vec<Effect>)
        requires
            old(self)@.wf(),
        ensures
            final(self)@ == old(self)@.subscribe(source@, request@, grant_view(grant)).0,
            effects.deep_view() == old(self)@.subscribe(source@, request@, grant_view(grant)).1,
            final(self)@.wf(),
    {
        let ghost pre = self@;
        let ghost requested = request.topic@;
        let mut effects: Vec<Effect> = Vec::new();
        if request.topic == self.topic {
            let record = SubscriberRecord { address: source.clone(), grant };
            let ghost record_view = record@;
            let found = find_subscriber(&self.subscribers, source);
            let mut replay: Vec<StorageEntry> = Vec::new();
            if let Some(start) = request.from_sequence {
                replay = self.message_history.get_messages_from(start);
            }
            effects.push(
                Effect::Respond(
                    PubSubResponse::Subscribe(
                        SubscribeResponse { success: true, topic: request.topic, error: None },
                    ),
                ),
            );
            let ghost answer = effects.deep_view();
            let ghost entries = replay.deep_view();
            proof {
                assert(answer =~= seq![subscribe_answer(true, requested, None)]);
            }
            let ghost f = |e: EntryView|
                publish_effect(record_view, pre.topic, e.sequence(), entry_payload(e));
            for entry in it: replay
                invariant
                    it.seq() == replay@,
                    entries == replay.deep_view(),
                    record_view == record@,
                    pre.topic == self.topic@,
                    f == (|e: EntryView|
                        publish_effect(record_view, pre.topic, e.sequence(), entry_payload(e))),
                    effects@.len() == 1 + it.index(),
                    answer.len() == 1,
                    effects@[0]@ == answer[0],
                    forall|k: int|
                        1 <= k < effects@.len() ==> (#[trigger] effects@[k])@ == f(entries[k - 1]),
            {
                let sequence = entry.sequence();
                effects.push(publish_to(&record, &self.topic, sequence, payload_of(entry)));
            }
            proof {
                assert(effects.deep_view() =~= answer + entries.map_values(f));
                if request.from_sequence is None {
                    assert(entries =~= Seq::<EntryView>::empty());
                    assert(effects.deep_view() =~= answer);
                }
            }
            let ghost old_records = self.subscribers.deep_view();
            match found {
                Some(index) => {
                    self.subscribers.set(index, record);
                    proof {
                        assert(self.subscribers.deep_view() =~= old_records.update(
                            index as int,
                            record_view,
                        ));
                        lemma_update_distinct(old_records, by_address(), index as int, record_view);
                    }
                },
                None => {
                    self.subscribers.push(record);
                    proof {
                        assert(self.subscribers.deep_view() =~= old_records.push(record_view));
                        lemma_push_distinct(old_records, by_address(), record_view);
                    }
                },
            }
            self.offline_subscribers = remove_offline(&self.offline_subscribers, source);
        } else {
            let error = mismatch_message(&request.topic, &self.topic);
            effects.push(
                Effect::Respond(
                    PubSubResponse::Subscribe(
                        SubscribeResponse {
                            success: false,
                            topic: request.topic,
                            error: Some(error),
                        },
                    ),
                ),
            );
            proof {
                assert(effects.deep_view() =~= seq![
                    subscribe_answer(false, requested, Some(mismatch_text(requested, pre.topic))),
                ]);
            }
        }
        effects
    }

    /// Handles an unsubscribe request from `source`.
    pub fn handle_unsubscribe(&mut self, source: &Address, request: UnsubscribeRequest) -> (effects:
        Vec<Effect>)
        requires
            old(self)@.wf(),
        ensures
            final(self)@ == old(self)@.unsubscribe(source@, request@).0,
            effects.deep_view() == old(self)@.unsubscribe(source@, request@).1,
            final(self)@.wf(),
    {
        let ghost pre = self@;
        let ghost requested = request@;
        let mut effects: Vec<Effect> = Vec::new();
        if request.topic == self.topic {
            let ghost old_records = self.subscribers.deep_view();
            if let Some(index) = find_subscriber(&self.subscribers, source) {
                self.subscribers.remove(index);
                proof {
                    assert(self.subscribers.deep_view() =~= old_records.remove(index as int));
                    lemma_remove_distinct(old_records, by_address(), index as int);
                }
            }
            self.offline_subscribers = remove_offline(&self.offline_subscribers, source);
            self.pending_acks = remove_pending_of(&self.pending_acks, source);
            effects.push(
                Effect::Respond(
                    PubSubResponse::Unsubscribe(
                        UnsubscribeResponse { success: true, topic: request.topic, error: None },
                    ),
                ),
            );
            proof {
                assert(effects.deep_view() =~= seq![unsubscribe_answer(true, requested, None)]);
            }
        } else {
            let error = mismatch_message(&request.topic, &self.topic);
            effects.push(
                Effect::Respond(
                    PubSubResponse::Unsubscribe(
                        UnsubscribeResponse {
                            success: false,
                            topic: request.topic,
                            error: Some(error),
                        },
                    ),
                ),
            );
            proof {
                assert(effects.deep_view() =~= seq![
                    unsubscribe_answer(false, requested, Some(mismatch_text(requested, pre.topic))),
                ]);
            }
        }
        effects
    }
}

/// Whether the last send of an unconfirmed message is older than the retry
/// interval.
pub open spec fn stale(p: PendingAckView, config: PublisherConfig, now: u64) -> bool {
    p.last_sent_time + config.retry_interval < now
}

/// Whether an unconfirmed message is stale and has used up its retries.
pub open spec fn exhausted(p: PendingAckView, config: PublisherConfig, now: u64) -> bool {
    stale(p, config, now) && p.retry_count >= config.max_retry_attempts
}

/// The subscribers and the offline list after every subscriber with an
/// exhausted message has been moved from the first to the second. The
/// unconfirmed messages are gone through from the oldest to the newest.
pub open spec fn demote(
    records: Seq<SubscriberRecordView>,
    offline: Seq<OfflineView>,
    pending: Seq<PendingAckView>,
    config: PublisherConfig,
    now: u64,
) -> (Seq<SubscriberRecordView>, Seq<OfflineView>)
    decreases pending.len(),
{
    if pending.len() == 0 {
        (records, offline)
    } else {
        let (r, o) = demote(records, offline, pending.drop_last(), config, now);
        let p = pending.last();
        match position(r, p.subscriber) {
            Some(i) if exhausted(p, config, now) => (
                r.remove(i),
                o.push(OfflineView { address: p.subscriber, retry_count: p.retry_count as u64 }),
            ),
            _ => (r, o),
        }
    }
}

/// What becomes of one unconfirmed message at a tick, given the subscribers
/// that are left: it is dropped where its subscriber is gone, where it has
/// used up its retries, and where it is stale and no longer retained; it
/// stays as it is while it is fresh; else it is sent again and counted.
pub open spec fn retry_entry(
    p: PendingAckView,
    records: Seq<SubscriberRecordView>,
    history: HistoryView,
    config: PublisherConfig,
    now: u64,
) -> Option<PendingAckView> {
    if position(records, p.subscriber) is None {
        None
    } else if !stale(p, config, now) {
        Some(p)
    } else if p.retry_count >= config.max_retry_attempts {
        None
    } else if history.find(p.sequence) is None {
        None
    } else {
        Some(PendingAckView { retry_count: (p.retry_count + 1) as u32, last_sent_time: now, ..p })
    }
}

/// The send that a tick makes for one unconfirmed message, if it makes one.
pub open spec fn retry_effect(
    p: PendingAckView,
    records: Seq<SubscriberRecordView>,
    history: HistoryView,
    config: PublisherConfig,
    now: u64,
) -> Option<EffectView> {
    match (position(records, p.subscriber), history.find(p.sequence)) {
        (Some(i), Some(entry)) if stale(p, config, now) && p.retry_count
            < config.max_retry_attempts => Some(
            publish_effect(records[i], p.topic, p.sequence, entry_payload(entry)),
        ),
        _ => None,
    }
}

/// [`retry_entry`] as a function of the message.
pub open spec fn retry_entry_fn(
    records: Seq<SubscriberRecordView>,
    history: HistoryView,
    config: PublisherConfig,
    now: u64,
) -> spec_fn(PendingAckView) -> Option<PendingAckView> {
    |p: PendingAckView| retry_entry(p, records, history, config, now)
}

/// [`retry_effect`] as a function of the message.
pub open spec fn retry_effect_fn(
    records: Seq<SubscriberRecordView>,
    history: HistoryView,
    config: PublisherConfig,
    now: u64,
) -> spec_fn(PendingAckView) -> Option<EffectView> {
    |p: PendingAckView| retry_effect(p, records, history, config, now)
}

impl PublisherView {
    /// A timer tick: the state after it, and the effects. Subscribers that
    /// have used up their retries go offline; of the others, every stale
    /// message that is still retained is sent again.
    pub open spec fn tick(self, now: u64) -> (PublisherView, Seq<EffectView>) {
        let (subscribers, offline) = demote(
            self.subscribers,
            self.offline,
            self.pending,
            self.config,
            now,
        );
        (
            PublisherView {
                subscribers,
                offline,
                pending: self.pending.filter_map(
                    retry_entry_fn(subscribers, self.history, self.config, now),
                ),
                ..self
            },
            self.pending.filter_map(retry_effect_fn(subscribers, self.history, self.config, now)),
        )
    }

    /// A request: the state after it, and the effects or the error. A
    /// publisher that has stopped handles nothing. Requests that are not for
    /// a publisher are dropped.
    pub open spec fn handle_request(
        self,
        request: PubSubRequestView,
        source: AddressView,
        payload: Seq<u8>,
        grant: Option<Seq<u8>>,
        now: u64,
    ) -> (PublisherView, Result<Seq<EffectView>, EngineError>) {
        if self.terminated {
            (self, Ok(Seq::empty()))
        } else {
            match request {
                PubSubRequestView::Subscribe(r) => (
                    self.subscribe(source, r, grant).0,
                    Ok(self.subscribe(source, r, grant).1),
                ),
                PubSubRequestView::Unsubscribe(topic) => (
                    self.unsubscribe(source, topic).0,
                    Ok(self.unsubscribe(source, topic).1),
                ),
                PubSubRequestView::Publish(m) => self.publish(source, m, payload, now),
                PubSubRequestView::Acknowledge(a) => (self.acknowledge(source, a), Ok(Seq::empty())),
                PubSubRequestView::Heartbeat(probe) => (self, Ok(self.heartbeat(probe))),
                PubSubRequestView::Kill => (self.kill().0, Ok(self.kill().1)),
                _ => (self, Ok(Seq::empty())),
            }
        }
    }

    /// A message: the state after it, and the effects or the error. What
    /// comes from the timer is a tick, whatever its body. Responses are
    /// dropped. A body that could not be decoded is an error and leaves the
    /// state as it is.
    pub open spec fn handle_message(self, message: crate::effects::InboundView, now: u64) -> (
        PublisherView,
        Result<Seq<EffectView>, EngineError>,
    ) {
        if self.terminated {
            (self, Ok(Seq::empty()))
        } else if message.source == crate::effects::timer_address() {
            (self.tick(now).0, Ok(self.tick(now).1))
        } else {
            match message.body {
                crate::effects::InboundBodyView::Request(request) => self.handle_request(
                    request,
                    message.source,
                    message.payload,
                    message.grant,
                    now,
                ),
                crate::effects::InboundBodyView::Response(_) => (self, Ok(Seq::empty())),
                crate::effects::InboundBodyView::Malformed => (
                    self,
                    Err(EngineError::MalformedMessage),
                ),
            }
        }
    }
}

/// Whether the last send of an unconfirmed message is older than the retry
/// interval.
fn is_stale(p: &PendingAck, config: &PublisherConfig, now: u64) -> (r: bool)
    ensures
        r == stale(p@, *config, now),
{
    (p.last_sent_time as u128) + (config.retry_interval as u128) < (now as u128)
}

/// Moves every subscriber with an exhausted message to the offline list.
fn demote_exhausted(
    records: &mut Vec<SubscriberRecord>,
    offline: &mut Vec<OfflineSubscriber>,
    pending: &Vec<PendingAck>,
    config: &PublisherConfig,
    now: u64,
)
    requires
        distinct(old(records).deep_view()),
    ensures
        (final(records).deep_view(), final(offline).deep_view()) == demote(
            old(records).deep_view(),
            old(offline).deep_view(),
            pending.deep_view(),
            *config,
            now,
        ),
        distinct(final(records).deep_view()),
{
    let ghost records0 = records.deep_view();
    let ghost offline0 = offline.deep_view();
    let ghost all = pending.deep_view();
    let n = pending.len();
    let mut k: usize = 0;
    proof {
        assert(all.take(0) =~= Seq::<PendingAckView>::empty());
    }
    while k < n
        invariant
            k <= n,
            n == pending@.len(),
            all == pending.deep_view(),
            (records.deep_view(), offline.deep_view()) == demote(
                records0,
                offline0,
                all.take(k as int),
                *config,
                now,
            ),
            distinct(records.deep_view()),
        decreases n - k,
    {
        let p = &pending[k];
        proof {
            assert(all.take(k as int + 1).drop_last() =~= all.take(k as int));
            assert(all.take(k as int + 1).last() == p@);
        }
        if is_stale(p, config, now) && p.retry_count >= config.max_retry_attempts {
            if let Some(i) = find_subscriber(records, &p.subscriber) {
                let ghost before = records.deep_view();
                let ghost offline_before = offline.deep_view();
                records.remove(i);
                offline.push(
                    OfflineSubscriber {
                        address: p.subscriber.clone(),
                        retry_count: p.retry_count as u64,
                    },
                );
                proof {
                    assert(records.deep_view() =~= before.remove(i as int));
                    lemma_remove_distinct(before, by_address(), i as int);
                    assert(offline.deep_view() =~= offline_before.push(
                        OfflineView { address: p@.subscriber, retry_count: p.retry_count as u64 },
                    ));
                }
            }
        }
        k += 1;
    }
    proof {
        assert(all.take(n as int) =~= all);
    }
}

/// Goes through the unconfirmed messages at a tick: what is left of them, and
/// the sends.
fn retry_pending(
    pending: &Vec<PendingAck>,
    records: &Vec<SubscriberRecord>,
    history: &MessageHistory,
    config: &PublisherConfig,
    now: u64,
) -> (r: (Vec<PendingAck>, Vec<Effect>))
    requires
        distinct(records.deep_view()),
    ensures
        r.0.deep_view() == pending.deep_view().filter_map(
            retry_entry_fn(records.deep_view(), history@, *config, now),
        ),
        r.1.deep_view() == pending.deep_view().filter_map(
            retry_effect_fn(records.deep_view(), history@, *config, now),
        ),
{
    let ghost all = pending.deep_view();
    let ghost views = records.deep_view();
    let ghost keep = retry_entry_fn(views, history@, *config, now);
    let ghost send = retry_effect_fn(views, history@, *config, now);
    let mut kept: Vec<PendingAck> = Vec::new();
    let mut effects: Vec<Effect> = Vec::new();
    let n = pending.len();
    let mut i: usize = 0;
    proof {
        assert(all.take(0) =~= Seq::<PendingAckView>::empty());
        assert(kept.deep_view() =~= all.take(0).filter_map(keep));
        assert(effects.deep_view() =~= all.take(0).filter_map(send));
    }
    while i < n
        invariant
            i <= n,
            n == pending@.len(),
            all == pending.deep_view(),
            views == records.deep_view(),
            distinct(views),
            keep == retry_entry_fn(views, history@, *config, now),
            send == retry_effect_fn(views, history@, *config, now),
            kept.deep_view() == all.take(i as int).filter_map(keep),
            effects.deep_view() == all.take(i as int).filter_map(send),
        decreases n - i,
    {
        let p = &pending[i];
        let ghost kept_before = kept.deep_view();
        let ghost effects_before = effects.deep_view();
        proof {
            all.lemma_filter_map_take_succ(keep, i as int);
            all.lemma_filter_map_take_succ(send, i as int);
            assert(all[i as int] == p@);
        }
        if let Some(j) = find_subscriber(records, &p.subscriber) {
            if !is_stale(p, config, now) {
                kept.push(duplicate_pending(p));
                proof {
                    assert(kept.deep_view() =~= kept_before.push(p@));
                }
            } else if p.retry_count < config.max_retry_attempts {
                if let Some(entry) = history.find(p.sequence) {
                    effects.push(publish_to(&records[j], &p.topic, p.sequence, payload_of(entry)));
                    kept.push(
                        PendingAck {
                            subscriber: p.subscriber.clone(),
                            topic: p.topic.clone(),
                            sequence: p.sequence,
                            retry_count: p.retry_count + 1,
                            last_sent_time: now,
                        },
                    );
                    proof {
                        assert(kept.deep_view() =~= kept_before.push(keep(p@)->0));
                        assert(effects.deep_view() =~= effects_before.push(send(p@)->0));
                    }
                }
            }
        }
        proof {
            assert(kept.deep_view() =~= all.take(i as int + 1).filter_map(keep));
            assert(effects.deep_view() =~= all.take(i as int + 1).filter_map(send));
        }
        i += 1;
    }
    proof {
        assert(all.take(n as int) =~= all);
    }
    (kept, effects)
}

/// A new message as sends to every subscriber, and the confirmations to wait
/// for.
fn fan_out_to(
    records: &Vec<SubscriberRecord>,
    topic: &String,
    sequence: u64,
    payload: &Vec<u8>,
    now: u64,
) -> (r: (Vec<Effect>, Vec<PendingAck>))
    ensures
        r.0.deep_view() == records.deep_view().map_values(
            |r: SubscriberRecordView|
                publish_effect(r, topic@, sequence, PayloadView::Inline(payload@)),
        ),
        r.1.deep_view() == records.deep_view().map_values(
            |r: SubscriberRecordView|
                PendingAckView {
                    subscriber: r.address,
                    topic: topic@,
                    sequence,
                    retry_count: 0,
                    last_sent_time: now,
                },
        ),
{
    let mut effects: Vec<Effect> = Vec::new();
    let mut awaited: Vec<PendingAck> = Vec::new();
    let n = records.len();
    let mut i: usize = 0;
    while i < n
        invariant
            i <= n,
            n == records@.len(),
            effects@.len() == i,
            awaited@.len() == i,
            forall|k: int|
                0 <= k < i ==> (#[trigger] effects@[k])@ == publish_effect(
                    records@[k]@,
                    topic@,
                    sequence,
                    PayloadView::Inline(payload@),
                ),
            forall|k: int|
                0 <= k < i ==> (#[trigger] awaited@[k])@ == (PendingAckView {
                    subscriber: records@[k]@.address,
                    topic: topic@,
                    sequence,
                    retry_count: 0,
                    last_sent_time: now,
                }),
        decreases n - i,
    {
        let record = &records[i];
        effects.push(publish_to(record, topic, sequence, Payload::Inline(payload.clone())));
        awaited.push(
            PendingAck {
                subscriber: record.address.clone(),
                topic: topic.clone(),
                sequence,
                retry_count: 0,
                last_sent_time: now,
            },
        );
        i += 1;
    }
    (effects, awaited)
}

impl PublisherState {
    /// Handles a publish request from `source` with its payload, at time
    /// `now`.
    pub fn handle_publish(
        &mut self,
        source: &Address,
        message: PublishMessage,
        payload: Vec<u8>,
        now: u64,
    ) -> (r: Result<Vec<Effect>, EngineError>)
        requires
            old(self)@.wf(),
        ensures
            final(self)@ == old(self)@.publish(source@, message@, payload@, now).0,
            crate::effects::outcome_view(r) == old(self)@.publish(
                source@,
                message@,
                payload@,
                now,
            ).1,
            final(self)@.wf(),
    {
        let ghost pre = self@;
        if !(*source == self.parent) {
            let effects: Vec<Effect> = Vec::new();
            proof {
                assert(effects.deep_view() =~= Seq::<EffectView>::empty());
            }
            return Ok(effects);
        }
        if self.last_sequence == u64::MAX {
            return Err(EngineError::SequenceExhausted);
        }
        let sequence = self.last_sequence + 1;
        let (mut sends, mut awaited) = fan_out_to(
            &self.subscribers,
            &message.topic,
            sequence,
            &payload,
            now,
        );
        let ghost payload_view = payload@;
        self.last_sequence = sequence;
        let ops = self.message_history.add_message(sequence, payload);
        let mut effects = into_store_effects(ops);
        let ghost stores = effects.deep_view();
        let ghost sends_view = sends.deep_view();
        effects.append(&mut sends);
        proof {
            assert(effects.deep_view() =~= stores + sends_view);
            assert(sends_view =~= pre.fan_out(message@.topic, sequence, payload_view));
        }
        let ghost pending_before = self.pending_acks.deep_view();
        if let Persistence::Ephemeral = self.config.default_persistence {
            proof {
                assert(pending_before + Seq::<PendingAckView>::empty() =~= pending_before);
            }
        } else {
            let ghost awaited_view = awaited.deep_view();
            self.pending_acks.append(&mut awaited);
            proof {
                assert(self.pending_acks.deep_view() =~= pending_before + awaited_view);
                assert(awaited_view =~= pre.awaited(message@.topic, sequence, now));
            }
        }
        proof {
            let next = self@.history;
            assert(next == pre.history.add(sequence, payload_view));
            assert forall|i: int| 0 <= i < next.entries.len() implies (
            #[trigger] next.entries[i]).sequence() <= sequence by {
                if i < next.entries.len() - 1 {
                    if pre.history.evicts() {
                        assert(next.entries[i] == pre.history.entries[i + 1]);
                    } else {
                        assert(next.entries[i] == pre.history.entries[i]);
                    }
                }
            }
            assert forall|i: int, j: int| 0 <= i < j < next.entries.len() implies (
            #[trigger] next.entries[i]).sequence() < (#[trigger] next.entries[j]).sequence() by {
                if pre.history.evicts() {
                    assert(next.entries[i] == pre.history.entries[i + 1]);
                    if j < next.entries.len() - 1 {
                        assert(next.entries[j] == pre.history.entries[j + 1]);
                    }
                } else {
                    assert(next.entries[i] == pre.history.entries[i]);
                    if j < next.entries.len() - 1 {
                        assert(next.entries[j] == pre.history.entries[j]);
                    }
                }
            }
        }
        Ok(effects)
    }

    /// Takes back the publish with this sequence number, whose store
    /// operations the host could not perform.
    pub fn abort_publish(&mut self, sequence: u64)
        requires
            old(self)@.wf(),
        ensures
            final(self)@ == old(self)@.abort_publish(sequence),
            final(self)@.wf(),
    {
        self.message_history.forget(sequence);
        self.pending_acks = remove_pending_sequence(&self.pending_acks, sequence);
    }

    /// Handles a confirmation from `source`.
    pub fn handle_acknowledge(&mut self, source: &Address, ack: Ack)
        requires
            old(self)@.wf(),
        ensures
            final(self)@ == old(self)@.acknowledge(source@, ack@),
            final(self)@.wf(),
    {
        self.pending_acks = remove_confirmed(&self.pending_acks, source, &ack);
    }

    /// Answers a liveness probe.
    pub fn handle_heartbeat(&self, probe: Heartbeat) -> (effects: Vec<Effect>)
        ensures
            effects.deep_view() == self@.heartbeat(probe),
    {
        let mut effects: Vec<Effect> = Vec::new();
        effects.push(
            Effect::Respond(
                PubSubResponse::Heartbeat(
                    HeartbeatResponse { timestamp: probe.timestamp, status: HeartbeatStatus::Alive },
                ),
            ),
        );
        proof {
            assert(effects.deep_view() =~= self@.heartbeat(probe));
        }
        effects
    }

    /// Stops the publisher for good.
    pub fn handle_kill(&mut self) -> (effects: Vec<Effect>)
        requires
            old(self)@.wf(),
        ensures
            final(self)@ == old(self)@.kill().0,
            effects.deep_view() == old(self)@.kill().1,
            final(self)@.wf(),
    {
        let ops = self.message_history.clear();
        self.terminated = true;
        let mut effects = into_store_effects(ops);
        let ghost stores = effects.deep_view();
        effects.push(Effect::ClearState);
        effects.push(Effect::Exit);
        proof {
            assert(effects.deep_view() =~= stores + seq![EffectView::ClearState, EffectView::Exit]);
        }
        effects
    }

    /// Handles a timer tick at time `now`.
    pub fn handle_tick(&mut self, now: u64) -> (effects: Vec<Effect>)
        requires
            old(self)@.wf(),
        ensures
            final(self)@ == old(self)@.tick(now).0,
            effects.deep_view() == old(self)@.tick(now).1,
            final(self)@.wf(),
    {
        demote_exhausted(
            &mut self.subscribers,
            &mut self.offline_subscribers,
            &self.pending_acks,
            &self.config,
            now,
        );
        let (pending, effects) = retry_pending(
            &self.pending_acks,
            &self.subscribers,
            &self.message_history,
            &self.config,
            now,
        );
        self.pending_acks = pending;
        effects
    }

    /// Handles one request from `source`.
    pub fn handle_request(
        &mut self,
        request: PubSubRequest,
        source: &Address,
        payload: Vec<u8>,
        grant: Option<AccessGrant>,
        now: u64,
    ) -> (r: Result<Vec<Effect>, EngineError>)
        requires
            old(self)@.wf(),
        ensures
            final(self)@ == old(self)@.handle_request(
                request@,
                source@,
                payload@,
                grant_view(grant),
                now,
            ).0,
            crate::effects::outcome_view(r) == old(self)@.handle_request(
                request@,
                source@,
                payload@,
                grant_view(grant),
                now,
            ).1,
            final(self)@.wf(),
    {
        if self.terminated {
            let effects: Vec<Effect> = Vec::new();
            proof {
                assert(effects.deep_view() =~= Seq::<EffectView>::empty());
            }
            return Ok(effects);
        }
        match request {
            PubSubRequest::Subscribe(r) => Ok(self.handle_subscribe(source, r, grant)),
            PubSubRequest::Unsubscribe(r) => Ok(self.handle_unsubscribe(source, r)),
            PubSubRequest::Publish(m) => self.handle_publish(source, m, payload, now),
            PubSubRequest::Acknowledge(a) => {
                self.handle_acknowledge(source, a);
                let effects: Vec<Effect> = Vec::new();
                proof {
                    assert(effects.deep_view() =~= Seq::<EffectView>::empty());
                }
                Ok(effects)
            },
            PubSubRequest::Heartbeat(probe) => Ok(self.handle_heartbeat(probe)),
            PubSubRequest::Kill => Ok(self.handle_kill()),
            _ => {
                let effects: Vec<Effect> = Vec::new();
                proof {
                    assert(effects.deep_view() =~= Seq::<EffectView>::empty());
                }
                Ok(effects)
            },
        }
    }

    /// Handles one message at time `now`.
    pub fn handle_message(&mut self, message: crate::effects::Inbound, now: u64) -> (r: Result<
        Vec<Effect>,
        EngineError,
    >)
        requires
            old(self)@.wf(),
        ensures
            final(self)@ == old(self)@.handle_message(message@, now).0,
            crate::effects::outcome_view(r) == old(self)@.handle_message(message@, now).1,
            final(self)@.wf(),
    {
        if self.terminated {
            let effects: Vec<Effect> = Vec::new();
            proof {
                assert(effects.deep_view() =~= Seq::<EffectView>::empty());
            }
            return Ok(effects);
        }
        if crate::effects::is_timer(&message.source) {
            return Ok(self.handle_tick(now));
        }
        match message.body {
            crate::effects::InboundBody::Request(request) => self.handle_request(
                request,
                &message.source,
                message.payload,
                message.grant,
                now,
            ),
            crate::effects::InboundBody::Response(_) => {
                let effects: Vec<Effect> = Vec::new();
                proof {
                    assert(effects.deep_view() =~= Seq::<EffectView>::empty());
                }
                Ok(effects)
            },
            crate::effects::InboundBody::Malformed => Err(EngineError::MalformedMessage),
        }
    }
}

/// Whether no two records have the same address.
fn are_distinct(records: &Vec<SubscriberRecord>) -> (r: bool)
    ensures
        r == distinct(records.deep_view()),
{
    let ghost views = records.deep_view();
    let n = records.len();
    let mut i: usize = 0;
    while i < n
        invariant
            i <= n,
            n == records@.len(),
            views == records.deep_view(),
            forall|a: int, b: int|
                0 <= a < b < i ==> by_address()(#[trigger] views[a]) != by_address()(
                    #[trigger] views[b],
                ),
        decreases n - i,
    {
        let mut j: usize = 0;
        while j < i
            invariant
                j <= i,
                i < n,
                n == records@.len(),
                views == records.deep_view(),
                forall|a: int| 0 <= a < j ==> by_address()(#[trigger] views[a]) != by_address()(views[i as int]),
            decreases i - j,
        {
            if records[j].address == records[i].address {
                proof {
                    assert(by_address()(views[j as int]) == by_address()(views[i as int]));
                }
                return false;
            }
            j += 1;
        }
        i += 1;
    }
    true
}

impl PublisherState {
    /// The publisher that a snapshot describes, if the snapshot is
    /// well-formed: the history is of the configured tier, in ascending
    /// order and not ahead of the sequence counter, and no subscriber is
    /// registered twice.
    pub fn restore(
        topic: String,
        last_sequence: u64,
        subscribers: Vec<SubscriberRecord>,
        offline_subscribers: Vec<OfflineSubscriber>,
        config: PublisherConfig,
        parent: Address,
        message_history: MessageHistory,
        pending_acks: Vec<PendingAck>,
        terminated: bool,
    ) -> (r: Option<PublisherState>)
        requires
            message_history@.wf(),
        ensures
            match r {
                Some(state) => state@.wf() && state@ == (PublisherView {
                    topic: topic@,
                    last_sequence,
                    subscribers: subscribers.deep_view(),
                    offline: offline_subscribers.deep_view(),
                    config,
                    parent: parent@,
                    history: message_history@,
                    pending: pending_acks.deep_view(),
                    terminated,
                }),
                None => !(PublisherView {
                    topic: topic@,
                    last_sequence,
                    subscribers: subscribers.deep_view(),
                    offline: offline_subscribers.deep_view(),
                    config,
                    parent: parent@,
                    history: message_history@,
                    pending: pending_acks.deep_view(),
                    terminated,
                }).wf(),
            },
    {
        let same_tier = match (message_history.persistence_type(), config.default_persistence) {
            (Persistence::Ephemeral, Persistence::Ephemeral) => true,
            (Persistence::Memory(a), Persistence::Memory(b)) => *a == b,
            (Persistence::Disk(a), Persistence::Disk(b)) => *a == b,
            _ => false,
        };
        if !same_tier || !message_history.is_ascending_up_to(last_sequence) || !are_distinct(
            &subscribers,
        ) {
            return None;
        }
        Some(
            PublisherState {
                topic,
                last_sequence,
                subscribers,
                offline_subscribers,
                config,
                parent,
                message_history,
                pending_acks,
                terminated,
            },
        )
    }
}

/// Whether a first message comes from the scope of the engine's owner: from
/// its node, or from its package.
pub open spec fn in_scope(our: AddressView, source: AddressView) -> bool {
    source.node == our.node || source.package_id() == our.package_id()
}

/// What a publisher without a snapshot starts from: the first message must
/// come from the owner's scope and carry the request that creates a
/// publisher; its sender becomes the parent.
pub open spec fn startup(our: AddressView, first: Option<crate::effects::InboundView>) -> Result<
    (PublisherView, Seq<EffectView>),
    InitError,
> {
    match first {
        None => Err(InitError::NoMessage),
        Some(message) => if !in_scope(our, message.source) {
            Err(InitError::WrongSource)
        } else {
            match message.body {
                crate::effects::InboundBodyView::Request(PubSubRequestView::InitPub(request)) => Ok(
                    (
                        PublisherView::init(request.config, message.source, request.topic),
                        store_effects(crate::history::open_ops(request.config.default_persistence)),
                    ),
                ),
                _ => Err(InitError::MalformedRequest),
            }
        },
    }
}

/// The view of an optional message.
pub open spec fn first_view(first: Option<crate::effects::Inbound>) -> Option<
    crate::effects::InboundView,
> {
    match first {
        Some(message) => Some(message@),
        None => None,
    }
}

impl PublisherState {
    /// Starts a publisher: from the snapshot of an earlier run where there is
    /// one, else from the first message that arrived. An error is fatal: the
    /// engine is not to be restarted.
    pub fn load(
        our: &Address,
        snapshot: Option<PublisherState>,
        first: Option<crate::effects::Inbound>,
    ) -> (r: Result<(PublisherState, Vec<Effect>), InitError>)
        requires
            snapshot matches Some(s) ==> s@.wf(),
        ensures
            match r {
                Ok((state, effects)) => state@.wf() && match snapshot {
                    Some(s) => state@ == s@ && effects.deep_view() == Seq::<EffectView>::empty(),
                    None => startup(our@, first_view(first)) == Ok::<
                        (PublisherView, Seq<EffectView>),
                        InitError,
                    >((state@, effects.deep_view())),
                },
                Err(e) => snapshot is None && startup(our@, first_view(first)) == Err::<
                    (PublisherView, Seq<EffectView>),
                    InitError,
                >(e),
            },
    {
        if let Some(state) = snapshot {
            let effects: Vec<Effect> = Vec::new();
            proof {
                assert(effects.deep_view() =~= Seq::<EffectView>::empty());
            }
            return Ok((state, effects));
        }
        let message = match first {
            Some(message) => message,
            None => {
                return Err(InitError::NoMessage);
            },
        };
        if !(message.source.node == our.node) && !(message.source.package_id()
            == our.package_id()) {
            return Err(InitError::WrongSource);
        }
        match message.body {
            crate::effects::InboundBody::Request(PubSubRequest::InitPub(request)) => Ok(
                PublisherState::new(request.config, &message.source, request.topic),
            ),
            _ => Err(InitError::MalformedRequest),
        }
    }
}

} // verus!
