//! The messages of the protocol and the configuration of a topic.
//!
//! Every type has a view: the same record with texts as `Seq<char>` and byte
//! strings as `Seq<u8>`. Contracts speak of views only.

use crate::address::{Address, AddressView};
use vstd::prelude::*;

verus! {

/// How many messages of a topic are retained, and where.
#[derive(Debug, Clone, Copy, PartialEq, Eq, Structural)]
pub enum Persistence {
    /// Nothing is retained: fire and forget.
    Ephemeral,
    /// At most this many messages are retained in memory.
    Memory(u64),
    /// At most this many messages are retained in the durable store; memory
    /// holds their sequence numbers only.
    Disk(u64),
}

/// The configuration of a topic, fixed when the topic is created. Intervals
/// are in the time unit of the clock that drives the publisher.
#[derive(Debug, Clone, Copy, PartialEq, Eq, Structural)]
pub struct PublisherConfig {
    pub max_retry_attempts: u32,
    pub retry_interval: u64,
    pub heartbeat_interval: u64,
    pub default_persistence: Persistence,
}

impl Default for PublisherConfig {
    fn default() -> (r: PublisherConfig)
        ensures
            r == (PublisherConfig {
                max_retry_attempts: 3,
                retry_interval: 120,
                heartbeat_interval: 60,
                default_persistence: Persistence::Memory(1000),
            }),
    {
        PublisherConfig {
            max_retry_attempts: 3,
            retry_interval: 120,
            heartbeat_interval: 60,
            default_persistence: Persistence::Memory(1000),
        }
    }
}

/// An opaque token that lets its holder address the party that issued it. It
/// is stored and attached again, never looked into.
#[derive(Debug, Clone, PartialEq, Eq)]
pub struct AccessGrant {
    pub token: Vec<u8>,
}

impl View for AccessGrant {
    type V = Seq<u8>;

    open spec fn view(&self) -> Seq<u8> {
        self.token@
    }
}

impl DeepView for AccessGrant {
    type V = Seq<u8>;

    open spec fn deep_view(&self) -> Seq<u8> {
        self@
    }
}

impl AccessGrant {
    /// A copy of the grant.
    pub fn duplicate(&self) -> (r: AccessGrant)
        ensures
            r@ == self@,
    {
        AccessGrant { token: self.token.clone() }
    }
}

/// Creates the publisher of a topic.
#[derive(Debug, Clone, PartialEq, Eq)]
pub struct InitPubRequest {
    pub topic: String,
    pub config: PublisherConfig,
}

/// Creates the subscriber of one subscription. Addresses are in text form.
#[derive(Debug, Clone, PartialEq, Eq)]
pub struct InitSubRequest {
    pub topic: String,
    pub parent: String,
    pub publisher: String,
    pub forward_to: Vec<String>,
    pub from_sequence: Option<u64>,
}

/// Asks a publisher for the stream of a topic, optionally with the retained
/// history from a sequence number on.
#[derive(Debug, Clone, PartialEq, Eq)]
pub struct SubscribeRequest {
    pub topic: String,
    pub from_sequence: Option<u64>,
}

/// The answer to a [`SubscribeRequest`].
#[derive(Debug, Clone, PartialEq, Eq)]
pub struct SubscribeResponse {
    pub success: bool,
    pub topic: String,
    pub error: Option<String>,
}

/// Ends a subscription.
#[derive(Debug, Clone, PartialEq, Eq)]
pub struct UnsubscribeRequest {
    pub topic: String,
}

/// The answer to an [`UnsubscribeRequest`].
#[derive(Debug, Clone, PartialEq, Eq)]
pub struct UnsubscribeResponse {
    pub success: bool,
    pub topic: String,
    pub error: Option<String>,
}

/// One message of a topic. The payload travels beside it.
#[derive(Debug, Clone, PartialEq, Eq)]
pub struct PublishMessage {
    pub topic: String,
    pub sequence: u64,
}

/// Confirms that a message has arrived.
#[derive(Debug, Clone, PartialEq, Eq)]
pub struct Ack {
    pub topic: String,
    pub sequence: u64,
}

/// Asks for retained messages in bulk.
#[derive(Debug, Clone, PartialEq, Eq)]
pub struct FetchMessagesRequest {
    pub subscriber: Address,
    pub publisher: Address,
    pub topic: String,
    pub from_sequence: u64,
    pub max_messages: usize,
}

/// The answer to a [`FetchMessagesRequest`].
#[derive(Debug, Clone, PartialEq, Eq)]
pub struct FetchMessagesResponse {
    pub messages: Vec<PublishMessage>,
    pub more_available: bool,
}

/// A liveness probe.
#[derive(Debug, Clone, Copy, PartialEq, Eq, Structural)]
pub struct Heartbeat {
    pub timestamp: u64,
}

/// How the probed engine is doing.
#[derive(Debug, Clone, PartialEq, Eq)]
pub enum HeartbeatStatus {
    Alive,
    Busy,
    Error(String),
}

/// The answer to a [`Heartbeat`]: its timestamp and a status.
#[derive(Debug, Clone, PartialEq, Eq)]
pub struct HeartbeatResponse {
    pub timestamp: u64,
    pub status: HeartbeatStatus,
}

/// The request envelope: every request carries exactly one of these.
#[derive(Debug, Clone, PartialEq, Eq)]
pub enum PubSubRequest {
    InitPub(InitPubRequest),
    InitSub(InitSubRequest),
    Subscribe(SubscribeRequest),
    Unsubscribe(UnsubscribeRequest),
    Publish(PublishMessage),
    Acknowledge(Ack),
    FetchMessages(FetchMessagesRequest),
    Heartbeat(Heartbeat),
    Kill,
}

/// The response envelope.
#[derive(Debug, Clone, PartialEq, Eq)]
pub enum PubSubResponse {
    Subscribe(SubscribeResponse),
    Unsubscribe(UnsubscribeResponse),
    FetchMessages(FetchMessagesResponse),
    Heartbeat(HeartbeatResponse),
}

/// View of an [`InitPubRequest`].
pub struct InitPubRequestView {
    pub topic: Seq<char>,
    pub config: PublisherConfig,
}

/// View of an [`InitSubRequest`].
pub struct InitSubRequestView {
    pub topic: Seq<char>,
    pub parent: Seq<char>,
    pub publisher: Seq<char>,
    pub forward_to: Seq<Seq<char>>,
    pub from_sequence: Option<u64>,
}

/// View of a [`SubscribeRequest`].
pub struct SubscribeRequestView {
    pub topic: Seq<char>,
    pub from_sequence: Option<u64>,
}

/// View of a [`SubscribeResponse`] and of an [`UnsubscribeResponse`].
pub struct OutcomeView {
    pub success: bool,
    pub topic: Seq<char>,
    pub error: Option<Seq<char>>,
}

/// View of a [`PublishMessage`] and of an [`Ack`].
pub struct SequencedView {
    pub topic: Seq<char>,
    pub sequence: u64,
}

/// View of a [`FetchMessagesRequest`].
pub struct FetchMessagesRequestView {
    pub subscriber: AddressView,
    pub publisher: AddressView,
    pub topic: Seq<char>,
    pub from_sequence: u64,
    pub max_messages: usize,
}

/// View of a [`FetchMessagesResponse`].
pub struct FetchMessagesResponseView {
    pub messages: Seq<SequencedView>,
    pub more_available: bool,
}

/// View of a [`HeartbeatStatus`].
pub enum HeartbeatStatusView {
    Alive,
    Busy,
    Error(Seq<char>),
}

/// View of a [`HeartbeatResponse`].
pub struct HeartbeatResponseView {
    pub timestamp: u64,
    pub status: HeartbeatStatusView,
}

/// View of a [`PubSubRequest`].
pub enum PubSubRequestView {
    InitPub(InitPubRequestView),
    InitSub(InitSubRequestView),
    Subscribe(SubscribeRequestView),
    Unsubscribe(Seq<char>),
    Publish(SequencedView),
    Acknowledge(SequencedView),
    FetchMessages(FetchMessagesRequestView),
    Heartbeat(Heartbeat),
    Kill,
}

/// View of a [`PubSubResponse`].
pub enum PubSubResponseView {
    Subscribe(OutcomeView),
    Unsubscribe(OutcomeView),
    FetchMessages(FetchMessagesResponseView),
    Heartbeat(HeartbeatResponseView),
}

impl View for InitPubRequest {
    type V = InitPubRequestView;

    open spec fn view(&self) -> InitPubRequestView {
        InitPubRequestView { topic: self.topic@, config: self.config }
    }
}

impl View for InitSubRequest {
    type V = InitSubRequestView;

    open spec fn view(&self) -> InitSubRequestView {
        InitSubRequestView {
            topic: self.topic@,
            parent: self.parent@,
            publisher: self.publisher@,
            forward_to: self.forward_to.deep_view(),
            from_sequence: self.from_sequence,
        }
    }
}

impl View for SubscribeRequest {
    type V = SubscribeRequestView;

    open spec fn view(&self) -> SubscribeRequestView {
        SubscribeRequestView { topic: self.topic@, from_sequence: self.from_sequence }
    }
}

impl View for SubscribeResponse {
    type V = OutcomeView;

    open spec fn view(&self) -> OutcomeView {
        OutcomeView { success: self.success, topic: self.topic@, error: self.error.deep_view() }
    }
}

impl View for UnsubscribeRequest {
    type V = Seq<char>;

    open spec fn view(&self) -> Seq<char> {
        self.topic@
    }
}

impl View for UnsubscribeResponse {
    type V = OutcomeView;

    open spec fn view(&self) -> OutcomeView {
        OutcomeView { success: self.success, topic: self.topic@, error: self.error.deep_view() }
    }
}

impl View for PublishMessage {
    type V = SequencedView;

    open spec fn view(&self) -> SequencedView {
        SequencedView { topic: self.topic@, sequence: self.sequence }
    }
}

impl DeepView for PublishMessage {
    type V = SequencedView;

    open spec fn deep_view(&self) -> SequencedView {
        self@
    }
}

impl View for Ack {
    type V = SequencedView;

    open spec fn view(&self) -> SequencedView {
        SequencedView { topic: self.topic@, sequence: self.sequence }
    }
}

impl View for FetchMessagesRequest {
    type V = FetchMessagesRequestView;

    open spec fn view(&self) -> FetchMessagesRequestView {
        FetchMessagesRequestView {
            subscriber: self.subscriber@,
            publisher: self.publisher@,
            topic: self.topic@,
            from_sequence: self.from_sequence,
            max_messages: self.max_messages,
        }
    }
}

impl View for FetchMessagesResponse {
    type V = FetchMessagesResponseView;

    open spec fn view(&self) -> FetchMessagesResponseView {
        FetchMessagesResponseView {
            messages: self.messages.deep_view(),
            more_available: self.more_available,
        }
    }
}

impl View for HeartbeatStatus {
    type V = HeartbeatStatusView;

    open spec fn view(&self) -> HeartbeatStatusView {
        match self {
            HeartbeatStatus::Alive => HeartbeatStatusView::Alive,
            HeartbeatStatus::Busy => HeartbeatStatusView::Busy,
            HeartbeatStatus::Error(reason) => HeartbeatStatusView::Error(reason@),
        }
    }
}

impl View for HeartbeatResponse {
    type V = HeartbeatResponseView;

    open spec fn view(&self) -> HeartbeatResponseView {
        HeartbeatResponseView { timestamp: self.timestamp, status: self.status@ }
    }
}

impl View for PubSubRequest {
    type V = PubSubRequestView;

    open spec fn view(&self) -> PubSubRequestView {
        match self {
            PubSubRequest::InitPub(r) => PubSubRequestView::InitPub(r@),
            PubSubRequest::InitSub(r) => PubSubRequestView::InitSub(r@),
            PubSubRequest::Subscribe(r) => PubSubRequestView::Subscribe(r@),
            PubSubRequest::Unsubscribe(r) => PubSubRequestView::Unsubscribe(r@),
            PubSubRequest::Publish(r) => PubSubRequestView::Publish(r@),
            PubSubRequest::Acknowledge(r) => PubSubRequestView::Acknowledge(r@),
            PubSubRequest::FetchMessages(r) => PubSubRequestView::FetchMessages(r@),
            PubSubRequest::Heartbeat(r) => PubSubRequestView::Heartbeat(*r),
            PubSubRequest::Kill => PubSubRequestView::Kill,
        }
    }
}

impl View for PubSubResponse {
    type V = PubSubResponseView;

    open spec fn view(&self) -> PubSubResponseView {
        match self {
            PubSubResponse::Subscribe(r) => PubSubResponseView::Subscribe(r@),
            PubSubResponse::Unsubscribe(r) => PubSubResponseView::Unsubscribe(r@),
            PubSubResponse::FetchMessages(r) => PubSubResponseView::FetchMessages(r@),
            PubSubResponse::Heartbeat(r) => PubSubResponseView::Heartbeat(r@),
        }
    }
}

} // verus!
