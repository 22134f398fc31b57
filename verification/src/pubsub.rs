//! The two coordinators: the registry of publishers and the registry of
//! subscriptions of one process.
//!
//! A coordinator knows which engine serves which topic or subscription and
//! where that engine is. Creating an engine is the host's work: the
//! coordinator says what to spawn, the host hands back what came of it, and
//! the coordinator decides what follows.

use crate::address::{Address, AddressView, PackageId, PackageIdView, ProcessId, ProcessIdView};
use crate::binary_helpers::{wasm_path, wasm_path_text, WasmType};
use crate::effects::{Effect, EffectView, Payload, PayloadView};
use crate::messages::{
    InitPubRequest, InitPubRequestView, InitSubRequest, InitSubRequestView, OutcomeView,
    PubSubRequest, PubSubRequestView, PublishMessage, PublisherConfig, SequencedView,
    SubscribeRequest, SubscribeRequestView, SubscribeResponse, UnsubscribeRequest,
};
use crate::seq_util::{
    distinct_by, index_by, lemma_index_by_unique, lemma_push_distinct, lemma_remove_distinct,
    lemma_update_distinct,
};
use crate::subscriber::{starting_point, SUBSCRIBE_TIMEOUT};
use vstd::prelude::*;
use vstd::string::StringExecFns;

verus! {

/// What can go wrong in the registry of publishers.
#[derive(Debug, Clone, PartialEq, Eq)]
pub enum PubError {
    TopicNotFound,
    SpawningError(String),
    NoPublisherProcessFound(String),
}

/// View of a [`PubError`].
pub enum PubErrorView {
    TopicNotFound,
    SpawningError(Seq<char>),
    NoPublisherProcessFound(Seq<char>),
}

impl View for PubError {
    type V = PubErrorView;

    open spec fn view(&self) -> PubErrorView {
        match self {
            PubError::TopicNotFound => PubErrorView::TopicNotFound,
            PubError::SpawningError(s) => PubErrorView::SpawningError(s@),
            PubError::NoPublisherProcessFound(s) => PubErrorView::NoPublisherProcessFound(s@),
        }
    }
}

impl PubErrorView {
    /// The text of the error.
    pub open spec fn text(self) -> Seq<char> {
        match self {
            PubErrorView::TopicNotFound => "Topic not found"@,
            PubErrorView::SpawningError(s) => "Error spawning process: "@ + s,
            PubErrorView::NoPublisherProcessFound(s) => "No publisher process found for: "@ + s,
        }
    }
}

impl PubError {
    /// The text of the error.
    pub fn to_string(&self) -> (r: String)
        ensures
            r@ == self@.text(),
    {
        match self {
            PubError::TopicNotFound => "Topic not found".to_owned(),
            PubError::SpawningError(s) => {
                let mut text = "Error spawning process: ".to_owned();
                text.append(s.as_str());
                text
            },
            PubError::NoPublisherProcessFound(s) => {
                let mut text = "No publisher process found for: ".to_owned();
                text.append(s.as_str());
                text
            },
        }
    }
}

/// What can go wrong in the registry of subscriptions.
#[derive(Debug, Clone, PartialEq, Eq)]
pub enum SubError {
    SpawningError(String),
    SerializeError(String),
    InvalidAddress,
    SubscriptionNotFound,
    SubInitError(String),
    UnsubscribeError(String),
}

/// View of a [`SubError`].
pub enum SubErrorView {
    SpawningError(Seq<char>),
    SerializeError(Seq<char>),
    InvalidAddress,
    SubscriptionNotFound,
    SubInitError(Seq<char>),
    UnsubscribeError(Seq<char>),
}

impl View for SubError {
    type V = SubErrorView;

    open spec fn view(&self) -> SubErrorView {
        match self {
            SubError::SpawningError(s) => SubErrorView::SpawningError(s@),
            SubError::SerializeError(s) => SubErrorView::SerializeError(s@),
            SubError::InvalidAddress => SubErrorView::InvalidAddress,
            SubError::SubscriptionNotFound => SubErrorView::SubscriptionNotFound,
            SubError::SubInitError(s) => SubErrorView::SubInitError(s@),
            SubError::UnsubscribeError(s) => SubErrorView::UnsubscribeError(s@),
        }
    }
}

impl SubErrorView {
    /// The text of the error.
    pub open spec fn text(self) -> Seq<char> {
        match self {
            SubErrorView::SpawningError(s) => "Error spawning process: "@ + s,
            SubErrorView::SerializeError(s) => "Serialization error: "@ + s,
            SubErrorView::InvalidAddress => "Invalid address"@,
            SubErrorView::SubscriptionNotFound => "Subscription not found"@,
            SubErrorView::SubInitError(s) => "Subscriber initialization error: "@ + s,
            SubErrorView::UnsubscribeError(s) => "Unsubscribe error: "@ + s,
        }
    }
}

impl SubError {
    /// The text of the error.
    pub fn to_string(&self) -> (r: String)
        ensures
            r@ == self@.text(),
    {
        match self {
            SubError::SpawningError(s) => {
                let mut text = "Error spawning process: ".to_owned();
                text.append(s.as_str());
                text
            },
            SubError::SerializeError(s) => {
                let mut text = "Serialization error: ".to_owned();
                text.append(s.as_str());
                text
            },
            SubError::InvalidAddress => "Invalid address".to_owned(),
            SubError::SubscriptionNotFound => "Subscription not found".to_owned(),
            SubError::SubInitError(s) => {
                let mut text = "Subscriber initialization error: ".to_owned();
                text.append(s.as_str());
                text
            },
            SubError::UnsubscribeError(s) => {
                let mut text = "Unsubscribe error: ".to_owned();
                text.append(s.as_str());
                text
            },
        }
    }
}

/// What the host is to spawn.
#[derive(Debug, Clone, PartialEq, Eq)]
pub struct SpawnRequest {
    /// The name of the new process; without one the host picks a name.
    pub name: Option<String>,
    /// The file of the executable.
    pub wasm_path: String,
    /// Whether the process is restarted when it exits.
    pub restart: bool,
    /// Whether any process may send to it.
    pub public: bool,
}

/// View of a [`SpawnRequest`].
pub struct SpawnRequestView {
    pub name: Option<Seq<char>>,
    pub wasm_path: Seq<char>,
    pub restart: bool,
    pub public: bool,
}

impl View for SpawnRequest {
    type V = SpawnRequestView;

    open spec fn view(&self) -> SpawnRequestView {
        SpawnRequestView {
            name: self.name.deep_view(),
            wasm_path: self.wasm_path@,
            restart: self.restart,
            public: self.public,
        }
    }
}

/// What came of a spawn: the new process, or the reason why there is none.
pub open spec fn spawned_view(spawned: Result<ProcessId, String>) -> Result<
    ProcessIdView,
    Seq<char>,
> {
    match spawned {
        Ok(process) => Ok(process@),
        Err(reason) => Err(reason@),
    }
}

/// The name of the process that publishes a topic.
pub open spec fn publisher_process_name(topic: Seq<char>) -> Seq<char> {
    "pub-"@ + topic
}

/// The name of the process that publishes a topic.
pub fn publisher_name(topic: &str) -> (r: String)
    ensures
        r@ == publisher_process_name(topic@),
{
    let mut name = "pub-".to_owned();
    name.append(topic);
    name
}

/// The publisher of a topic as the registry knows it.
#[derive(Debug, Clone, PartialEq, Eq)]
pub struct Publisher {
    pub address: Address,
    pub config: PublisherConfig,
}

/// View of a [`Publisher`].
pub struct RegisteredPublisherView {
    pub address: AddressView,
    pub config: PublisherConfig,
}

impl View for Publisher {
    type V = RegisteredPublisherView;

    open spec fn view(&self) -> RegisteredPublisherView {
        RegisteredPublisherView { address: self.address@, config: self.config }
    }
}

impl DeepView for Publisher {
    type V = RegisteredPublisherView;

    open spec fn deep_view(&self) -> RegisteredPublisherView {
        self@
    }
}

/// The view of an optional publisher.
pub open spec fn publisher_option_view(p: Option<&Publisher>) -> Option<RegisteredPublisherView> {
    match p {
        Some(publisher) => Some(publisher@),
        None => None,
    }
}

/// The key of an entry of the registry of publishers: its topic.
pub open spec fn by_topic() -> spec_fn((Seq<char>, RegisteredPublisherView)) -> Seq<char> {
    |e: (Seq<char>, RegisteredPublisherView)| e.0
}

/// The effect that sends a request without payload or grant.
pub open spec fn plain_send(target: AddressView, request: PubSubRequestView) -> EffectView {
    EffectView::Send { target, request, payload: PayloadView::Empty, grant: None }
}

/// The registry of publishers, as contracts see it.
pub struct PubView {
    pub publishers: Seq<(Seq<char>, RegisteredPublisherView)>,
    pub our: AddressView,
    pub default_config: PublisherConfig,
}

/// One step of publishing through the registry.
#[derive(Debug, Clone, PartialEq, Eq)]
pub enum PublishStep {
    /// The topic has a publisher: these effects hand it the message.
    Send(Vec<Effect>),
    /// The topic has no publisher yet: spawn one, register it with
    /// [`Pub::new_topic`] and publish again.
    Spawn(SpawnRequest),
}

/// View of a [`PublishStep`].
pub enum PublishStepView {
    Send(Seq<EffectView>),
    Spawn(SpawnRequestView),
}

impl View for PublishStep {
    type V = PublishStepView;

    open spec fn view(&self) -> PublishStepView {
        match self {
            PublishStep::Send(effects) => PublishStepView::Send(effects.deep_view()),
            PublishStep::Spawn(request) => PublishStepView::Spawn(request@),
        }
    }
}

impl PubView {
    /// No topic is registered twice.
    pub open spec fn wf(self) -> bool {
        distinct_by(self.publishers, by_topic())
    }

    /// The index of the entry of a topic.
    pub open spec fn find(self, topic: Seq<char>) -> Option<int> {
        index_by(self.publishers, by_topic(), topic)
    }

    /// The publisher of a topic.
    pub open spec fn get_topic(self, topic: Seq<char>) -> Option<RegisteredPublisherView> {
        match self.find(topic) {
            Some(i) => Some(self.publishers[i].1),
            None => None,
        }
    }

    /// What to spawn for a topic: a public process named after the topic,
    /// restarted when it exits, from the publisher's executable in the
    /// package of the registry.
    pub open spec fn spawn_request(self, topic: Seq<char>) -> SpawnRequestView {
        SpawnRequestView {
            name: Some(publisher_process_name(topic)),
            wasm_path: wasm_path_text(self.our.package_id(), WasmType::Pub),
            restart: true,
            public: true,
        }
    }

    /// The registry with an entry for a topic: a new entry, or the old one
    /// replaced.
    pub open spec fn with_topic(self, topic: Seq<char>, publisher: RegisteredPublisherView) -> Seq<
        (Seq<char>, RegisteredPublisherView),
    > {
        match self.find(topic) {
            Some(i) => self.publishers.update(i, (topic, publisher)),
            None => self.publishers.push((topic, publisher)),
        }
    }

    /// Registering a topic once its publisher has been spawned: the registry
    /// after it, and the effects or the error. A spawn that failed changes
    /// nothing. The new publisher lives on the node of the registry; it is
    /// sent its topic and its configuration, which is the default where none
    /// is given.
    pub open spec fn new_topic(
        self,
        topic: Seq<char>,
        config: Option<PublisherConfig>,
        spawned: Result<ProcessIdView, Seq<char>>,
    ) -> (PubView, Result<Seq<EffectView>, PubErrorView>) {
        match spawned {
            Err(reason) => (self, Err(PubErrorView::SpawningError(reason))),
            Ok(process) => {
                let address = AddressView { node: self.our.node, process };
                let config = match config {
                    Some(c) => c,
                    None => self.default_config,
                };
                (
                    PubView {
                        publishers: self.with_topic(
                            topic,
                            RegisteredPublisherView { address, config },
                        ),
                        ..self
                    },
                    Ok(
                        seq![
                            plain_send(
                                address,
                                PubSubRequestView::InitPub(InitPubRequestView { topic, config }),
                            ),
                        ],
                    ),
                )
            },
        }
    }

    /// Publishing a message: handed to the publisher of the topic where
    /// there is one, with the sequence number left for the publisher to
    /// assign; else a publisher is to be spawned first.
    pub open spec fn publish(self, topic: Seq<char>, message: Seq<u8>) -> PublishStepView {
        match self.get_topic(topic) {
            Some(publisher) => PublishStepView::Send(
                seq![
                    EffectView::Send {
                        target: publisher.address,
                        request: PubSubRequestView::Publish(SequencedView { topic, sequence: 0 }),
                        payload: PayloadView::Inline(message),
                        grant: None,
                    },
                ],
            ),
            None => PublishStepView::Spawn(self.spawn_request(topic)),
        }
    }

    /// Removing a topic: its publisher, if it has one, is told to stop.
    pub open spec fn remove_topic(self, topic: Seq<char>) -> Seq<EffectView> {
        match self.get_topic(topic) {
            Some(publisher) => seq![plain_send(publisher.address, PubSubRequestView::Kill)],
            None => Seq::empty(),
        }
    }
}

/// The view of an outcome of the registry of publishers.
pub open spec fn pub_outcome_view(r: Result<Vec<Effect>, PubError>) -> Result<
    Seq<EffectView>,
    PubErrorView,
> {
    match r {
        Ok(effects) => Ok(effects.deep_view()),
        Err(e) => Err(e@),
    }
}

/// The registry of the publishers that one process has created.
#[derive(Debug)]
pub struct Pub {
    publishers: Vec<(String, Publisher)>,
    our: Address,
    default_config: PublisherConfig,
}

impl View for Pub {
    type V = PubView;

    closed spec fn view(&self) -> PubView {
        PubView {
            publishers: self.publishers.deep_view(),
            our: self.our@,
            default_config: self.default_config,
        }
    }
}

/// The index of the entry of a topic.
fn find_topic(entries: &Vec<(String, Publisher)>, topic: &str) -> (r: Option<usize>)
    requires
        distinct_by(entries.deep_view(), by_topic()),
    ensures
        match r {
            Some(i) => index_by(entries.deep_view(), by_topic(), topic@) == Some(i as int) && i
                < entries@.len(),
            None => index_by(entries.deep_view(), by_topic(), topic@) is None,
        },
{
    let ghost views = entries.deep_view();
    let wanted = topic.to_owned();
    let n = entries.len();
    let mut i: usize = 0;
    while i < n
        invariant
            i <= n,
            n == entries@.len(),
            views == entries.deep_view(),
            distinct_by(views, by_topic()),
            wanted@ == topic@,
            forall|k: int| 0 <= k < i ==> by_topic()(#[trigger] views[k]) != topic@,
        decreases n - i,
    {
        if entries[i].0 == wanted {
            proof {
                assert(by_topic()(views[i as int]) == topic@);
                lemma_index_by_unique(views, by_topic(), topic@, i as int);
            }
            return Some(i);
        }
        i += 1;
    }
    None
}

impl Pub {
    /// The registry of the process `our`: the one of an earlier run where
    /// there is a snapshot, else an empty one, which is persisted at once.
    pub fn new(our: &Address, default_config: PublisherConfig, snapshot: Option<Pub>) -> (r: (
        Pub,
        Vec<Effect>,
    ))
        requires
            snapshot matches Some(s) ==> s@.wf(),
        ensures
            r.0@.wf(),
            match snapshot {
                Some(s) => r.0@ == s@ && r.1.deep_view() == Seq::<EffectView>::empty(),
                None => r.0@ == (PubView {
                    publishers: Seq::empty(),
                    our: our@,
                    default_config,
                }) && r.1.deep_view() == seq![EffectView::SaveState],
            },
    {
        let mut effects: Vec<Effect> = Vec::new();
        match snapshot {
            Some(state) => {
                proof {
                    assert(effects.deep_view() =~= Seq::<EffectView>::empty());
                }
                (state, effects)
            },
            None => {
                effects.push(Effect::SaveState);
                let state = Pub { publishers: Vec::new(), our: our.clone(), default_config };
                proof {
                    assert(effects.deep_view() =~= seq![EffectView::SaveState]);
                    assert(state.publishers.deep_view() =~= Seq::<
                        (Seq<char>, RegisteredPublisherView),
                    >::empty());
                }
                (state, effects)
            },
        }
    }

    /// The address of the process that holds the registry.
    pub fn our(&self) -> (r: &Address)
        ensures
            r@ == self@.our,
    {
        &self.our
    }

    /// The configuration of topics that are created without one.
    pub fn default_config(&self) -> (r: &PublisherConfig)
        ensures
            *r == self@.default_config,
    {
        &self.default_config
    }

    /// The registered topics with their publishers.
    pub fn publishers(&self) -> (r: &Vec<(String, Publisher)>)
        ensures
            r.deep_view() == self@.publishers,
    {
        &self.publishers
    }

    /// What to spawn for a topic.
    pub fn spawn_request(&self, topic: &str) -> (r: SpawnRequest)
        ensures
            r@ == self@.spawn_request(topic@),
    {
        SpawnRequest {
            name: Some(publisher_name(topic)),
            wasm_path: wasm_path(&self.our, WasmType::Pub),
            restart: true,
            public: true,
        }
    }

    /// Registers a topic whose publisher the host has tried to spawn.
    pub fn new_topic(
        &mut self,
        topic: &str,
        config: Option<PublisherConfig>,
        spawned: Result<ProcessId, String>,
    ) -> (r: Result<Vec<Effect>, PubError>)
        requires
            old(self)@.wf(),
        ensures
            final(self)@ == old(self)@.new_topic(topic@, config, spawned_view(spawned)).0,
            pub_outcome_view(r) == old(self)@.new_topic(topic@, config, spawned_view(spawned)).1,
            final(self)@.wf(),
    {
        let process = match spawned {
            Ok(process) => process,
            Err(reason) => {
                return Err(PubError::SpawningError(reason));
            },
        };
        let address = Address { node: self.our.node.clone(), process };
        let config = match config {
            Some(c) => c,
            None => self.default_config,
        };
        let mut effects: Vec<Effect> = Vec::new();
        effects.push(
            Effect::Send {
                target: address.clone(),
                request: PubSubRequest::InitPub(InitPubRequest { topic: topic.to_owned(), config }),
                payload: Payload::Empty,
                grant: None,
            },
        );
        let ghost entry = (topic@, RegisteredPublisherView { address: address@, config });
        let ghost before = self.publishers.deep_view();
        let found = find_topic(&self.publishers, topic);
        let publisher = Publisher { address, config };
        match found {
            Some(i) => {
                self.publishers.set(i, (topic.to_owned(), publisher));
                proof {
                    assert(self.publishers.deep_view() =~= before.update(i as int, entry));
                    lemma_update_distinct(before, by_topic(), i as int, entry);
                }
            },
            None => {
                self.publishers.push((topic.to_owned(), publisher));
                proof {
                    assert(self.publishers.deep_view() =~= before.push(entry));
                    lemma_push_distinct(before, by_topic(), entry);
                }
            },
        }
        proof {
            assert(effects.deep_view() =~= seq![
                plain_send(
                    entry.1.address,
                    PubSubRequestView::InitPub(InitPubRequestView { topic: topic@, config }),
                ),
            ]);
        }
        Ok(effects)
    }

    /// The publisher of a topic.
    pub fn get_topic(&self, topic: &str) -> (r: Option<&Publisher>)
        requires
            self@.wf(),
        ensures
            publisher_option_view(r) == self@.get_topic(topic@),
    {
        match find_topic(&self.publishers, topic) {
            Some(i) => Some(&self.publishers[i].1),
            None => None,
        }
    }

    /// Publishes a message to a topic.
    pub fn publish(&self, topic: &str, message: &Vec<u8>) -> (r: PublishStep)
        requires
            self@.wf(),
        ensures
            r@ == self@.publish(topic@, message@),
    {
        match self.get_topic(topic) {
            Some(publisher) => {
                let mut effects: Vec<Effect> = Vec::new();
                effects.push(
                    Effect::Send {
                        target: publisher.address.clone(),
                        request: PubSubRequest::Publish(
                            PublishMessage { topic: topic.to_owned(), sequence: 0 },
                        ),
                        payload: Payload::Inline(message.clone()),
                        grant: None,
                    },
                );
                proof {
                    assert(effects.deep_view() =~= seq![
                        EffectView::Send {
                            target: publisher@.address,
                            request: PubSubRequestView::Publish(
                                SequencedView { topic: topic@, sequence: 0 },
                            ),
                            payload: PayloadView::Inline(message@),
                            grant: None,
                        },
                    ]);
                }
                PublishStep::Send(effects)
            },
            None => PublishStep::Spawn(self.spawn_request(topic)),
        }
    }

    /// Tells the publisher of a topic to stop. The registry stays as it is.
    pub fn remove_topic(&self, topic: &str) -> (r: Result<Vec<Effect>, PubError>)
        requires
            self@.wf(),
        ensures
            pub_outcome_view(r) == Ok::<Seq<EffectView>, PubErrorView>(
                self@.remove_topic(topic@),
            ),
    {
        let mut effects: Vec<Effect> = Vec::new();
        match self.get_topic(topic) {
            Some(publisher) => {
                effects.push(
                    Effect::Send {
                        target: publisher.address.clone(),
                        request: PubSubRequest::Kill,
                        payload: Payload::Empty,
                        grant: None,
                    },
                );
                proof {
                    assert(effects.deep_view() =~= seq![
                        plain_send(publisher@.address, PubSubRequestView::Kill),
                    ]);
                }
            },
            None => {
                proof {
                    assert(effects.deep_view() =~= Seq::<EffectView>::empty());
                }
            },
        }
        Ok(effects)
    }
}

/// Whether no two entries have the same topic.
fn distinct_topics(entries: &Vec<(String, Publisher)>) -> (r: bool)
    ensures
        r == distinct_by(entries.deep_view(), by_topic()),
{
    let ghost views = entries.deep_view();
    let n = entries.len();
    let mut i: usize = 0;
    while i < n
        invariant
            i <= n,
            n == entries@.len(),
            views == entries.deep_view(),
            forall|a: int, b: int|
                0 <= a < b < i ==> by_topic()(#[trigger] views[a]) != by_topic()(
                    #[trigger] views[b],
                ),
        decreases n - i,
    {
        let mut j: usize = 0;
        while j < i
            invariant
                j <= i,
                i < n,
                n == entries@.len(),
                views == entries.deep_view(),
                forall|a: int|
                    0 <= a < j ==> by_topic()(#[trigger] views[a]) != by_topic()(views[i as int]),
            decreases i - j,
        {
            if entries[j].0 == entries[i].0 {
                proof {
                    assert(by_topic()(views[j as int]) == by_topic()(views[i as int]));
                }
                return false;
            }
            j += 1;
        }
        i += 1;
    }
    true
}

impl Pub {
    /// The registry that a snapshot describes, if no topic is in it twice.
    pub fn restore(
        publishers: Vec<(String, Publisher)>,
        our: Address,
        default_config: PublisherConfig,
    ) -> (r: Option<Pub>)
        ensures
            match r {
                Some(state) => state@.wf() && state@ == (PubView {
                    publishers: publishers.deep_view(),
                    our: our@,
                    default_config,
                }),
                None => !distinct_by(publishers.deep_view(), by_topic()),
            },
    {
        if distinct_topics(&publishers) {
            Some(Pub { publishers, our, default_config })
        } else {
            None
        }
    }
}

/// What names a subscription: the publisher and the topic.
#[derive(Debug, Clone, PartialEq, Eq)]
pub struct Subscription {
    pub publisher: Address,
    pub topic: String,
}

/// View of a [`Subscription`].
pub struct SubscriptionKey {
    pub publisher: AddressView,
    pub topic: Seq<char>,
}

impl View for Subscription {
    type V = SubscriptionKey;

    open spec fn view(&self) -> SubscriptionKey {
        SubscriptionKey { publisher: self.publisher@, topic: self.topic@ }
    }
}

impl DeepView for Subscription {
    type V = SubscriptionKey;

    open spec fn deep_view(&self) -> SubscriptionKey {
        self@
    }
}

/// The subscriber of a subscription as the registry knows it.
#[derive(Debug, Clone, PartialEq, Eq)]
pub struct Subscriber {
    pub address: Address,
    pub latest_sequence: u64,
}

/// View of a [`Subscriber`].
pub struct RegisteredSubscriberView {
    pub address: AddressView,
    pub latest_sequence: u64,
}

impl View for Subscriber {
    type V = RegisteredSubscriberView;

    open spec fn view(&self) -> RegisteredSubscriberView {
        RegisteredSubscriberView { address: self.address@, latest_sequence: self.latest_sequence }
    }
}

impl DeepView for Subscriber {
    type V = RegisteredSubscriberView;

    open spec fn deep_view(&self) -> RegisteredSubscriberView {
        self@
    }
}

/// The key of an entry of the registry of subscriptions.
pub open spec fn by_subscription() -> spec_fn(
    (SubscriptionKey, RegisteredSubscriberView),
) -> SubscriptionKey {
    |e: (SubscriptionKey, RegisteredSubscriberView)| e.0
}

/// The address of the publisher of a topic in a package on a node.
pub open spec fn publisher_address_of(topic: Seq<char>, package: PackageIdView, node: Seq<char>) -> AddressView {
    AddressView {
        node,
        process: ProcessIdView {
            process_name: publisher_process_name(topic),
            package_name: package.package_name,
            publisher_node: package.publisher_node,
        },
    }
}

/// The key of the subscription to a topic of a package on a node.
pub open spec fn subscription_key(topic: Seq<char>, package: PackageIdView, node: Seq<char>) -> SubscriptionKey {
    SubscriptionKey { publisher: publisher_address_of(topic, package, node), topic }
}

/// How the call that creates a subscriber ended.
#[derive(Debug, Clone, PartialEq, Eq)]
pub enum InitOutcome {
    /// The subscriber answered.
    Answered(SubscribeResponse),
    /// An answer came that could not be decoded, and why.
    Undecodable(String),
    /// No answer came, and why.
    Failed(String),
}

/// View of an [`InitOutcome`].
pub enum InitOutcomeView {
    Answered(OutcomeView),
    Undecodable(Seq<char>),
    Failed(Seq<char>),
}

impl View for InitOutcome {
    type V = InitOutcomeView;

    open spec fn view(&self) -> InitOutcomeView {
        match self {
            InitOutcome::Answered(response) => InitOutcomeView::Answered(response@),
            InitOutcome::Undecodable(reason) => InitOutcomeView::Undecodable(reason@),
            InitOutcome::Failed(reason) => InitOutcomeView::Failed(reason@),
        }
    }
}

/// One step of subscribing through the registry.
#[derive(Debug, Clone, PartialEq, Eq)]
pub enum SubscribeStep {
    /// The subscription stands: these effects renew it.
    Resubscribe(Vec<Effect>),
    /// There is no subscriber yet: spawn one and go on with
    /// [`Sub::init_request`].
    Spawn(SpawnRequest),
}

/// View of a [`SubscribeStep`].
pub enum SubscribeStepView {
    Resubscribe(Seq<EffectView>),
    Spawn(SpawnRequestView),
}

impl View for SubscribeStep {
    type V = SubscribeStepView;

    open spec fn view(&self) -> SubscribeStepView {
        match self {
            SubscribeStep::Resubscribe(effects) => SubscribeStepView::Resubscribe(
                effects.deep_view(),
            ),
            SubscribeStep::Spawn(request) => SubscribeStepView::Spawn(request@),
        }
    }
}

/// The registry of subscriptions, as contracts see it.
pub struct SubView {
    pub subscriptions: Seq<(SubscriptionKey, RegisteredSubscriberView)>,
    pub our: AddressView,
}

impl SubView {
    /// No subscription is registered twice.
    pub open spec fn wf(self) -> bool {
        distinct_by(self.subscriptions, by_subscription())
    }

    /// The index of the entry of a subscription.
    pub open spec fn find(self, key: SubscriptionKey) -> Option<int> {
        index_by(self.subscriptions, by_subscription(), key)
    }

    /// What to spawn for a new subscription: a private process without a
    /// name of its own, restarted when it exits, from the subscriber's
    /// executable in the package of the registry.
    pub open spec fn spawn_request(self) -> SpawnRequestView {
        SpawnRequestView {
            name: None,
            wasm_path: wasm_path_text(self.our.package_id(), WasmType::Sub),
            restart: true,
            public: false,
        }
    }

    /// Subscribing to a topic of a package on a node: where the
    /// subscription stands its subscriber is asked to subscribe again, else
    /// a subscriber is to be spawned.
    pub open spec fn subscribe_from(
        self,
        topic: Seq<char>,
        package: PackageIdView,
        node: Seq<char>,
        sequence: Option<u64>,
    ) -> SubscribeStepView {
        match self.find(subscription_key(topic, package, node)) {
            Some(i) => SubscribeStepView::Resubscribe(
                seq![
                    plain_send(
                        self.subscriptions[i].1.address,
                        PubSubRequestView::Subscribe(
                            SubscribeRequestView { topic, from_sequence: sequence },
                        ),
                    ),
                ],
            ),
            None => SubscribeStepView::Spawn(self.spawn_request()),
        }
    }

    /// What follows the spawn of a subscriber: its address on the node of
    /// the registry and the call that tells it what to subscribe to, or the
    /// error of the spawn.
    pub open spec fn init_request(
        self,
        topic: Seq<char>,
        package: PackageIdView,
        node: Seq<char>,
        sequence: Option<u64>,
        spawned: Result<ProcessIdView, Seq<char>>,
    ) -> Result<(AddressView, Seq<EffectView>), SubErrorView> {
        match spawned {
            Err(reason) => Err(SubErrorView::SpawningError(reason)),
            Ok(process) => {
                let address = AddressView { node: self.our.node, process };
                Ok(
                    (
                        address,
                        seq![
                            EffectView::Call {
                                target: address,
                                request: PubSubRequestView::InitSub(
                                    InitSubRequestView {
                                        topic,
                                        parent: self.our.rendered(),
                                        publisher: publisher_address_of(
                                            topic,
                                            package,
                                            node,
                                        ).rendered(),
                                        forward_to: Seq::empty(),
                                        from_sequence: sequence,
                                    },
                                ),
                                grant: None,
                                timeout: SUBSCRIBE_TIMEOUT,
                            },
                        ],
                    ),
                )
            },
        }
    }

    /// The registry with an entry for a subscription: a new entry, or the
    /// old one replaced.
    pub open spec fn with_subscription(
        self,
        key: SubscriptionKey,
        subscriber: RegisteredSubscriberView,
    ) -> Seq<(SubscriptionKey, RegisteredSubscriberView)> {
        match self.find(key) {
            Some(i) => self.subscriptions.update(i, (key, subscriber)),
            None => self.subscriptions.push((key, subscriber)),
        }
    }

    /// What the answer of a new subscriber comes to: the registry after it,
    /// and the error if there is one. Only a subscription that was granted
    /// is registered.
    pub open spec fn complete_subscribe(
        self,
        topic: Seq<char>,
        package: PackageIdView,
        node: Seq<char>,
        sequence: Option<u64>,
        subscriber: AddressView,
        outcome: InitOutcomeView,
    ) -> (SubView, Result<(), SubErrorView>) {
        match outcome {
            InitOutcomeView::Failed(reason) => (self, Err(SubErrorView::SubInitError(reason))),
            InitOutcomeView::Undecodable(reason) => (
                self,
                Err(SubErrorView::SerializeError(reason)),
            ),
            InitOutcomeView::Answered(response) => if !response.success {
                (
                    self,
                    Err(
                        SubErrorView::SubInitError(
                            match response.error {
                                Some(e) => e,
                                None => Seq::empty(),
                            },
                        ),
                    ),
                )
            } else {
                (
                    SubView {
                        subscriptions: self.with_subscription(
                            subscription_key(topic, package, node),
                            RegisteredSubscriberView {
                                address: subscriber,
                                latest_sequence: starting_point(sequence),
                            },
                        ),
                        ..self
                    },
                    Ok(()),
                )
            },
        }
    }

    /// Unsubscribing: the registry after it, and the effects or the error.
    /// The entry is removed and its subscriber is told to unsubscribe; a
    /// subscription that is not registered is an error.
    pub open spec fn unsubscribe(self, topic: Seq<char>, package: PackageIdView, node: Seq<char>) -> (
        SubView,
        Result<Seq<EffectView>, SubErrorView>,
    ) {
        match self.find(subscription_key(topic, package, node)) {
            Some(i) => (
                SubView { subscriptions: self.subscriptions.remove(i), ..self },
                Ok(
                    seq![
                        plain_send(
                            self.subscriptions[i].1.address,
                            PubSubRequestView::Unsubscribe(topic),
                        ),
                    ],
                ),
            ),
            None => (self, Err(SubErrorView::SubscriptionNotFound)),
        }
    }
}

/// The view of an outcome of the registry of subscriptions.
pub open spec fn sub_outcome_view(r: Result<Vec<Effect>, SubError>) -> Result<
    Seq<EffectView>,
    SubErrorView,
> {
    match r {
        Ok(effects) => Ok(effects.deep_view()),
        Err(e) => Err(e@),
    }
}

/// The view of the outcome of [`Sub::init_request`].
pub open spec fn init_request_view(r: Result<(Address, Vec<Effect>), SubError>) -> Result<
    (AddressView, Seq<EffectView>),
    SubErrorView,
> {
    match r {
        Ok((address, effects)) => Ok((address@, effects.deep_view())),
        Err(e) => Err(e@),
    }
}

/// The view of an outcome without a value.
pub open spec fn unit_outcome_view(r: Result<(), SubError>) -> Result<(), SubErrorView> {
    match r {
        Ok(()) => Ok(()),
        Err(e) => Err(e@),
    }
}

/// The registry of the subscriptions that one process has made.
#[derive(Debug)]
pub struct Sub {
    subscriptions: Vec<(Subscription, Subscriber)>,
    our: Address,
}

impl View for Sub {
    type V = SubView;

    closed spec fn view(&self) -> SubView {
        SubView { subscriptions: self.subscriptions.deep_view(), our: self.our@ }
    }
}

/// The index of the entry of a subscription.
fn find_subscription(entries: &Vec<(Subscription, Subscriber)>, key: &Subscription) -> (r: Option<
    usize,
>)
    requires
        distinct_by(entries.deep_view(), by_subscription()),
    ensures
        match r {
            Some(i) => index_by(entries.deep_view(), by_subscription(), key@) == Some(i as int)
                && i < entries@.len(),
            None => index_by(entries.deep_view(), by_subscription(), key@) is None,
        },
{
    let ghost views = entries.deep_view();
    let n = entries.len();
    let mut i: usize = 0;
    while i < n
        invariant
            i <= n,
            n == entries@.len(),
            views == entries.deep_view(),
            distinct_by(views, by_subscription()),
            forall|k: int| 0 <= k < i ==> by_subscription()(#[trigger] views[k]) != key@,
        decreases n - i,
    {
        if entries[i].0.publisher == key.publisher && entries[i].0.topic == key.topic {
            proof {
                assert(by_subscription()(views[i as int]) == key@);
                lemma_index_by_unique(views, by_subscription(), key@, i as int);
            }
            return Some(i);
        }
        i += 1;
    }
    None
}

/// Whether no two entries are of the same subscription.
fn distinct_subscriptions(entries: &Vec<(Subscription, Subscriber)>) -> (r: bool)
    ensures
        r == distinct_by(entries.deep_view(), by_subscription()),
{
    let ghost views = entries.deep_view();
    let n = entries.len();
    let mut i: usize = 0;
    while i < n
        invariant
            i <= n,
            n == entries@.len(),
            views == entries.deep_view(),
            forall|a: int, b: int|
                0 <= a < b < i ==> by_subscription()(#[trigger] views[a]) != by_subscription()(
                    #[trigger] views[b],
                ),
        decreases n - i,
    {
        let mut j: usize = 0;
        while j < i
            invariant
                j <= i,
                i < n,
                n == entries@.len(),
                views == entries.deep_view(),
                forall|a: int|
                    0 <= a < j ==> by_subscription()(#[trigger] views[a]) != by_subscription()(
                        views[i as int],
                    ),
            decreases i - j,
        {
            if entries[j].0.publisher == entries[i].0.publisher && entries[j].0.topic
                == entries[i].0.topic {
                proof {
                    assert(by_subscription()(views[j as int]) == by_subscription()(
                        views[i as int],
                    ));
                }
                return false;
            }
            j += 1;
        }
        i += 1;
    }
    true
}

impl Sub {
    /// The registry that a snapshot describes, if no subscription is in it
    /// twice.
    pub fn restore(subscriptions: Vec<(Subscription, Subscriber)>, our: Address) -> (r: Option<Sub>)
        ensures
            match r {
                Some(state) => state@.wf() && state@ == (SubView {
                    subscriptions: subscriptions.deep_view(),
                    our: our@,
                }),
                None => !distinct_by(subscriptions.deep_view(), by_subscription()),
            },
    {
        if distinct_subscriptions(&subscriptions) {
            Some(Sub { subscriptions, our })
        } else {
            None
        }
    }
}

/// The address of the publisher of a topic in a package on a node.
pub fn publisher_address(topic: &str, publisher_pkg: &PackageId, node: &str) -> (r: Address)
    ensures
        r@ == publisher_address_of(topic@, publisher_pkg@, node@),
{
    Address {
        node: node.to_owned(),
        process: ProcessId {
            process_name: publisher_name(topic),
            package_name: publisher_pkg.package_name.clone(),
            publisher_node: publisher_pkg.publisher_node.clone(),
        },
    }
}

impl Sub {
    /// The registry of the process `our`: the one of an earlier run where
    /// there is a snapshot, else an empty one, which is persisted at once.
    pub fn new(our: &Address, snapshot: Option<Sub>) -> (r: (Sub, Vec<Effect>))
        requires
            snapshot matches Some(s) ==> s@.wf(),
        ensures
            r.0@.wf(),
            match snapshot {
                Some(s) => r.0@ == s@ && r.1.deep_view() == Seq::<EffectView>::empty(),
                None => r.0@ == (SubView { subscriptions: Seq::empty(), our: our@ })
                    && r.1.deep_view() == seq![EffectView::SaveState],
            },
    {
        let mut effects: Vec<Effect> = Vec::new();
        match snapshot {
            Some(state) => {
                proof {
                    assert(effects.deep_view() =~= Seq::<EffectView>::empty());
                }
                (state, effects)
            },
            None => {
                effects.push(Effect::SaveState);
                let state = Sub { subscriptions: Vec::new(), our: our.clone() };
                proof {
                    assert(effects.deep_view() =~= seq![EffectView::SaveState]);
                    assert(state.subscriptions.deep_view() =~= Seq::<
                        (SubscriptionKey, RegisteredSubscriberView),
                    >::empty());
                }
                (state, effects)
            },
        }
    }

    /// The address of the process that holds the registry.
    pub fn our(&self) -> (r: &Address)
        ensures
            r@ == self@.our,
    {
        &self.our
    }

    /// The registered subscriptions with their subscribers.
    pub fn subscriptions(&self) -> (r: &Vec<(Subscription, Subscriber)>)
        ensures
            r.deep_view() == self@.subscriptions,
    {
        &self.subscriptions
    }

    /// What to spawn for a new subscription.
    pub fn spawn_request(&self) -> (r: SpawnRequest)
        ensures
            r@ == self@.spawn_request(),
    {
        SpawnRequest {
            name: None,
            wasm_path: wasm_path(&self.our, WasmType::Sub),
            restart: true,
            public: false,
        }
    }

    /// Subscribes to a topic from a sequence number on.
    pub fn subscribe_from(
        &self,
        topic: &str,
        publisher_pkg: &PackageId,
        node: &str,
        sequence: Option<u64>,
    ) -> (r: SubscribeStep)
        requires
            self@.wf(),
        ensures
            r@ == self@.subscribe_from(topic@, publisher_pkg@, node@, sequence),
    {
        let key = Subscription {
            publisher: publisher_address(topic, publisher_pkg, node),
            topic: topic.to_owned(),
        };
        match find_subscription(&self.subscriptions, &key) {
            Some(i) => {
                let mut effects: Vec<Effect> = Vec::new();
                effects.push(
                    Effect::Send {
                        target: self.subscriptions[i].1.address.clone(),
                        request: PubSubRequest::Subscribe(
                            SubscribeRequest { topic: topic.to_owned(), from_sequence: sequence },
                        ),
                        payload: Payload::Empty,
                        grant: None,
                    },
                );
                proof {
                    assert(effects.deep_view() =~= seq![
                        plain_send(
                            self@.subscriptions[i as int].1.address,
                            PubSubRequestView::Subscribe(
                                SubscribeRequestView { topic: topic@, from_sequence: sequence },
                            ),
                        ),
                    ]);
                }
                SubscribeStep::Resubscribe(effects)
            },
            None => SubscribeStep::Spawn(self.spawn_request()),
        }
    }

    /// Subscribes to a topic from the next message on.
    pub fn subscribe(&self, topic: &str, publisher_pkg: &PackageId, node: &str) -> (r:
        SubscribeStep)
        requires
            self@.wf(),
        ensures
            r@ == self@.subscribe_from(topic@, publisher_pkg@, node@, None),
    {
        self.subscribe_from(topic, publisher_pkg, node, None)
    }

    /// Goes on after the host has tried to spawn a subscriber.
    pub fn init_request(
        &self,
        topic: &str,
        publisher_pkg: &PackageId,
        node: &str,
        sequence: Option<u64>,
        spawned: Result<ProcessId, String>,
    ) -> (r: Result<(Address, Vec<Effect>), SubError>)
        ensures
            init_request_view(r) == self@.init_request(
                topic@,
                publisher_pkg@,
                node@,
                sequence,
                spawned_view(spawned),
            ),
    {
        let process = match spawned {
            Ok(process) => process,
            Err(reason) => {
                return Err(SubError::SpawningError(reason));
            },
        };
        let address = Address { node: self.our.node.clone(), process };
        let publisher = publisher_address(topic, publisher_pkg, node);
        let forward_to: Vec<String> = Vec::new();
        let request = InitSubRequest {
            topic: topic.to_owned(),
            parent: self.our.to_string(),
            publisher: publisher.to_string(),
            forward_to,
            from_sequence: sequence,
        };
        let ghost request_view = request@;
        let mut effects: Vec<Effect> = Vec::new();
        effects.push(
            Effect::Call {
                target: address.clone(),
                request: PubSubRequest::InitSub(request),
                grant: None,
                timeout: SUBSCRIBE_TIMEOUT,
            },
        );
        proof {
            assert(request_view.forward_to =~= Seq::<Seq<char>>::empty());
            assert(effects.deep_view() =~= seq![
                EffectView::Call {
                    target: address@,
                    request: PubSubRequestView::InitSub(request_view),
                    grant: None,
                    timeout: SUBSCRIBE_TIMEOUT,
                },
            ]);
        }
        Ok((address, effects))
    }

    /// Registers a new subscription once its subscriber has answered.
    pub fn complete_subscribe(
        &mut self,
        topic: &str,
        publisher_pkg: &PackageId,
        node: &str,
        sequence: Option<u64>,
        subscriber: Address,
        outcome: InitOutcome,
    ) -> (r: Result<(), SubError>)
        requires
            old(self)@.wf(),
        ensures
            final(self)@ == old(self)@.complete_subscribe(
                topic@,
                publisher_pkg@,
                node@,
                sequence,
                subscriber@,
                outcome@,
            ).0,
            unit_outcome_view(r) == old(self)@.complete_subscribe(
                topic@,
                publisher_pkg@,
                node@,
                sequence,
                subscriber@,
                outcome@,
            ).1,
            final(self)@.wf(),
    {
        let response = match outcome {
            InitOutcome::Failed(reason) => {
                return Err(SubError::SubInitError(reason));
            },
            InitOutcome::Undecodable(reason) => {
                return Err(SubError::SerializeError(reason));
            },
            InitOutcome::Answered(response) => response,
        };
        if !response.success {
            return Err(
                SubError::SubInitError(
                    match response.error {
                        Some(e) => e,
                        None => String::new(),
                    },
                ),
            );
        }
        let key = Subscription {
            publisher: publisher_address(topic, publisher_pkg, node),
            topic: topic.to_owned(),
        };
        let entry = Subscriber {
            address: subscriber,
            latest_sequence: match sequence {
                Some(s) => s,
                None => 0,
            },
        };
        let ghost pair = (key@, entry@);
        let ghost before = self.subscriptions.deep_view();
        match find_subscription(&self.subscriptions, &key) {
            Some(i) => {
                self.subscriptions.set(i, (key, entry));
                proof {
                    assert(self.subscriptions.deep_view() =~= before.update(i as int, pair));
                    lemma_update_distinct(before, by_subscription(), i as int, pair);
                }
            },
            None => {
                self.subscriptions.push((key, entry));
                proof {
                    assert(self.subscriptions.deep_view() =~= before.push(pair));
                    lemma_push_distinct(before, by_subscription(), pair);
                }
            },
        }
        Ok(())
    }

    /// Ends a subscription.
    pub fn unsubscribe(&mut self, topic: &str, publisher_pkg: &PackageId, node: &str) -> (r: Result<
        Vec<Effect>,
        SubError,
    >)
        requires
            old(self)@.wf(),
        ensures
            final(self)@ == old(self)@.unsubscribe(topic@, publisher_pkg@, node@).0,
            sub_outcome_view(r) == old(self)@.unsubscribe(topic@, publisher_pkg@, node@).1,
            final(self)@.wf(),
    {
        let key = Subscription {
            publisher: publisher_address(topic, publisher_pkg, node),
            topic: topic.to_owned(),
        };
        let ghost before = self.subscriptions.deep_view();
        match find_subscription(&self.subscriptions, &key) {
            Some(i) => {
                let removed = self.subscriptions.remove(i);
                let mut effects: Vec<Effect> = Vec::new();
                effects.push(
                    Effect::Send {
                        target: removed.1.address,
                        request: PubSubRequest::Unsubscribe(
                            UnsubscribeRequest { topic: topic.to_owned() },
                        ),
                        payload: Payload::Empty,
                        grant: None,
                    },
                );
                proof {
                    assert(self.subscriptions.deep_view() =~= before.remove(i as int));
                    lemma_remove_distinct(before, by_subscription(), i as int);
                    assert(effects.deep_view() =~= seq![
                        plain_send(before[i as int].1.address, PubSubRequestView::Unsubscribe(topic@)),
                    ]);
                }
                Ok(effects)
            },
            None => Err(SubError::SubscriptionNotFound),
        }
    }
}

} // verus!
