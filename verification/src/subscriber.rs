//! The subscriber of one subscription.
//!
//! A subscriber stands between a publisher and the process that asked for
//! the stream of a topic, its parent. It subscribes on the parent's behalf,
//! passes every message on to the parent and to a set of further addresses,
//! confirms it to the publisher, and ends the subscription when the parent
//! says so. Like the publisher it is a state machine over a view:
//! [`SubscriberView`] and its spec functions say what each step does.

use crate::address::{address_from_str, Address, AddressParseError, AddressView};
use crate::effects::{
    duplicate_grant, grant_view, is_timer, Effect, EffectView, Inbound, InboundBody,
    InboundBodyView, InboundView, Payload, PayloadView,
};
use crate::messages::{
    AccessGrant, Ack, InitSubRequest, InitSubRequestView, OutcomeView, PubSubRequest,
    PubSubRequestView, PubSubResponse, PubSubResponseView, PublishMessage, SequencedView,
    SubscribeRequest, SubscribeRequestView, SubscribeResponse, UnsubscribeRequest,
};
use crate::publisher::{first_view, EngineError, InitError};
use vstd::prelude::*;

verus! {

/// How long a subscriber waits for the answer to a subscribe request.
pub const SUBSCRIBE_TIMEOUT: u64 = 10;

/// One subscription: whose stream, which topic, how far it has come, for
/// whom, and who else gets every message.
#[derive(Debug, Clone, PartialEq, Eq)]
pub struct Subscription {
    pub publisher: Address,
    pub topic: String,
    pub last_received_seq: u64,
    pub parent: Address,
    pub forward_to: Vec<Address>,
}

/// View of a [`Subscription`].
pub struct SubscriptionView {
    pub publisher: AddressView,
    pub topic: Seq<char>,
    pub last_received_seq: u64,
    pub parent: AddressView,
    pub forward_to: Seq<AddressView>,
}

impl View for Subscription {
    type V = SubscriptionView;

    open spec fn view(&self) -> SubscriptionView {
        SubscriptionView {
            publisher: self.publisher@,
            topic: self.topic@,
            last_received_seq: self.last_received_seq,
            parent: self.parent@,
            forward_to: self.forward_to.deep_view(),
        }
    }
}

/// The addresses without repetitions: of equal addresses the first stays.
pub open spec fn unique(addresses: Seq<AddressView>) -> Seq<AddressView>
    decreases addresses.len(),
{
    if addresses.len() == 0 {
        Seq::empty()
    } else {
        let before = unique(addresses.drop_last());
        if before.contains(addresses.last()) {
            before
        } else {
            before.push(addresses.last())
        }
    }
}

/// The addresses that a list of texts stands for, or the error of the first
/// text that is no address.
pub open spec fn parse_all(texts: Seq<Seq<char>>) -> Result<Seq<AddressView>, AddressParseError>
    decreases texts.len(),
{
    if texts.len() == 0 {
        Ok(Seq::empty())
    } else {
        match parse_all(texts.drop_last()) {
            Err(e) => Err(e),
            Ok(addresses) => match address_from_str(texts.last()) {
                Ok(a) => Ok(addresses.push(a)),
                Err(e) => Err(e),
            },
        }
    }
}

/// The effect that passes a message on, payload untouched.
pub open spec fn forward_effect(to: AddressView, message: SequencedView) -> EffectView {
    EffectView::Send {
        target: to,
        request: PubSubRequestView::Publish(message),
        payload: PayloadView::Inherit,
        grant: None,
    }
}

/// [`forward_effect`] as a function of the address.
pub open spec fn forward_fn(message: SequencedView) -> spec_fn(AddressView) -> EffectView {
    |to: AddressView| forward_effect(to, message)
}

/// The effect that confirms a message to the publisher.
pub open spec fn ack_effect(publisher: AddressView, message: SequencedView) -> EffectView {
    EffectView::Send {
        target: publisher,
        request: PubSubRequestView::Acknowledge(message),
        payload: PayloadView::Empty,
        grant: None,
    }
}

/// The effect that asks the publisher for the stream and waits for the
/// answer.
pub open spec fn subscribe_call(
    publisher: AddressView,
    request: SubscribeRequestView,
    grant: Option<Seq<u8>>,
) -> EffectView {
    EffectView::Call {
        target: publisher,
        request: PubSubRequestView::Subscribe(request),
        grant,
        timeout: SUBSCRIBE_TIMEOUT,
    }
}

/// The state of a subscriber, as contracts see it.
pub struct SubscriberView {
    pub subscription: SubscriptionView,
    pub grant: Option<Seq<u8>>,
    pub terminated: bool,
}

impl SubscriberView {
    /// No address is forwarded to twice.
    pub open spec fn wf(self) -> bool {
        self.subscription.forward_to.no_duplicates()
    }

    /// A message of the publisher: the state after it, and the effects. A
    /// message of the subscribed topic moves the progress mark up to its
    /// sequence number, never down; it is passed on to the parent and to
    /// every further address, once each, and then confirmed to the
    /// publisher. A message of another topic is dropped.
    pub open spec fn relay(self, message: SequencedView) -> (SubscriberView, Seq<EffectView>) {
        if message.topic == self.subscription.topic {
            (
                SubscriberView {
                    subscription: SubscriptionView {
                        last_received_seq: if message.sequence
                            > self.subscription.last_received_seq {
                            message.sequence
                        } else {
                            self.subscription.last_received_seq
                        },
                        ..self.subscription
                    },
                    ..self
                },
                seq![forward_effect(self.subscription.parent, message)]
                    + self.subscription.forward_to.map_values(forward_fn(message)) + seq![
                    ack_effect(self.subscription.publisher, message),
                ],
            )
        } else {
            (self, Seq::empty())
        }
    }

    /// An unsubscribe request: the state after it, and the effects. Only the
    /// parent is heard: its request goes on to the publisher, the persisted
    /// state is removed and the subscriber stops for good.
    pub open spec fn unsubscribe(self, source: AddressView, topic: Seq<char>) -> (
        SubscriberView,
        Seq<EffectView>,
    ) {
        if source == self.subscription.parent {
            (
                SubscriberView { terminated: true, ..self },
                seq![
                    EffectView::Send {
                        target: self.subscription.publisher,
                        request: PubSubRequestView::Unsubscribe(topic),
                        payload: PayloadView::Empty,
                        grant: None,
                    },
                    EffectView::ClearState,
                    EffectView::Exit,
                ],
            )
        } else {
            (self, Seq::empty())
        }
    }

    /// A subscribe request while subscribed: the effects. Only the parent is
    /// heard: its request goes on to the publisher with the grant of the
    /// subscriber, and the answer is waited for.
    pub open spec fn resubscribe(self, source: AddressView, request: SubscribeRequestView) -> Seq<
        EffectView,
    > {
        if source == self.subscription.parent {
            seq![subscribe_call(self.subscription.publisher, request, self.grant)]
        } else {
            Seq::empty()
        }
    }

    /// A request: the state after it, and the effects. A subscriber that has
    /// stopped handles nothing. Requests that are not for a subscriber are
    /// dropped.
    pub open spec fn handle_request(self, request: PubSubRequestView, source: AddressView) -> (
        SubscriberView,
        Seq<EffectView>,
    ) {
        if self.terminated {
            (self, Seq::empty())
        } else {
            match request {
                PubSubRequestView::Publish(m) => self.relay(m),
                PubSubRequestView::Unsubscribe(topic) => self.unsubscribe(source, topic),
                PubSubRequestView::Subscribe(r) => (self, self.resubscribe(source, r)),
                _ => (self, Seq::empty()),
            }
        }
    }

    /// A message: the state after it, and the effects or the error. Timer
    /// ticks and responses are dropped. A body that could not be decoded is
    /// an error and leaves the state as it is.
    pub open spec fn handle_message(self, message: InboundView) -> (
        SubscriberView,
        Result<Seq<EffectView>, EngineError>,
    ) {
        if self.terminated || message.source == crate::effects::timer_address() {
            (self, Ok(Seq::empty()))
        } else {
            match message.body {
                InboundBodyView::Request(request) => (
                    self.handle_request(request, message.source).0,
                    Ok(self.handle_request(request, message.source).1),
                ),
                InboundBodyView::Response(_) => (self, Ok(Seq::empty())),
                InboundBodyView::Malformed => (self, Err(EngineError::MalformedMessage)),
            }
        }
    }
}

/// How a request that was waited on ended.
#[derive(Debug, Clone, PartialEq, Eq)]
pub enum CallOutcome {
    /// The publisher answered.
    Answered(SubscribeResponse),
    /// An answer came that could not be decoded.
    Undecodable,
    /// No answer came in time, or the request could not be delivered.
    Failed,
}

/// View of a [`CallOutcome`].
pub enum CallOutcomeView {
    Answered(OutcomeView),
    Undecodable,
    Failed,
}

impl View for CallOutcome {
    type V = CallOutcomeView;

    open spec fn view(&self) -> CallOutcomeView {
        match self {
            CallOutcome::Answered(response) => CallOutcomeView::Answered(response@),
            CallOutcome::Undecodable => CallOutcomeView::Undecodable,
            CallOutcome::Failed => CallOutcomeView::Failed,
        }
    }
}

/// What a resubscription came to.
pub open spec fn resubscribe_result(outcome: CallOutcomeView) -> Result<(), EngineError> {
    match outcome {
        CallOutcomeView::Answered(response) => if response.success {
            Ok(())
        } else {
            Err(EngineError::SubscriptionRefused)
        },
        CallOutcomeView::Undecodable => Err(EngineError::MalformedMessage),
        CallOutcomeView::Failed => Err(EngineError::CallFailed),
    }
}

/// A subscriber that has asked its publisher for the stream and waits for
/// the answer.
#[derive(Debug, Clone, PartialEq, Eq)]
pub struct PendingInit {
    pub subscription: Subscription,
    pub from_sequence: Option<u64>,
    pub grant: AccessGrant,
}

/// View of a [`PendingInit`].
pub struct PendingInitView {
    pub subscription: SubscriptionView,
    pub from_sequence: Option<u64>,
    pub grant: Seq<u8>,
}

impl View for PendingInit {
    type V = PendingInitView;

    open spec fn view(&self) -> PendingInitView {
        PendingInitView {
            subscription: self.subscription@,
            from_sequence: self.from_sequence,
            grant: self.grant@,
        }
    }
}

/// The sequence number that a subscription starts from.
pub open spec fn starting_point(from_sequence: Option<u64>) -> u64 {
    match from_sequence {
        Some(s) => s,
        None => 0,
    }
}

/// The waiting subscriber that parsed addresses make, and the call to the
/// publisher.
pub open spec fn assembled(
    topic: Seq<char>,
    parent: AddressView,
    publisher: AddressView,
    forward_to: Seq<AddressView>,
    from_sequence: Option<u64>,
    grant: Seq<u8>,
) -> (PendingInitView, Seq<EffectView>) {
    (
        PendingInitView {
            subscription: SubscriptionView {
                publisher,
                topic,
                last_received_seq: starting_point(from_sequence),
                parent,
                forward_to: unique(forward_to),
            },
            from_sequence,
            grant,
        },
        seq![
            subscribe_call(
                publisher,
                SubscribeRequestView { topic, from_sequence },
                Some(grant),
            ),
        ],
    )
}

/// What the request that creates a subscriber leads to: the addresses in it
/// are parsed, parent first, then publisher, then the further addresses in
/// their order, and the first that is no address is the error; without a
/// grant there is no subscription either.
pub open spec fn init_plan(request: InitSubRequestView, grant: Option<Seq<u8>>) -> Result<
    (PendingInitView, Seq<EffectView>),
    InitError,
> {
    match address_from_str(request.parent) {
        Err(e) => Err(InitError::InvalidAddress(e)),
        Ok(parent) => match address_from_str(request.publisher) {
            Err(e) => Err(InitError::InvalidAddress(e)),
            Ok(publisher) => match parse_all(request.forward_to) {
                Err(e) => Err(InitError::InvalidAddress(e)),
                Ok(forward_to) => match grant {
                    None => Err(InitError::MissingGrant),
                    Some(g) => Ok(
                        assembled(
                            request.topic,
                            parent,
                            publisher,
                            forward_to,
                            request.from_sequence,
                            g,
                        ),
                    ),
                },
            },
        },
    }
}

/// What the first message of a subscriber leads to.
pub open spec fn init_from_message(first: Option<InboundView>, grant: Option<Seq<u8>>) -> Result<
    (PendingInitView, Seq<EffectView>),
    InitError,
> {
    match first {
        None => Err(InitError::NoMessage),
        Some(message) => match message.body {
            InboundBodyView::Request(PubSubRequestView::InitSub(request)) => init_plan(
                request,
                grant,
            ),
            _ => Err(InitError::MalformedRequest),
        },
    }
}

/// What the answer of the publisher makes of a waiting subscriber: the
/// subscriber or the error, and the effects. An answer is passed on to the
/// parent whatever it says. A subscription that was granted is persisted;
/// its topic is the one in the answer. Everything else ends the subscriber
/// for good.
pub open spec fn init_result(pending: PendingInitView, outcome: CallOutcomeView) -> (
    Result<SubscriberView, InitError>,
    Seq<EffectView>,
) {
    match outcome {
        CallOutcomeView::Answered(response) => if response.success {
            (
                Ok(
                    SubscriberView {
                        subscription: SubscriptionView {
                            topic: response.topic,
                            ..pending.subscription
                        },
                        grant: Some(pending.grant),
                        terminated: false,
                    },
                ),
                seq![
                    EffectView::Respond(PubSubResponseView::Subscribe(response)),
                    EffectView::SaveState,
                ],
            )
        } else {
            (
                Err(InitError::Refused),
                seq![
                    EffectView::Respond(PubSubResponseView::Subscribe(response)),
                    EffectView::Exit,
                ],
            )
        },
        CallOutcomeView::Undecodable => (Err(InitError::MalformedResponse), seq![EffectView::Exit]),
        CallOutcomeView::Failed => (Err(InitError::CallFailed), seq![EffectView::Exit]),
    }
}

/// The view of the outcome of a start.
pub open spec fn pending_result_view(r: Result<(PendingInit, Vec<Effect>), InitError>) -> Result<
    (PendingInitView, Seq<EffectView>),
    InitError,
> {
    match r {
        Ok((pending, effects)) => Ok((pending@, effects.deep_view())),
        Err(e) => Err(e),
    }
}

/// The view of a subscriber or an error.
pub open spec fn state_result_view(r: Result<SubscriberState, InitError>) -> Result<
    SubscriberView,
    InitError,
> {
    match r {
        Ok(state) => Ok(state@),
        Err(e) => Err(e),
    }
}

/// The subscriber of one subscription.
#[derive(Debug)]
pub struct SubscriberState {
    subscription: Subscription,
    grant: Option<AccessGrant>,
    terminated: bool,
}

impl View for SubscriberState {
    type V = SubscriberView;

    closed spec fn view(&self) -> SubscriberView {
        SubscriberView {
            subscription: self.subscription@,
            grant: grant_view(self.grant),
            terminated: self.terminated,
        }
    }
}

/// Whether an address is among the addresses.
fn contains_address(addresses: &Vec<Address>, a: &Address) -> (r: bool)
    ensures
        r == addresses.deep_view().contains(a@),
{
    let ghost views = addresses.deep_view();
    let n = addresses.len();
    let mut i: usize = 0;
    while i < n
        invariant
            i <= n,
            n == addresses@.len(),
            views == addresses.deep_view(),
            forall|k: int| 0 <= k < i ==> views[k] != a@,
        decreases n - i,
    {
        if addresses[i] == *a {
            proof {
                assert(views[i as int] == a@);
            }
            return true;
        }
        i += 1;
    }
    false
}

/// What [`unique`] yields has no repetitions and holds exactly the elements
/// that went in.
pub proof fn lemma_unique(addresses: Seq<AddressView>)
    ensures
        unique(addresses).no_duplicates(),
        forall|a: AddressView| #[trigger] unique(addresses).contains(a) <==> addresses.contains(a),
    decreases addresses.len(),
{
    if addresses.len() > 0 {
        let shorter = addresses.drop_last();
        let last = addresses.last();
        lemma_unique(shorter);
        let before = unique(shorter);
        let after = unique(addresses);
        assert forall|a: AddressView| #[trigger] after.contains(a) <==> addresses.contains(a) by {
            if after.contains(a) {
                let i = choose|i: int| 0 <= i < after.len() && after[i] == a;
                if i < before.len() {
                    assert(before[i] == a);
                    assert(before.contains(a));
                    let j = choose|j: int| 0 <= j < shorter.len() && shorter[j] == a;
                    assert(addresses[j] == a);
                } else {
                    assert(addresses[addresses.len() - 1] == a);
                }
            }
            if addresses.contains(a) {
                let j = choose|j: int| 0 <= j < addresses.len() && addresses[j] == a;
                if j < shorter.len() {
                    assert(shorter[j] == a);
                    assert(before.contains(a));
                    let i = choose|i: int| 0 <= i < before.len() && before[i] == a;
                    assert(after[i] == a);
                } else if before.contains(last) {
                } else {
                    assert(after[after.len() - 1] == a);
                }
            }
        }
    }
}

/// The addresses without repetitions.
fn without_repetitions(addresses: Vec<Address>) -> (r: Vec<Address>)
    ensures
        r.deep_view() == unique(addresses.deep_view()),
        r.deep_view().no_duplicates(),
{
    let ghost all = addresses.deep_view();
    let mut out: Vec<Address> = Vec::new();
    let n = addresses.len();
    let mut i: usize = 0;
    proof {
        assert(all.take(0) =~= Seq::<AddressView>::empty());
        assert(out.deep_view() =~= unique(all.take(0)));
    }
    while i < n
        invariant
            i <= n,
            n == addresses@.len(),
            all == addresses.deep_view(),
            out.deep_view() == unique(all.take(i as int)),
        decreases n - i,
    {
        let ghost before = out.deep_view();
        proof {
            assert(all.take(i as int + 1).drop_last() =~= all.take(i as int));
            assert(all.take(i as int + 1).last() == addresses@[i as int]@);
        }
        if !contains_address(&out, &addresses[i]) {
            out.push(addresses[i].clone());
            proof {
                assert(out.deep_view() =~= before.push(addresses@[i as int]@));
            }
        }
        i += 1;
    }
    proof {
        assert(all.take(n as int) =~= all);
        lemma_unique(all);
    }
    out
}

/// Parses a list of addresses in text form.
fn parse_addresses(texts: &Vec<String>) -> (r: Result<Vec<Address>, AddressParseError>)
    ensures
        match r {
            Ok(addresses) => parse_all(texts.deep_view()) == Ok::<
                Seq<AddressView>,
                AddressParseError,
            >(addresses.deep_view()),
            Err(e) => parse_all(texts.deep_view()) == Err::<Seq<AddressView>, AddressParseError>(
                e,
            ),
        },
{
    let ghost all = texts.deep_view();
    let mut out: Vec<Address> = Vec::new();
    let n = texts.len();
    let mut i: usize = 0;
    proof {
        assert(all.take(0) =~= Seq::<Seq<char>>::empty());
        assert(out.deep_view() =~= Seq::<AddressView>::empty());
    }
    while i < n
        invariant
            i <= n,
            n == texts@.len(),
            all == texts.deep_view(),
            parse_all(all.take(i as int)) == Ok::<Seq<AddressView>, AddressParseError>(
                out.deep_view(),
            ),
        decreases n - i,
    {
        let ghost before = out.deep_view();
        proof {
            assert(all.take(i as int + 1).drop_last() =~= all.take(i as int));
            assert(all.take(i as int + 1).last() == texts@[i as int]@);
        }
        match Address::from_str(texts[i].as_str()) {
            Ok(a) => {
                out.push(a);
                proof {
                    assert(out.deep_view() =~= before.push(a@));
                }
            },
            Err(e) => {
                proof {
                    lemma_parse_error_stays(all, i as int + 1);
                }
                return Err(e);
            },
        }
        i += 1;
    }
    proof {
        assert(all.take(n as int) =~= all);
    }
    Ok(out)
}

/// An error among the first texts is the error of the whole list.
pub proof fn lemma_parse_error_stays(texts: Seq<Seq<char>>, n: int)
    requires
        0 <= n <= texts.len(),
        parse_all(texts.take(n)) is Err,
    ensures
        parse_all(texts) == parse_all(texts.take(n)),
    decreases texts.len() - n,
{
    if n < texts.len() {
        assert(texts.take(n + 1).drop_last() =~= texts.take(n));
        lemma_parse_error_stays(texts, n + 1);
    } else {
        assert(texts.take(n) =~= texts);
    }
}

/// The sends that pass a message on to a list of addresses.
fn forward_to_all(addresses: &Vec<Address>, message: &PublishMessage) -> (r: Vec<Effect>)
    ensures
        r.deep_view() == addresses.deep_view().map_values(forward_fn(message@)),
{
    let mut effects: Vec<Effect> = Vec::new();
    let n = addresses.len();
    let mut i: usize = 0;
    while i < n
        invariant
            i <= n,
            n == addresses@.len(),
            effects@.len() == i,
            forall|k: int|
                0 <= k < i ==> (#[trigger] effects@[k])@ == forward_effect(
                    addresses@[k]@,
                    message@,
                ),
        decreases n - i,
    {
        effects.push(forward_one(&addresses[i], message));
        i += 1;
    }
    effects
}

/// The send that passes a message on to one address.
fn forward_one(to: &Address, message: &PublishMessage) -> (r: Effect)
    ensures
        r@ == forward_effect(to@, message@),
{
    Effect::Send {
        target: to.clone(),
        request: PubSubRequest::Publish(
            PublishMessage { topic: message.topic.clone(), sequence: message.sequence },
        ),
        payload: Payload::Inherit,
        grant: None,
    }
}

impl PendingInit {
    /// A waiting subscriber from parsed addresses, and the call that asks
    /// the publisher for the stream. Repeated further addresses are dropped.
    pub fn assemble(
        topic: String,
        parent: Address,
        publisher: Address,
        forward_to: Vec<Address>,
        from_sequence: Option<u64>,
        grant: AccessGrant,
    ) -> (r: (PendingInit, Vec<Effect>))
        ensures
            (r.0@, r.1.deep_view()) == assembled(
                topic@,
                parent@,
                publisher@,
                forward_to.deep_view(),
                from_sequence,
                grant@,
            ),
            r.0@.subscription.forward_to.no_duplicates(),
    {
        let forward_to = without_repetitions(forward_to);
        let mut effects: Vec<Effect> = Vec::new();
        effects.push(
            Effect::Call {
                target: publisher.clone(),
                request: PubSubRequest::Subscribe(
                    SubscribeRequest { topic: topic.clone(), from_sequence },
                ),
                grant: Some(grant.duplicate()),
                timeout: SUBSCRIBE_TIMEOUT,
            },
        );
        let last_received_seq = match from_sequence {
            Some(s) => s,
            None => 0,
        };
        let pending = PendingInit {
            subscription: Subscription { publisher, topic, last_received_seq, parent, forward_to },
            from_sequence,
            grant,
        };
        proof {
            assert(effects.deep_view() =~= seq![
                subscribe_call(
                    pending@.subscription.publisher,
                    SubscribeRequestView { topic: pending@.subscription.topic, from_sequence },
                    Some(pending@.grant),
                ),
            ]);
        }
        (pending, effects)
    }
}

impl SubscriberState {
    /// A subscriber of a subscription that stands. Repeated further
    /// addresses are dropped.
    pub fn new(sub: Subscription, grant: Option<AccessGrant>) -> (r: SubscriberState)
        ensures
            r@ == (SubscriberView {
                subscription: SubscriptionView {
                    forward_to: unique(sub@.forward_to),
                    ..sub@
                },
                grant: grant_view(grant),
                terminated: false,
            }),
            r@.wf(),
    {
        let Subscription { publisher, topic, last_received_seq, parent, forward_to } = sub;
        SubscriberState {
            subscription: Subscription {
                publisher,
                topic,
                last_received_seq,
                parent,
                forward_to: without_repetitions(forward_to),
            },
            grant,
            terminated: false,
        }
    }

    /// The subscription.
    pub fn subscription(&self) -> (r: &Subscription)
        ensures
            r@ == self@.subscription,
    {
        &self.subscription
    }

    /// The grant that the subscriber attaches to its subscribe requests.
    pub fn grant(&self) -> (r: &Option<AccessGrant>)
        ensures
            grant_view(*r) == self@.grant,
    {
        &self.grant
    }

    /// Whether the subscriber has stopped for good.
    pub fn is_terminated(&self) -> (r: bool)
        ensures
            r == self@.terminated,
    {
        self.terminated
    }

    /// The effect that persists the subscriber.
    pub fn save(&self) -> (effects: Vec<Effect>)
        ensures
            effects.deep_view() == seq![EffectView::SaveState],
    {
        let mut effects: Vec<Effect> = Vec::new();
        effects.push(Effect::SaveState);
        proof {
            assert(effects.deep_view() =~= seq![EffectView::SaveState]);
        }
        effects
    }

    /// The effect that removes the persisted subscriber.
    pub fn clear(&self) -> (effects: Vec<Effect>)
        ensures
            effects.deep_view() == seq![EffectView::ClearState],
    {
        let mut effects: Vec<Effect> = Vec::new();
        effects.push(Effect::ClearState);
        proof {
            assert(effects.deep_view() =~= seq![EffectView::ClearState]);
        }
        effects
    }

    /// Starts the handshake of a new subscriber from the request that
    /// creates it and the grant that the host obtained for it.
    pub fn begin_init(request: InitSubRequest, grant: Option<AccessGrant>) -> (r: Result<
        (PendingInit, Vec<Effect>),
        InitError,
    >)
        ensures
            pending_result_view(r) == init_plan(request@, grant_view(grant)),
            r matches Ok((pending, _)) ==> pending@.subscription.forward_to.no_duplicates(),
    {
        let parent = match Address::from_str(request.parent.as_str()) {
            Ok(a) => a,
            Err(e) => {
                return Err(InitError::InvalidAddress(e));
            },
        };
        let publisher = match Address::from_str(request.publisher.as_str()) {
            Ok(a) => a,
            Err(e) => {
                return Err(InitError::InvalidAddress(e));
            },
        };
        let forward_to = match parse_addresses(&request.forward_to) {
            Ok(addresses) => addresses,
            Err(e) => {
                return Err(InitError::InvalidAddress(e));
            },
        };
        match grant {
            None => Err(InitError::MissingGrant),
            Some(g) => Ok(
                PendingInit::assemble(
                    request.topic,
                    parent,
                    publisher,
                    forward_to,
                    request.from_sequence,
                    g,
                ),
            ),
        }
    }

    /// Starts the handshake from the first message that arrived.
    pub fn process_init_message(first: Option<Inbound>, grant: Option<AccessGrant>) -> (r: Result<
        (PendingInit, Vec<Effect>),
        InitError,
    >)
        ensures
            pending_result_view(r) == init_from_message(first_view(first), grant_view(grant)),
            r matches Ok((pending, _)) ==> pending@.subscription.forward_to.no_duplicates(),
    {
        match first {
            None => Err(InitError::NoMessage),
            Some(message) => match message.body {
                InboundBody::Request(PubSubRequest::InitSub(request)) => SubscriberState::begin_init(
                    request,
                    grant,
                ),
                _ => Err(InitError::MalformedRequest),
            },
        }
    }

    /// Ends the handshake with the outcome of the call to the publisher.
    pub fn complete_init(pending: PendingInit, outcome: CallOutcome) -> (r: (
        Result<SubscriberState, InitError>,
        Vec<Effect>,
    ))
        requires
            pending@.subscription.forward_to.no_duplicates(),
        ensures
            (state_result_view(r.0), r.1.deep_view()) == init_result(pending@, outcome@),
            r.0 matches Ok(state) ==> state@.wf(),
    {
        let mut effects: Vec<Effect> = Vec::new();
        match outcome {
            CallOutcome::Answered(response) => {
                let ghost response_view = response@;
                let success = response.success;
                let topic = response.topic.clone();
                effects.push(Effect::Respond(PubSubResponse::Subscribe(response)));
                if success {
                    effects.push(Effect::SaveState);
                    let PendingInit { subscription, from_sequence: _, grant } = pending;
                    let Subscription {
                        publisher,
                        topic: _,
                        last_received_seq,
                        parent,
                        forward_to,
                    } = subscription;
                    let state = SubscriberState {
                        subscription: Subscription {
                            publisher,
                            topic,
                            last_received_seq,
                            parent,
                            forward_to,
                        },
                        grant: Some(grant),
                        terminated: false,
                    };
                    proof {
                        assert(effects.deep_view() =~= seq![
                            EffectView::Respond(PubSubResponseView::Subscribe(response_view)),
                            EffectView::SaveState,
                        ]);
                    }
                    (Ok(state), effects)
                } else {
                    effects.push(Effect::Exit);
                    proof {
                        assert(effects.deep_view() =~= seq![
                            EffectView::Respond(PubSubResponseView::Subscribe(response_view)),
                            EffectView::Exit,
                        ]);
                    }
                    (Err(InitError::Refused), effects)
                }
            },
            CallOutcome::Undecodable => {
                effects.push(Effect::Exit);
                proof {
                    assert(effects.deep_view() =~= seq![EffectView::Exit]);
                }
                (Err(InitError::MalformedResponse), effects)
            },
            CallOutcome::Failed => {
                effects.push(Effect::Exit);
                proof {
                    assert(effects.deep_view() =~= seq![EffectView::Exit]);
                }
                (Err(InitError::CallFailed), effects)
            },
        }
    }

    /// Starts a subscriber: from the snapshot of an earlier run where there
    /// is one, else the handshake starts from the first message that
    /// arrived.
    pub fn load(
        snapshot: Option<SubscriberState>,
        first: Option<Inbound>,
        grant: Option<AccessGrant>,
    ) -> (r: Result<Startup, InitError>)
        requires
            snapshot matches Some(s) ==> s@.wf(),
        ensures
            match r {
                Ok(Startup::Restored(state)) => snapshot matches Some(s) && state@ == s@
                    && state@.wf(),
                Ok(Startup::Subscribing(pending, effects)) => snapshot is None
                    && init_from_message(first_view(first), grant_view(grant)) == Ok::<
                    (PendingInitView, Seq<EffectView>),
                    InitError,
                >((pending@, effects.deep_view()))
                    && pending@.subscription.forward_to.no_duplicates(),
                Err(e) => snapshot is None && init_from_message(
                    first_view(first),
                    grant_view(grant),
                ) == Err::<(PendingInitView, Seq<EffectView>), InitError>(e),
            },
    {
        match snapshot {
            Some(state) => Ok(Startup::Restored(state)),
            None => match SubscriberState::process_init_message(first, grant) {
                Ok((pending, effects)) => Ok(Startup::Subscribing(pending, effects)),
                Err(e) => Err(e),
            },
        }
    }

    /// Handles a message of the publisher.
    pub fn handle_publish(&mut self, message: PublishMessage) -> (effects: Vec<Effect>)
        requires
            old(self)@.wf(),
        ensures
            final(self)@ == old(self)@.relay(message@).0,
            effects.deep_view() == old(self)@.relay(message@).1,
            final(self)@.wf(),
    {
        let mut effects: Vec<Effect> = Vec::new();
        if message.topic == self.subscription.topic {
            if message.sequence > self.subscription.last_received_seq {
                self.subscription.last_received_seq = message.sequence;
            }
            effects.push(forward_one(&self.subscription.parent, &message));
            let ghost first = effects.deep_view();
            let mut forwards = forward_to_all(&self.subscription.forward_to, &message);
            let ghost forwards_view = forwards.deep_view();
            effects.append(&mut forwards);
            let ghost before_ack = effects.deep_view();
            let ghost message_view = message@;
            effects.push(
                Effect::Send {
                    target: self.subscription.publisher.clone(),
                    request: PubSubRequest::Acknowledge(
                        Ack { topic: message.topic, sequence: message.sequence },
                    ),
                    payload: Payload::Empty,
                    grant: None,
                },
            );
            proof {
                assert(first =~= seq![forward_effect(self@.subscription.parent, message_view)]);
                assert(before_ack =~= first + forwards_view);
                assert(effects.deep_view() =~= before_ack + seq![
                    ack_effect(self@.subscription.publisher, message_view),
                ]);
            }
        } else {
            proof {
                assert(effects.deep_view() =~= Seq::<EffectView>::empty());
            }
        }
        effects
    }

    /// Handles an unsubscribe request from `source`.
    pub fn handle_unsubscribe(&mut self, source: &Address, request: UnsubscribeRequest) -> (effects:
        Vec<Effect>)
        requires
            old(self)@.wf(),
        ensures
            final(self)@ == old(self)@.unsubscribe(source@, request@).0,
            effects.deep_view() == old(self)@.unsubscribe(source@, request@).1,
            final(self)@.wf(),
    {
        let mut effects: Vec<Effect> = Vec::new();
        if *source == self.subscription.parent {
            let ghost topic = request@;
            effects.push(
                Effect::Send {
                    target: self.subscription.publisher.clone(),
                    request: PubSubRequest::Unsubscribe(request),
                    payload: Payload::Empty,
                    grant: None,
                },
            );
            effects.push(Effect::ClearState);
            effects.push(Effect::Exit);
            self.terminated = true;
            proof {
                assert(effects.deep_view() =~= seq![
                    EffectView::Send {
                        target: self@.subscription.publisher,
                        request: PubSubRequestView::Unsubscribe(topic),
                        payload: PayloadView::Empty,
                        grant: None,
                    },
                    EffectView::ClearState,
                    EffectView::Exit,
                ]);
            }
        } else {
            proof {
                assert(effects.deep_view() =~= Seq::<EffectView>::empty());
            }
        }
        effects
    }

    /// Handles a subscribe request from `source` while subscribed.
    pub fn handle_resubscribe(&self, source: &Address, request: SubscribeRequest) -> (effects: Vec<
        Effect,
    >)
        ensures
            effects.deep_view() == self@.resubscribe(source@, request@),
    {
        let mut effects: Vec<Effect> = Vec::new();
        if *source == self.subscription.parent {
            let ghost request_view = request@;
            effects.push(
                Effect::Call {
                    target: self.subscription.publisher.clone(),
                    request: PubSubRequest::Subscribe(request),
                    grant: duplicate_grant(&self.grant),
                    timeout: SUBSCRIBE_TIMEOUT,
                },
            );
            proof {
                assert(effects.deep_view() =~= seq![
                    subscribe_call(self@.subscription.publisher, request_view, self@.grant),
                ]);
            }
        } else {
            proof {
                assert(effects.deep_view() =~= Seq::<EffectView>::empty());
            }
        }
        effects
    }

    /// What the answer to a resubscription comes to. A failure concerns that
    /// request only: the subscriber goes on as it was.
    pub fn resubscribe_outcome(&self, outcome: &CallOutcome) -> (r: Result<(), EngineError>)
        ensures
            r == resubscribe_result(outcome@),
    {
        match outcome {
            CallOutcome::Answered(response) => if response.success {
                Ok(())
            } else {
                Err(EngineError::SubscriptionRefused)
            },
            CallOutcome::Undecodable => Err(EngineError::MalformedMessage),
            CallOutcome::Failed => Err(EngineError::CallFailed),
        }
    }

    /// Handles one request from `source`.
    pub fn handle_request(&mut self, request: PubSubRequest, source: &Address) -> (effects: Vec<
        Effect,
    >)
        requires
            old(self)@.wf(),
        ensures
            final(self)@ == old(self)@.handle_request(request@, source@).0,
            effects.deep_view() == old(self)@.handle_request(request@, source@).1,
            final(self)@.wf(),
    {
        if self.terminated {
            let effects: Vec<Effect> = Vec::new();
            proof {
                assert(effects.deep_view() =~= Seq::<EffectView>::empty());
            }
            return effects;
        }
        match request {
            PubSubRequest::Publish(m) => self.handle_publish(m),
            PubSubRequest::Unsubscribe(r) => self.handle_unsubscribe(source, r),
            PubSubRequest::Subscribe(r) => self.handle_resubscribe(source, r),
            _ => {
                let effects: Vec<Effect> = Vec::new();
                proof {
                    assert(effects.deep_view() =~= Seq::<EffectView>::empty());
                }
                effects
            },
        }
    }

    /// Handles one message.
    pub fn handle_message(&mut self, message: Inbound) -> (r: Result<Vec<Effect>, EngineError>)
        requires
            old(self)@.wf(),
        ensures
            final(self)@ == old(self)@.handle_message(message@).0,
            crate::effects::outcome_view(r) == old(self)@.handle_message(message@).1,
            final(self)@.wf(),
    {
        if self.terminated || is_timer(&message.source) {
            let effects: Vec<Effect> = Vec::new();
            proof {
                assert(effects.deep_view() =~= Seq::<EffectView>::empty());
            }
            return Ok(effects);
        }
        match message.body {
            InboundBody::Request(request) => Ok(self.handle_request(request, &message.source)),
            InboundBody::Response(_) => {
                let effects: Vec<Effect> = Vec::new();
                proof {
                    assert(effects.deep_view() =~= Seq::<EffectView>::empty());
                }
                Ok(effects)
            },
            InboundBody::Malformed => Err(EngineError::MalformedMessage),
        }
    }
}

/// How a subscriber starts.
#[derive(Debug)]
pub enum Startup {
    /// It goes on from the snapshot of an earlier run.
    Restored(SubscriberState),
    /// It has to subscribe first: the effects hold the call to the
    /// publisher, whose outcome goes to [`SubscriberState::complete_init`].
    Subscribing(PendingInit, Vec<Effect>),
}

} // verus!
