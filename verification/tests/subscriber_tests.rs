use kinode_pubsub::address::{Address, AddressParseError, ProcessId};
use kinode_pubsub::effects::{Effect, Inbound, InboundBody, Payload};
use kinode_pubsub::messages::{
    AccessGrant, Ack, Heartbeat, InitSubRequest, PubSubRequest, PubSubResponse, PublishMessage,
    SubscribeRequest, SubscribeResponse, UnsubscribeRequest,
};
use kinode_pubsub::publisher::{EngineError, InitError};
use kinode_pubsub::subscriber::{
    CallOutcome, PendingInit, Startup, SubscriberState, Subscription, SUBSCRIBE_TIMEOUT,
};

fn address(node: &str, process: &str) -> Address {
    Address::new(node, ProcessId::new(process, "pubsub", "template.os"))
}

fn parent() -> Address {
    address("our.os", "app")
}

fn publisher() -> Address {
    address("pub.os", "pub-t")
}

fn grant() -> AccessGrant {
    AccessGrant { token: vec![9, 9] }
}

fn subscriber(forward_to: Vec<Address>, last: u64) -> SubscriberState {
    SubscriberState::new(
        Subscription {
            publisher: publisher(),
            topic: "t".to_string(),
            last_received_seq: last,
            parent: parent(),
            forward_to,
        },
        Some(grant()),
    )
}

fn message(topic: &str, sequence: u64) -> PublishMessage {
    PublishMessage { topic: topic.to_string(), sequence }
}

fn forward(to: &Address, sequence: u64) -> Effect {
    Effect::Send {
        target: to.clone(),
        request: PubSubRequest::Publish(message("t", sequence)),
        payload: Payload::Inherit,
        grant: None,
    }
}

fn ack(sequence: u64) -> Effect {
    Effect::Send {
        target: publisher(),
        request: PubSubRequest::Acknowledge(Ack { topic: "t".to_string(), sequence }),
        payload: Payload::Empty,
        grant: None,
    }
}

fn init_request(forward_to: Vec<&str>) -> InitSubRequest {
    InitSubRequest {
        topic: "t".to_string(),
        parent: "our.os@app:pubsub:template.os".to_string(),
        publisher: "pub.os@pub-t:pubsub:template.os".to_string(),
        forward_to: forward_to.into_iter().map(|s| s.to_string()).collect(),
        from_sequence: Some(4),
    }
}

#[test]
fn relay_forwards_once_each_and_confirms() {
    let x = address("x.os", "peer");
    let y = address("y.os", "peer");
    let mut state = subscriber(vec![x.clone(), y.clone()], 0);
    let effects = state.handle_publish(message("t", 5));
    assert_eq!(effects, vec![forward(&parent(), 5), forward(&x, 5), forward(&y, 5), ack(5)]);
    assert_eq!(state.subscription().last_received_seq, 5);
}

#[test]
fn relay_drops_other_topics() {
    let mut state = subscriber(vec![address("x.os", "peer")], 3);
    assert!(state.handle_publish(message("u", 9)).is_empty());
    assert_eq!(state.subscription().last_received_seq, 3);
}

#[test]
fn progress_never_falls() {
    let mut state = subscriber(Vec::new(), 0);
    state.handle_publish(message("t", 7));
    let effects = state.handle_publish(message("t", 4));
    assert_eq!(effects, vec![forward(&parent(), 4), ack(4)]);
    assert_eq!(state.subscription().last_received_seq, 7);
    state.handle_publish(message("t", 8));
    assert_eq!(state.subscription().last_received_seq, 8);
}

#[test]
fn repeated_forward_addresses_are_dropped() {
    let x = address("x.os", "peer");
    let y = address("y.os", "peer");
    let state = subscriber(vec![x.clone(), y.clone(), x.clone()], 0);
    assert_eq!(state.subscription().forward_to, vec![x, y]);
    assert_eq!(state.grant(), &Some(grant()));
    assert!(!state.is_terminated());
}

#[test]
fn unsubscribe_is_heard_from_the_parent_only() {
    let mut state = subscriber(Vec::new(), 0);
    let request = UnsubscribeRequest { topic: "t".to_string() };
    assert!(state.handle_unsubscribe(&address("evil.os", "app"), request.clone()).is_empty());
    assert!(!state.is_terminated());
    let effects = state.handle_unsubscribe(&parent(), request.clone());
    assert_eq!(
        effects,
        vec![
            Effect::Send {
                target: publisher(),
                request: PubSubRequest::Unsubscribe(request),
                payload: Payload::Empty,
                grant: None,
            },
            Effect::ClearState,
            Effect::Exit,
        ]
    );
    assert!(state.is_terminated());
    assert!(state
        .handle_request(PubSubRequest::Publish(message("t", 1)), &publisher())
        .is_empty());
    assert_eq!(state.subscription().last_received_seq, 0);
}

#[test]
fn resubscribe_calls_the_publisher_with_the_grant() {
    let state = subscriber(Vec::new(), 0);
    let request = SubscribeRequest { topic: "t".to_string(), from_sequence: Some(3) };
    assert!(state.handle_resubscribe(&publisher(), request.clone()).is_empty());
    assert_eq!(
        state.handle_resubscribe(&parent(), request.clone()),
        vec![Effect::Call {
            target: publisher(),
            request: PubSubRequest::Subscribe(request),
            grant: Some(grant()),
            timeout: 10,
        }]
    );
    assert_eq!(SUBSCRIBE_TIMEOUT, 10);
}

#[test]
fn resubscribe_outcomes() {
    let state = subscriber(Vec::new(), 0);
    let answer = |success| {
        CallOutcome::Answered(SubscribeResponse { success, topic: "t".to_string(), error: None })
    };
    assert_eq!(state.resubscribe_outcome(&answer(true)), Ok(()));
    assert_eq!(state.resubscribe_outcome(&answer(false)), Err(EngineError::SubscriptionRefused));
    assert_eq!(
        state.resubscribe_outcome(&CallOutcome::Undecodable),
        Err(EngineError::MalformedMessage)
    );
    assert_eq!(state.resubscribe_outcome(&CallOutcome::Failed), Err(EngineError::CallFailed));
}

#[test]
fn save_and_clear_are_effects() {
    let state = subscriber(Vec::new(), 0);
    assert_eq!(state.save(), vec![Effect::SaveState]);
    assert_eq!(state.clear(), vec![Effect::ClearState]);
}

#[test]
fn requests_and_messages_are_dispatched() {
    let mut state = subscriber(Vec::new(), 0);
    let effects = state.handle_request(PubSubRequest::Publish(message("t", 2)), &publisher());
    assert_eq!(effects, vec![forward(&parent(), 2), ack(2)]);
    assert!(state
        .handle_request(PubSubRequest::Heartbeat(Heartbeat { timestamp: 1 }), &parent())
        .is_empty());
    let inbound = |source: Address, body: InboundBody| Inbound {
        source,
        body,
        payload: Vec::new(),
        grant: None,
    };
    let timer = Address::new("our", ProcessId::new("timer", "distro", "sys"));
    assert!(state.handle_message(inbound(timer, InboundBody::Malformed)).unwrap().is_empty());
    assert_eq!(
        state.handle_message(inbound(publisher(), InboundBody::Malformed)),
        Err(EngineError::MalformedMessage)
    );
    let relayed = state
        .handle_message(inbound(
            publisher(),
            InboundBody::Request(PubSubRequest::Publish(message("t", 3))),
        ))
        .unwrap();
    assert_eq!(relayed, vec![forward(&parent(), 3), ack(3)]);
    let response = InboundBody::Response(PubSubResponse::Subscribe(SubscribeResponse {
        success: true,
        topic: "t".to_string(),
        error: None,
    }));
    assert!(state.handle_message(inbound(publisher(), response)).unwrap().is_empty());
}

#[test]
fn init_parses_addresses_and_calls_the_publisher() {
    let (pending, effects) = SubscriberState::begin_init(
        init_request(vec!["x.os@peer:pubsub:template.os", "x.os@peer:pubsub:template.os"]),
        Some(grant()),
    )
    .unwrap();
    assert_eq!(pending.subscription.parent, parent());
    assert_eq!(pending.subscription.publisher, publisher());
    assert_eq!(pending.subscription.forward_to, vec![address("x.os", "peer")]);
    assert_eq!(pending.subscription.last_received_seq, 4);
    assert_eq!(pending.from_sequence, Some(4));
    assert_eq!(
        effects,
        vec![Effect::Call {
            target: publisher(),
            request: PubSubRequest::Subscribe(SubscribeRequest {
                topic: "t".to_string(),
                from_sequence: Some(4),
            }),
            grant: Some(grant()),
            timeout: 10,
        }]
    );
}

#[test]
fn init_errors() {
    let mut bad_parent = init_request(Vec::new());
    bad_parent.parent = "nowhere".to_string();
    assert_eq!(
        SubscriberState::begin_init(bad_parent, Some(grant())).unwrap_err(),
        InitError::InvalidAddress(AddressParseError::MissingNodeId)
    );
    let mut bad_publisher = init_request(Vec::new());
    bad_publisher.publisher = "a@b:c".to_string();
    assert_eq!(
        SubscriberState::begin_init(bad_publisher, Some(grant())).unwrap_err(),
        InitError::InvalidAddress(AddressParseError::MissingField)
    );
    assert_eq!(
        SubscriberState::begin_init(
            init_request(vec!["x.os@peer:pubsub:template.os", "a@b@c:d:e", "bad"]),
            Some(grant())
        )
        .unwrap_err(),
        InitError::InvalidAddress(AddressParseError::TooManyAts)
    );
    assert_eq!(
        SubscriberState::begin_init(init_request(Vec::new()), None).unwrap_err(),
        InitError::MissingGrant
    );
    assert_eq!(
        SubscriberState::process_init_message(None, Some(grant())).unwrap_err(),
        InitError::NoMessage
    );
    let wrong = Inbound {
        source: parent(),
        body: InboundBody::Request(PubSubRequest::Kill),
        payload: Vec::new(),
        grant: None,
    };
    assert_eq!(
        SubscriberState::process_init_message(Some(wrong), Some(grant())).unwrap_err(),
        InitError::MalformedRequest
    );
}

#[test]
fn handshake_outcomes() {
    let pending = || {
        PendingInit::assemble(
            "t".to_string(),
            parent(),
            publisher(),
            Vec::new(),
            None,
            grant(),
        )
        .0
    };
    assert_eq!(pending().subscription.last_received_seq, 0);
    let granted = SubscribeResponse { success: true, topic: "t2".to_string(), error: None };
    let (state, effects) =
        SubscriberState::complete_init(pending(), CallOutcome::Answered(granted.clone()));
    let state = state.unwrap();
    assert_eq!(state.subscription().topic, "t2");
    assert_eq!(state.grant(), &Some(grant()));
    assert_eq!(
        effects,
        vec![Effect::Respond(PubSubResponse::Subscribe(granted)), Effect::SaveState]
    );
    let refused = SubscribeResponse {
        success: false,
        topic: "t".to_string(),
        error: Some("no".to_string()),
    };
    let (state, effects) =
        SubscriberState::complete_init(pending(), CallOutcome::Answered(refused.clone()));
    assert_eq!(state.unwrap_err(), InitError::Refused);
    assert_eq!(effects, vec![Effect::Respond(PubSubResponse::Subscribe(refused)), Effect::Exit]);
    let (state, effects) = SubscriberState::complete_init(pending(), CallOutcome::Undecodable);
    assert_eq!(state.unwrap_err(), InitError::MalformedResponse);
    assert_eq!(effects, vec![Effect::Exit]);
    let (state, effects) = SubscriberState::complete_init(pending(), CallOutcome::Failed);
    assert_eq!(state.unwrap_err(), InitError::CallFailed);
    assert_eq!(effects, vec![Effect::Exit]);
}

#[test]
fn load_restores_or_subscribes() {
    let restored = SubscriberState::load(Some(subscriber(Vec::new(), 6)), None, None).unwrap();
    assert!(matches!(restored, Startup::Restored(s) if s.subscription().last_received_seq == 6));
    let first = Inbound {
        source: parent(),
        body: InboundBody::Request(PubSubRequest::InitSub(init_request(Vec::new()))),
        payload: Vec::new(),
        grant: None,
    };
    let started = SubscriberState::load(None, Some(first), Some(grant())).unwrap();
    assert!(matches!(started, Startup::Subscribing(p, e) if p.from_sequence == Some(4) && e.len() == 1));
    assert_eq!(SubscriberState::load(None, None, Some(grant())).unwrap_err(), InitError::NoMessage);
}
