use kinode_pubsub::address::{Address, ProcessId};
use kinode_pubsub::effects::{Effect, Inbound, InboundBody, Payload};
use kinode_pubsub::history::{Message, MessageHistory, StorageEntry, StoreOp};
use kinode_pubsub::messages::{
    AccessGrant, Ack, Heartbeat, HeartbeatResponse, HeartbeatStatus, InitPubRequest, Persistence,
    PubSubRequest, PubSubResponse, PublishMessage, PublisherConfig, SubscribeRequest,
    SubscribeResponse, UnsubscribeRequest, UnsubscribeResponse,
};
use kinode_pubsub::publisher::{
    EngineError, InitError, OfflineSubscriber, PendingAck, PublisherState, SubscriberRecord,
};
use std::collections::VecDeque;

fn address(node: &str, process: &str) -> Address {
    Address::new(node, ProcessId::new(process, "pubsub", "template.os"))
}

fn parent() -> Address {
    address("our.os", "app")
}

fn config(persistence: Persistence) -> PublisherConfig {
    PublisherConfig {
        max_retry_attempts: 2,
        retry_interval: 10,
        heartbeat_interval: 5,
        default_persistence: persistence,
    }
}

fn publisher(persistence: Persistence) -> PublisherState {
    PublisherState::new(config(persistence), &parent(), "t".to_string()).0
}

fn publish(state: &mut PublisherState, payload: &[u8], now: u64) -> Vec<Effect> {
    state
        .handle_publish(
            &parent(),
            PublishMessage { topic: "t".to_string(), sequence: 0 },
            payload.to_vec(),
            now,
        )
        .unwrap()
}

fn subscribe(state: &mut PublisherState, who: &Address, from: Option<u64>) -> Vec<Effect> {
    state.handle_subscribe(who, SubscribeRequest { topic: "t".to_string(), from_sequence: from }, None)
}

fn send(to: &Address, sequence: u64, payload: Payload) -> Effect {
    Effect::Send {
        target: to.clone(),
        request: PubSubRequest::Publish(PublishMessage { topic: "t".to_string(), sequence }),
        payload,
        grant: None,
    }
}

fn inline(bytes: &[u8]) -> Payload {
    Payload::Inline(bytes.to_vec())
}

#[test]
fn default_config_values() {
    let c = PublisherConfig::default();
    assert_eq!(c.max_retry_attempts, 3);
    assert_eq!(c.retry_interval, 120);
    assert_eq!(c.heartbeat_interval, 60);
    assert_eq!(c.default_persistence, Persistence::Memory(1000));
}

#[test]
fn new_publisher_starts_at_zero() {
    let (state, effects) = PublisherState::new(config(Persistence::Disk(4)), &parent(), "t".to_string());
    assert_eq!(effects, vec![Effect::Store(StoreOp::Open)]);
    assert_eq!(state.topic(), "t");
    assert_eq!(state.last_sequence(), 0);
    assert!(state.subscribers().is_empty());
    assert!(state.offline_subscribers().is_empty());
    assert!(state.pending_acks().is_empty());
    assert_eq!(state.parent(), &parent());
    assert_eq!(*state.config(), config(Persistence::Disk(4)));
    assert!(state.message_history().is_empty());
    assert!(!state.is_terminated());
}

#[test]
fn publishes_are_numbered_from_one_without_gaps() {
    let mut state = publisher(Persistence::Memory(100));
    let s = address("s.os", "sub1");
    subscribe(&mut state, &s, None);
    for expected in 1..=20u64 {
        let effects = publish(&mut state, &[expected as u8], 0);
        assert_eq!(state.last_sequence(), expected);
        assert_eq!(effects, vec![send(&s, expected, inline(&[expected as u8]))]);
        assert_eq!(state.message_history().get_latest_sequence(), Some(expected));
    }
}

#[test]
fn fan_out_reaches_every_subscriber_in_order() {
    let mut state = publisher(Persistence::Ephemeral);
    let a = address("a.os", "sub");
    let b = address("b.os", "sub");
    subscribe(&mut state, &a, None);
    subscribe(&mut state, &b, None);
    subscribe(&mut state, &a, None);
    assert_eq!(state.subscribers().len(), 2);
    let effects = publish(&mut state, b"x", 0);
    assert_eq!(effects, vec![send(&a, 1, inline(b"x")), send(&b, 1, inline(b"x"))]);
    assert!(state.pending_acks().is_empty());
}

#[test]
fn disk_publish_stores_before_it_sends() {
    let mut state = publisher(Persistence::Disk(1));
    let s = address("s.os", "sub");
    subscribe(&mut state, &s, None);
    publish(&mut state, b"a", 0);
    let effects = publish(&mut state, b"b", 0);
    assert_eq!(
        effects,
        vec![
            Effect::Store(StoreOp::Delete { key: 1 }),
            Effect::Store(StoreOp::Put { key: 2, value: b"b".to_vec() }),
            send(&s, 2, inline(b"b")),
        ]
    );
}

#[test]
fn subscribe_to_unserved_topic_fails_and_changes_nothing() {
    let mut state = publisher(Persistence::Memory(2));
    let s = address("s.os", "sub");
    let effects = state.handle_subscribe(
        &s,
        SubscribeRequest { topic: "other".to_string(), from_sequence: Some(1) },
        None,
    );
    assert_eq!(
        effects,
        vec![Effect::Respond(PubSubResponse::Subscribe(SubscribeResponse {
            success: false,
            topic: "other".to_string(),
            error: Some(
                "error: publisher does not have requested topic: other, has: t".to_string()
            ),
        }))]
    );
    assert!(state.subscribers().is_empty());
}

#[test]
fn subscribe_registers_and_retains_the_grant() {
    let mut state = publisher(Persistence::Memory(2));
    let s = address("s.os", "sub");
    let grant = AccessGrant { token: vec![1, 2, 3] };
    let effects = state.handle_subscribe(
        &s,
        SubscribeRequest { topic: "t".to_string(), from_sequence: None },
        Some(grant.clone()),
    );
    assert_eq!(
        effects,
        vec![Effect::Respond(PubSubResponse::Subscribe(SubscribeResponse {
            success: true,
            topic: "t".to_string(),
            error: None,
        }))]
    );
    assert_eq!(
        state.subscribers(),
        &vec![SubscriberRecord { address: s.clone(), grant: Some(grant.clone()) }]
    );
    let effects = publish(&mut state, b"x", 0);
    assert_eq!(
        effects,
        vec![Effect::Send {
            target: s,
            request: PubSubRequest::Publish(PublishMessage { topic: "t".to_string(), sequence: 1 }),
            payload: inline(b"x"),
            grant: Some(grant),
        }]
    );
}

#[test]
fn unsubscribe_of_a_stranger_is_idempotent() {
    let mut state = publisher(Persistence::Memory(2));
    let a = address("a.os", "sub");
    let b = address("b.os", "sub");
    subscribe(&mut state, &a, None);
    let before = state.subscribers().clone();
    for _ in 0..2 {
        let effects = state.handle_unsubscribe(&b, UnsubscribeRequest { topic: "t".to_string() });
        assert_eq!(
            effects,
            vec![Effect::Respond(PubSubResponse::Unsubscribe(UnsubscribeResponse {
                success: true,
                topic: "t".to_string(),
                error: None,
            }))]
        );
        assert_eq!(state.subscribers(), &before);
    }
}

#[test]
fn unsubscribe_removes_subscriber_and_its_pending_messages() {
    let mut state = publisher(Persistence::Memory(2));
    let a = address("a.os", "sub");
    let b = address("b.os", "sub");
    subscribe(&mut state, &a, None);
    subscribe(&mut state, &b, None);
    publish(&mut state, b"x", 3);
    assert_eq!(state.pending_acks().len(), 2);
    state.handle_unsubscribe(&a, UnsubscribeRequest { topic: "t".to_string() });
    assert_eq!(state.subscribers().len(), 1);
    assert_eq!(state.subscribers()[0].address, b);
    assert_eq!(
        state.pending_acks(),
        &vec![PendingAck {
            subscriber: b,
            topic: "t".to_string(),
            sequence: 1,
            retry_count: 0,
            last_sent_time: 3,
        }]
    );
}

#[test]
fn unsubscribe_from_unserved_topic_fails() {
    let mut state = publisher(Persistence::Memory(2));
    let a = address("a.os", "sub");
    subscribe(&mut state, &a, None);
    let effects = state.handle_unsubscribe(&a, UnsubscribeRequest { topic: "u".to_string() });
    assert_eq!(
        effects,
        vec![Effect::Respond(PubSubResponse::Unsubscribe(UnsubscribeResponse {
            success: false,
            topic: "u".to_string(),
            error: Some("error: publisher does not have requested topic: u, has: t".to_string()),
        }))]
    );
    assert_eq!(state.subscribers().len(), 1);
}

#[test]
fn publish_from_a_stranger_is_dropped() {
    let mut state = publisher(Persistence::Memory(2));
    let s = address("s.os", "sub");
    subscribe(&mut state, &s, None);
    let effects = state
        .handle_publish(
            &address("evil.os", "app"),
            PublishMessage { topic: "t".to_string(), sequence: 0 },
            b"x".to_vec(),
            0,
        )
        .unwrap();
    assert!(effects.is_empty());
    assert_eq!(state.last_sequence(), 0);
    assert!(state.message_history().is_empty());
    assert!(state.pending_acks().is_empty());
}

#[test]
fn late_subscriber_gets_the_retained_history_in_order() {
    let mut state = publisher(Persistence::Memory(2));
    publish(&mut state, b"a", 0);
    publish(&mut state, b"b", 0);
    publish(&mut state, b"c", 0);
    let s = address("s.os", "sub");
    let effects = subscribe(&mut state, &s, Some(1));
    assert_eq!(
        effects,
        vec![
            Effect::Respond(PubSubResponse::Subscribe(SubscribeResponse {
                success: true,
                topic: "t".to_string(),
                error: None,
            })),
            send(&s, 2, inline(b"b")),
            send(&s, 3, inline(b"c")),
        ]
    );
}

#[test]
fn disk_replay_points_into_the_store() {
    let mut state = publisher(Persistence::Disk(2));
    publish(&mut state, b"a", 0);
    publish(&mut state, b"b", 0);
    publish(&mut state, b"c", 0);
    let s = address("s.os", "sub");
    let effects = subscribe(&mut state, &s, Some(3));
    assert_eq!(effects.len(), 2);
    assert_eq!(effects[1], send(&s, 3, Payload::Stored(3)));
}

#[test]
fn exhausted_counter_is_an_error() {
    let (history, _) = MessageHistory::new(Persistence::Memory(2));
    let mut state = PublisherState::restore(
        "t".to_string(),
        u64::MAX,
        Vec::new(),
        Vec::new(),
        config(Persistence::Memory(2)),
        parent(),
        history,
        Vec::new(),
        false,
    )
    .unwrap();
    let r = state.handle_publish(
        &parent(),
        PublishMessage { topic: "t".to_string(), sequence: 0 },
        Vec::new(),
        0,
    );
    assert_eq!(r, Err(EngineError::SequenceExhausted));
    assert_eq!(state.last_sequence(), u64::MAX);
}

#[test]
fn restore_rejects_ill_formed_snapshots() {
    let s = address("s.os", "sub");
    let record = SubscriberRecord { address: s, grant: None };
    let (history, _) = MessageHistory::new(Persistence::Memory(2));
    assert!(PublisherState::restore(
        "t".to_string(),
        0,
        vec![record.clone(), record.clone()],
        Vec::new(),
        config(Persistence::Memory(2)),
        parent(),
        history,
        Vec::new(),
        false,
    )
    .is_none());
    let (history, _) = MessageHistory::new(Persistence::Memory(2));
    assert!(PublisherState::restore(
        "t".to_string(),
        0,
        vec![record],
        Vec::new(),
        config(Persistence::Disk(2)),
        parent(),
        history,
        Vec::new(),
        false,
    )
    .is_none());
    let mut entries = VecDeque::new();
    entries.push_back(StorageEntry::Full(Message { sequence: 5, content: Vec::new() }));
    let history = MessageHistory::restore(entries, Persistence::Memory(2)).unwrap();
    assert!(PublisherState::restore(
        "t".to_string(),
        4,
        Vec::new(),
        Vec::new(),
        config(Persistence::Memory(2)),
        parent(),
        history,
        Vec::new(),
        false,
    )
    .is_none());
}

#[test]
fn acknowledge_clears_the_pending_message() {
    let mut state = publisher(Persistence::Memory(4));
    let a = address("a.os", "sub");
    let b = address("b.os", "sub");
    subscribe(&mut state, &a, None);
    subscribe(&mut state, &b, None);
    publish(&mut state, b"x", 1);
    publish(&mut state, b"y", 2);
    assert_eq!(state.pending_acks().len(), 4);
    state.handle_acknowledge(&a, Ack { topic: "t".to_string(), sequence: 1 });
    assert_eq!(state.pending_acks().len(), 3);
    assert!(state
        .pending_acks()
        .iter()
        .all(|p| !(p.subscriber == a && p.sequence == 1)));
    state.handle_acknowledge(&a, Ack { topic: "t".to_string(), sequence: 1 });
    assert_eq!(state.pending_acks().len(), 3);
    state.handle_acknowledge(&a, Ack { topic: "other".to_string(), sequence: 2 });
    assert_eq!(state.pending_acks().len(), 3);
}

#[test]
fn tick_resends_stale_messages_and_counts_the_retry() {
    let mut state = publisher(Persistence::Memory(4));
    let a = address("a.os", "sub");
    subscribe(&mut state, &a, None);
    publish(&mut state, b"x", 100);
    assert!(state.handle_tick(110).is_empty());
    assert_eq!(state.pending_acks()[0].retry_count, 0);
    let effects = state.handle_tick(111);
    assert_eq!(effects, vec![send(&a, 1, inline(b"x"))]);
    assert_eq!(
        state.pending_acks(),
        &vec![PendingAck {
            subscriber: a,
            topic: "t".to_string(),
            sequence: 1,
            retry_count: 1,
            last_sent_time: 111,
        }]
    );
}

#[test]
fn tick_moves_a_silent_subscriber_offline() {
    let mut state = publisher(Persistence::Memory(4));
    let a = address("a.os", "sub");
    let b = address("b.os", "sub");
    subscribe(&mut state, &a, None);
    subscribe(&mut state, &b, None);
    publish(&mut state, b"x", 0);
    state.handle_acknowledge(&b, Ack { topic: "t".to_string(), sequence: 1 });
    assert_eq!(state.handle_tick(11).len(), 1);
    assert_eq!(state.handle_tick(22).len(), 1);
    assert_eq!(state.pending_acks()[0].retry_count, 2);
    let effects = state.handle_tick(33);
    assert!(effects.is_empty());
    assert_eq!(state.subscribers().len(), 1);
    assert_eq!(state.subscribers()[0].address, b);
    assert_eq!(
        state.offline_subscribers(),
        &vec![OfflineSubscriber { address: a.clone(), retry_count: 2 }]
    );
    assert!(state.pending_acks().is_empty());
    let effects = publish(&mut state, b"y", 40);
    assert_eq!(effects, vec![send(&b, 2, inline(b"y"))]);
    subscribe(&mut state, &a, None);
    assert!(state.offline_subscribers().is_empty());
    assert_eq!(state.subscribers().len(), 2);
}

#[test]
fn tick_drops_stale_messages_that_are_no_longer_retained() {
    let mut state = publisher(Persistence::Memory(1));
    let a = address("a.os", "sub");
    subscribe(&mut state, &a, None);
    publish(&mut state, b"x", 0);
    publish(&mut state, b"y", 0);
    let effects = state.handle_tick(11);
    assert_eq!(effects, vec![send(&a, 2, inline(b"y"))]);
    assert_eq!(state.pending_acks().len(), 1);
    assert_eq!(state.pending_acks()[0].sequence, 2);
}

#[test]
fn abort_publish_takes_back_history_and_pending() {
    let mut state = publisher(Persistence::Disk(4));
    let a = address("a.os", "sub");
    subscribe(&mut state, &a, None);
    publish(&mut state, b"x", 0);
    publish(&mut state, b"y", 0);
    state.abort_publish(2);
    assert_eq!(state.last_sequence(), 2);
    assert_eq!(state.message_history().get_latest_sequence(), Some(1));
    assert_eq!(state.pending_acks().len(), 1);
    assert_eq!(state.pending_acks()[0].sequence, 1);
}

#[test]
fn save_is_an_effect() {
    assert_eq!(publisher(Persistence::Ephemeral).save(), vec![Effect::SaveState]);
}

#[test]
fn heartbeat_is_answered_with_its_timestamp() {
    let state = publisher(Persistence::Ephemeral);
    assert_eq!(
        state.handle_heartbeat(Heartbeat { timestamp: 77 }),
        vec![Effect::Respond(PubSubResponse::Heartbeat(HeartbeatResponse {
            timestamp: 77,
            status: HeartbeatStatus::Alive,
        }))]
    );
}

#[test]
fn kill_stops_the_publisher_for_good() {
    let mut state = publisher(Persistence::Disk(4));
    publish(&mut state, b"x", 0);
    let effects = state
        .handle_request(PubSubRequest::Kill, &address("any.os", "x"), Vec::new(), None, 0)
        .unwrap();
    assert_eq!(
        effects,
        vec![Effect::Store(StoreOp::Reset), Effect::ClearState, Effect::Exit]
    );
    assert!(state.is_terminated());
    assert!(state.message_history().is_empty());
    let after = state
        .handle_request(
            PubSubRequest::Publish(PublishMessage { topic: "t".to_string(), sequence: 0 }),
            &parent(),
            b"x".to_vec(),
            None,
            0,
        )
        .unwrap();
    assert!(after.is_empty());
    assert_eq!(state.last_sequence(), 1);
}

#[test]
fn requests_for_other_engines_are_dropped() {
    let mut state = publisher(Persistence::Memory(2));
    let request = PubSubRequest::InitPub(InitPubRequest {
        topic: "t".to_string(),
        config: config(Persistence::Ephemeral),
    });
    assert!(state.handle_request(request, &parent(), Vec::new(), None, 0).unwrap().is_empty());
}

#[test]
fn messages_are_dispatched_by_source_and_body() {
    let mut state = publisher(Persistence::Memory(2));
    let a = address("a.os", "sub");
    let subscribe = Inbound {
        source: a.clone(),
        body: InboundBody::Request(PubSubRequest::Subscribe(SubscribeRequest {
            topic: "t".to_string(),
            from_sequence: None,
        })),
        payload: Vec::new(),
        grant: None,
    };
    assert_eq!(state.handle_message(subscribe, 0).unwrap().len(), 1);
    let publish = Inbound {
        source: parent(),
        body: InboundBody::Request(PubSubRequest::Publish(PublishMessage {
            topic: "t".to_string(),
            sequence: 0,
        })),
        payload: b"x".to_vec(),
        grant: None,
    };
    assert_eq!(state.handle_message(publish, 0).unwrap(), vec![send(&a, 1, inline(b"x"))]);
    let timer = Address::new("our", ProcessId::new("timer", "distro", "sys"));
    let tick = Inbound { source: timer, body: InboundBody::Malformed, payload: Vec::new(), grant: None };
    assert_eq!(state.handle_message(tick, 11).unwrap(), vec![send(&a, 1, inline(b"x"))]);
    let malformed =
        Inbound { source: a.clone(), body: InboundBody::Malformed, payload: Vec::new(), grant: None };
    assert_eq!(state.handle_message(malformed, 0), Err(EngineError::MalformedMessage));
    let response = Inbound {
        source: a,
        body: InboundBody::Response(PubSubResponse::Heartbeat(HeartbeatResponse {
            timestamp: 1,
            status: HeartbeatStatus::Busy,
        })),
        payload: Vec::new(),
        grant: None,
    };
    assert!(state.handle_message(response, 0).unwrap().is_empty());
}

#[test]
fn load_prefers_the_snapshot() {
    let mut snapshot = publisher(Persistence::Memory(2));
    publish(&mut snapshot, b"x", 0);
    let (state, effects) = PublisherState::load(&parent(), Some(snapshot), None).unwrap();
    assert!(effects.is_empty());
    assert_eq!(state.last_sequence(), 1);
}

#[test]
fn load_starts_from_the_init_message() {
    let our = address("our.os", "pub-t");
    let init = |source: Address, body: InboundBody| Inbound {
        source,
        body,
        payload: Vec::new(),
        grant: None,
    };
    let request = InboundBody::Request(PubSubRequest::InitPub(InitPubRequest {
        topic: "t".to_string(),
        config: config(Persistence::Disk(3)),
    }));
    let (state, effects) =
        PublisherState::load(&our, None, Some(init(parent(), request.clone()))).unwrap();
    assert_eq!(effects, vec![Effect::Store(StoreOp::Open)]);
    assert_eq!(state.parent(), &parent());
    assert_eq!(state.topic(), "t");
    assert_eq!(PublisherState::load(&our, None, None).unwrap_err(), InitError::NoMessage);
    let foreign = Address::new("far.os", ProcessId::new("app", "other", "far.os"));
    assert_eq!(
        PublisherState::load(&our, None, Some(init(foreign, request))).unwrap_err(),
        InitError::WrongSource
    );
    let same_node = Address::new("our.os", ProcessId::new("app", "other", "far.os"));
    assert_eq!(
        PublisherState::load(&our, None, Some(init(same_node, InboundBody::Malformed))).unwrap_err(),
        InitError::MalformedRequest
    );
}
