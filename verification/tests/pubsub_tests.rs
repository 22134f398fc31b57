use kinode_pubsub::address::{Address, PackageId, ProcessId};
use kinode_pubsub::effects::{Effect, Payload};
use kinode_pubsub::messages::{
    InitPubRequest, InitSubRequest, Persistence, PubSubRequest, PublishMessage, PublisherConfig,
    SubscribeRequest, SubscribeResponse, UnsubscribeRequest,
};
use kinode_pubsub::pubsub::{
    publisher_address, publisher_name, InitOutcome, PublishStep, Publisher, SpawnRequest,
    SubscribeStep, Subscriber, Subscription,
};
use kinode_pubsub::{Pub, PubError, Sub, SubError};

fn our() -> Address {
    Address::new("our.os", ProcessId::new("app", "pubsub", "template.os"))
}

fn package() -> PackageId {
    PackageId::new("pubsub", "template.os")
}

fn plain(target: Address, request: PubSubRequest) -> Effect {
    Effect::Send { target, request, payload: Payload::Empty, grant: None }
}

fn small() -> PublisherConfig {
    PublisherConfig {
        max_retry_attempts: 1,
        retry_interval: 2,
        heartbeat_interval: 3,
        default_persistence: Persistence::Disk(4),
    }
}

#[test]
fn error_texts() {
    assert_eq!(PubError::TopicNotFound.to_string(), "Topic not found");
    assert_eq!(PubError::SpawningError("x".to_string()).to_string(), "Error spawning process: x");
    assert_eq!(
        PubError::NoPublisherProcessFound("t".to_string()).to_string(),
        "No publisher process found for: t"
    );
    assert_eq!(SubError::SpawningError("x".to_string()).to_string(), "Error spawning process: x");
    assert_eq!(SubError::SerializeError("x".to_string()).to_string(), "Serialization error: x");
    assert_eq!(SubError::InvalidAddress.to_string(), "Invalid address");
    assert_eq!(SubError::SubscriptionNotFound.to_string(), "Subscription not found");
    assert_eq!(
        SubError::SubInitError("x".to_string()).to_string(),
        "Subscriber initialization error: x"
    );
    assert_eq!(SubError::UnsubscribeError("x".to_string()).to_string(), "Unsubscribe error: x");
}

#[test]
fn publisher_names_and_addresses() {
    assert_eq!(publisher_name("news"), "pub-news");
    let address = publisher_address("news", &package(), "far.os");
    assert_eq!(address.to_string(), "far.os@pub-news:pubsub:template.os");
}

#[test]
fn new_registry_is_persisted_and_a_snapshot_is_kept() {
    let (registry, effects) = Pub::new(&our(), PublisherConfig::default(), None);
    assert_eq!(effects, vec![Effect::SaveState]);
    assert!(registry.publishers().is_empty());
    assert_eq!(registry.our(), &our());
    assert_eq!(*registry.default_config(), PublisherConfig::default());
    let mut filled = registry;
    filled
        .new_topic("t", None, Ok(ProcessId::new("pub-t", "pubsub", "template.os")))
        .unwrap();
    let (again, effects) = Pub::new(&our(), small(), Some(filled));
    assert!(effects.is_empty());
    assert_eq!(again.publishers().len(), 1);
    assert_eq!(*again.default_config(), PublisherConfig::default());
}

#[test]
fn publish_spawns_then_registers_then_sends() {
    let (mut registry, _) = Pub::new(&our(), small(), None);
    let step = registry.publish("t", &b"hello".to_vec());
    let spawn = SpawnRequest {
        name: Some("pub-t".to_string()),
        wasm_path: "pubsub:template.os/pkg/pub.wasm".to_string(),
        restart: true,
        public: true,
    };
    assert_eq!(step, PublishStep::Spawn(spawn.clone()));
    assert_eq!(registry.spawn_request("t"), spawn);
    let process = ProcessId::new("pub-t", "pubsub", "template.os");
    let effects = registry.new_topic("t", None, Ok(process.clone())).unwrap();
    let address = Address::new("our.os", process);
    assert_eq!(
        effects,
        vec![plain(
            address.clone(),
            PubSubRequest::InitPub(InitPubRequest { topic: "t".to_string(), config: small() })
        )]
    );
    assert_eq!(
        registry.get_topic("t"),
        Some(&Publisher { address: address.clone(), config: small() })
    );
    assert_eq!(registry.get_topic("u"), None);
    let step = registry.publish("t", &b"hello".to_vec());
    assert_eq!(
        step,
        PublishStep::Send(vec![Effect::Send {
            target: address,
            request: PubSubRequest::Publish(PublishMessage { topic: "t".to_string(), sequence: 0 }),
            payload: Payload::Inline(b"hello".to_vec()),
            grant: None,
        }])
    );
}

#[test]
fn new_topic_takes_the_given_config_and_replaces_an_entry() {
    let (mut registry, _) = Pub::new(&our(), small(), None);
    let first = ProcessId::new("pub-t", "pubsub", "template.os");
    let second = ProcessId::new("pub-t-2", "pubsub", "template.os");
    registry.new_topic("t", Some(PublisherConfig::default()), Ok(first)).unwrap();
    assert_eq!(registry.get_topic("t").unwrap().config, PublisherConfig::default());
    registry.new_topic("t", None, Ok(second.clone())).unwrap();
    assert_eq!(registry.publishers().len(), 1);
    assert_eq!(registry.get_topic("t").unwrap().address, Address::new("our.os", second));
}

#[test]
fn failed_spawn_registers_nothing() {
    let (mut registry, _) = Pub::new(&our(), small(), None);
    let r = registry.new_topic("t", None, Err("no capacity".to_string()));
    assert_eq!(r, Err(PubError::SpawningError("no capacity".to_string())));
    assert!(registry.publishers().is_empty());
}

#[test]
fn remove_topic_kills_the_publisher_and_keeps_the_entry() {
    let (mut registry, _) = Pub::new(&our(), small(), None);
    assert_eq!(registry.remove_topic("t"), Ok(Vec::new()));
    let process = ProcessId::new("pub-t", "pubsub", "template.os");
    registry.new_topic("t", None, Ok(process.clone())).unwrap();
    assert_eq!(
        registry.remove_topic("t"),
        Ok(vec![plain(Address::new("our.os", process), PubSubRequest::Kill)])
    );
    assert_eq!(registry.publishers().len(), 1);
}

#[test]
fn registry_restore_rejects_repeated_topics() {
    let publisher = Publisher { address: our(), config: small() };
    let entries = vec![("t".to_string(), publisher.clone()), ("u".to_string(), publisher.clone())];
    assert!(Pub::restore(entries, our(), small()).is_some());
    let entries = vec![("t".to_string(), publisher.clone()), ("t".to_string(), publisher)];
    assert!(Pub::restore(entries, our(), small()).is_none());
}

#[test]
fn subscribe_spawns_calls_and_registers() {
    let (mut registry, effects) = Sub::new(&our(), None);
    assert_eq!(effects, vec![Effect::SaveState]);
    let step = registry.subscribe_from("t", &package(), "far.os", Some(3));
    let spawn = SpawnRequest {
        name: None,
        wasm_path: "pubsub:template.os/pkg/sub.wasm".to_string(),
        restart: true,
        public: false,
    };
    assert_eq!(step, SubscribeStep::Spawn(spawn.clone()));
    assert_eq!(registry.spawn_request(), spawn);
    assert_eq!(registry.subscribe("t", &package(), "far.os"), SubscribeStep::Spawn(spawn));
    let process = ProcessId::new("12345", "pubsub", "template.os");
    let (subscriber, effects) = registry
        .init_request("t", &package(), "far.os", Some(3), Ok(process.clone()))
        .unwrap();
    assert_eq!(subscriber, Address::new("our.os", process));
    assert_eq!(
        effects,
        vec![Effect::Call {
            target: subscriber.clone(),
            request: PubSubRequest::InitSub(InitSubRequest {
                topic: "t".to_string(),
                parent: "our.os@app:pubsub:template.os".to_string(),
                publisher: "far.os@pub-t:pubsub:template.os".to_string(),
                forward_to: Vec::new(),
                from_sequence: Some(3),
            }),
            grant: None,
            timeout: 10,
        }]
    );
    let granted = SubscribeResponse { success: true, topic: "t".to_string(), error: None };
    registry
        .complete_subscribe(
            "t",
            &package(),
            "far.os",
            Some(3),
            subscriber.clone(),
            InitOutcome::Answered(granted),
        )
        .unwrap();
    assert_eq!(
        registry.subscriptions(),
        &vec![(
            Subscription {
                publisher: publisher_address("t", &package(), "far.os"),
                topic: "t".to_string()
            },
            Subscriber { address: subscriber.clone(), latest_sequence: 3 }
        )]
    );
    let step = registry.subscribe_from("t", &package(), "far.os", Some(8));
    assert_eq!(
        step,
        SubscribeStep::Resubscribe(vec![plain(
            subscriber,
            PubSubRequest::Subscribe(SubscribeRequest {
                topic: "t".to_string(),
                from_sequence: Some(8),
            })
        )])
    );
}

#[test]
fn subscribe_errors() {
    let (mut registry, _) = Sub::new(&our(), None);
    assert_eq!(
        registry.init_request("t", &package(), "far.os", None, Err("denied".to_string())),
        Err(SubError::SpawningError("denied".to_string()))
    );
    let subscriber = Address::new("our.os", ProcessId::new("1", "pubsub", "template.os"));
    let complete = |registry: &mut Sub, outcome| {
        registry.complete_subscribe("t", &package(), "far.os", None, subscriber.clone(), outcome)
    };
    assert_eq!(
        complete(&mut registry, InitOutcome::Failed("timeout".to_string())),
        Err(SubError::SubInitError("timeout".to_string()))
    );
    assert_eq!(
        complete(&mut registry, InitOutcome::Undecodable("eof".to_string())),
        Err(SubError::SerializeError("eof".to_string()))
    );
    let refused = |error| SubscribeResponse { success: false, topic: "t".to_string(), error };
    assert_eq!(
        complete(&mut registry, InitOutcome::Answered(refused(Some("no topic".to_string())))),
        Err(SubError::SubInitError("no topic".to_string()))
    );
    assert_eq!(
        complete(&mut registry, InitOutcome::Answered(refused(None))),
        Err(SubError::SubInitError(String::new()))
    );
    assert!(registry.subscriptions().is_empty());
    assert_eq!(registry.our(), &our());
}

#[test]
fn unsubscribe_removes_the_entry_or_fails() {
    let (mut registry, _) = Sub::new(&our(), None);
    assert_eq!(
        registry.unsubscribe("t", &package(), "far.os"),
        Err(SubError::SubscriptionNotFound)
    );
    let subscriber = Address::new("our.os", ProcessId::new("1", "pubsub", "template.os"));
    let granted = SubscribeResponse { success: true, topic: "t".to_string(), error: None };
    registry
        .complete_subscribe(
            "t",
            &package(),
            "far.os",
            None,
            subscriber.clone(),
            InitOutcome::Answered(granted),
        )
        .unwrap();
    assert_eq!(registry.subscriptions()[0].1.latest_sequence, 0);
    assert_eq!(
        registry.unsubscribe("t", &package(), "other.os"),
        Err(SubError::SubscriptionNotFound)
    );
    assert_eq!(
        registry.unsubscribe("t", &package(), "far.os"),
        Ok(vec![plain(
            subscriber,
            PubSubRequest::Unsubscribe(UnsubscribeRequest { topic: "t".to_string() })
        )])
    );
    assert!(registry.subscriptions().is_empty());
}

#[test]
fn sub_restore_rejects_repeated_subscriptions() {
    let key = Subscription {
        publisher: publisher_address("t", &package(), "far.os"),
        topic: "t".to_string(),
    };
    let value = Subscriber { address: our(), latest_sequence: 1 };
    assert!(Sub::restore(vec![(key.clone(), value.clone())], our()).is_some());
    assert!(Sub::restore(vec![(key.clone(), value.clone()), (key, value)], our()).is_none());
    let (kept, effects) = Sub::new(&our(), Sub::restore(Vec::new(), our()));
    assert!(effects.is_empty());
    assert!(kept.subscriptions().is_empty());
}
