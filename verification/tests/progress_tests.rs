use kinode_pubsub::progress::{PubSub, PubSubConfig};

#[test]
fn default_settings() {
    let config = PubSubConfig::default();
    assert_eq!(config.max_message_size, 7_000_000);
    assert_eq!(config.persistence_path, None);
    assert_eq!(config.max_retry_attempts, 3);
    assert_eq!(config.heartbeat_interval, 30);
}

#[test]
fn new_table_follows_nothing() {
    let table = PubSub::new(PubSubConfig::default());
    assert!(table.get_subscribed_topics().is_empty());
    assert_eq!(table.get_last_sequence("t"), None);
}

#[test]
fn persistence_needs_a_path() {
    let mut table = PubSub::new(PubSubConfig::default());
    assert_eq!(table.save_state(), Err("Persistence not configured"));
    assert_eq!(table.load_state(), Err("Persistence not configured"));
    let mut configured = PubSub::new(PubSubConfig {
        persistence_path: Some("/state".to_string()),
        ..PubSubConfig::default()
    });
    assert_eq!(configured.save_state(), Ok(()));
    assert_eq!(configured.load_state(), Ok(()));
}
