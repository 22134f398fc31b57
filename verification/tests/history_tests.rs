use kinode_pubsub::history::{HistoryError, Message, MessageHistory, StorageEntry, StoreOp};
use kinode_pubsub::messages::Persistence;
use std::collections::{HashMap, VecDeque};

fn full(sequence: u64, content: &[u8]) -> StorageEntry {
    StorageEntry::Full(Message { sequence, content: content.to_vec() })
}

fn apply(store: &mut HashMap<u64, Vec<u8>>, ops: Vec<StoreOp>) {
    for op in ops {
        match op {
            StoreOp::Open => {}
            StoreOp::Put { key, value } => {
                store.insert(key, value);
            }
            StoreOp::Delete { key } => {
                store.remove(&key);
            }
            StoreOp::Reset => store.clear(),
        }
    }
}

#[test]
fn new_history_is_empty() {
    let (history, ops) = MessageHistory::new(Persistence::Memory(3));
    assert!(ops.is_empty());
    assert!(history.is_empty());
    assert_eq!(history.len(), 0);
    assert_eq!(history.get_latest_sequence(), None);
    assert_eq!(*history.persistence_type(), Persistence::Memory(3));
    assert!(history.get_messages_from(0).is_empty());
}

#[test]
fn disk_history_opens_its_store() {
    let (_, ops) = MessageHistory::new(Persistence::Disk(3));
    assert_eq!(ops, vec![StoreOp::Open]);
    let (_, ops) = MessageHistory::new(Persistence::Ephemeral);
    assert!(ops.is_empty());
}

#[test]
fn memory_history_evicts_the_oldest() {
    let (mut history, _) = MessageHistory::new(Persistence::Memory(2));
    assert!(history.add_message(1, b"a".to_vec()).is_empty());
    assert!(history.add_message(2, b"b".to_vec()).is_empty());
    assert!(history.add_message(3, b"c".to_vec()).is_empty());
    assert_eq!(history.len(), 2);
    assert_eq!(history.get_messages_from(1), vec![full(2, b"b"), full(3, b"c")]);
    assert_eq!(history.get_latest_sequence(), Some(3));
    assert_eq!(history.find(1), None);
    assert_eq!(history.find(2), Some(full(2, b"b")));
}

#[test]
fn read_from_filters_by_sequence_and_keeps_order() {
    let (mut history, _) = MessageHistory::new(Persistence::Memory(10));
    for s in 1..=5u64 {
        history.add_message(s, vec![s as u8]);
    }
    assert_eq!(history.get_messages_from(4), vec![full(4, &[4]), full(5, &[5])]);
    assert_eq!(history.get_messages_from(6), Vec::<StorageEntry>::new());
    assert_eq!(history.get_messages_from(0).len(), 5);
    let first = history.get_messages_from(3);
    let second = history.get_messages_from(3);
    assert_eq!(first, second);
    assert_eq!(first, vec![full(3, &[3]), full(4, &[4]), full(5, &[5])]);
}

#[test]
fn disk_history_keeps_pointers_and_deletes_evicted_records() {
    let mut store: HashMap<u64, Vec<u8>> = HashMap::new();
    let (mut history, ops) = MessageHistory::new(Persistence::Disk(2));
    apply(&mut store, ops);
    let ops = history.add_message(1, b"a".to_vec());
    assert_eq!(ops, vec![StoreOp::Put { key: 1, value: b"a".to_vec() }]);
    apply(&mut store, ops);
    apply(&mut store, history.add_message(2, b"b".to_vec()));
    let ops = history.add_message(3, b"c".to_vec());
    assert_eq!(
        ops,
        vec![StoreOp::Delete { key: 1 }, StoreOp::Put { key: 3, value: b"c".to_vec() }]
    );
    apply(&mut store, ops);
    assert!(!store.contains_key(&1));
    assert_eq!(store.get(&2), Some(&b"b".to_vec()));
    assert_eq!(store.get(&3), Some(&b"c".to_vec()));
    assert_eq!(
        history.get_messages_from(1),
        vec![StorageEntry::SequenceOnly(2), StorageEntry::SequenceOnly(3)]
    );
    assert_eq!(history.find(1), None);
}

#[test]
fn ephemeral_history_retains_nothing() {
    let (mut history, _) = MessageHistory::new(Persistence::Ephemeral);
    for s in 1..=4u64 {
        assert!(history.add_message(s, vec![1, 2, 3]).is_empty());
    }
    assert!(history.is_empty());
    assert!(history.get_messages_from(0).is_empty());
    assert!(history.get_messages_from(3).is_empty());
    assert_eq!(history.get_latest_sequence(), None);
}

#[test]
fn zero_bound_still_holds_the_newest() {
    let (mut history, _) = MessageHistory::new(Persistence::Memory(0));
    history.add_message(1, b"a".to_vec());
    assert_eq!(history.len(), 1);
    history.add_message(2, b"b".to_vec());
    assert_eq!(history.get_messages_from(0), vec![full(2, b"b")]);
}

#[test]
fn clear_drops_entries_and_resets_the_disk_store() {
    let (mut memory, _) = MessageHistory::new(Persistence::Memory(2));
    memory.add_message(1, b"a".to_vec());
    assert!(memory.clear().is_empty());
    assert!(memory.is_empty());
    let (mut disk, _) = MessageHistory::new(Persistence::Disk(2));
    disk.add_message(1, b"a".to_vec());
    assert_eq!(disk.clear(), vec![StoreOp::Reset]);
    assert!(disk.is_empty());
}

#[test]
fn forget_takes_back_the_newest_entry_only() {
    let (mut history, _) = MessageHistory::new(Persistence::Disk(2));
    history.add_message(1, b"a".to_vec());
    history.add_message(2, b"b".to_vec());
    history.forget(1);
    assert_eq!(history.len(), 2);
    history.forget(2);
    assert_eq!(history.get_messages_from(0), vec![StorageEntry::SequenceOnly(1)]);
}

#[test]
fn entries_resolve_to_messages() {
    let entry = full(7, b"x");
    assert_eq!(entry.sequence(), 7);
    assert_eq!(entry.duplicate(), entry);
    assert_eq!(entry.into_message(None), Ok(Message { sequence: 7, content: b"x".to_vec() }));
    let pointer = StorageEntry::SequenceOnly(9);
    assert_eq!(
        pointer.clone().into_message(Some(b"y".to_vec())),
        Ok(Message { sequence: 9, content: b"y".to_vec() })
    );
    assert_eq!(pointer.into_message(None), Err(HistoryError::MissingRecord(9)));
}

#[test]
fn restore_accepts_only_well_formed_snapshots() {
    let mut entries = VecDeque::new();
    entries.push_back(full(1, b"a"));
    entries.push_back(full(2, b"b"));
    let restored = MessageHistory::restore(entries.clone(), Persistence::Memory(2)).unwrap();
    assert_eq!(restored.len(), 2);
    assert!(restored.is_ascending_up_to(2));
    assert!(!restored.is_ascending_up_to(1));
    assert!(MessageHistory::restore(entries.clone(), Persistence::Memory(1)).is_none());
    assert!(MessageHistory::restore(entries.clone(), Persistence::Disk(2)).is_none());
    assert!(MessageHistory::restore(entries, Persistence::Ephemeral).is_none());
    let mut unordered = VecDeque::new();
    unordered.push_back(StorageEntry::SequenceOnly(5));
    unordered.push_back(StorageEntry::SequenceOnly(3));
    let restored = MessageHistory::restore(unordered, Persistence::Disk(4)).unwrap();
    assert!(!restored.is_ascending_up_to(10));
}
