//! The bounded, tiered log of a topic.
//!
//! A history retains the newest messages of a topic, oldest first. In the
//! memory tier an entry holds the whole message. In the disk tier an entry
//! holds the sequence number only and the payload lives in a durable
//! key/value store under that number. The history never touches the store:
//! every operation returns the store operations that go with it, in the order
//! in which they are to be performed, and [`apply_ops`] says what they do to a
//! store.

use crate::messages::Persistence;
use std::collections::VecDeque;
use vstd::prelude::*;

verus! {

/// One retained message.
#[derive(Debug, Clone, PartialEq, Eq)]
pub struct Message {
    pub sequence: u64,
    pub content: Vec<u8>,
}

/// View of a [`Message`].
pub struct MessageView {
    pub sequence: u64,
    pub content: Seq<u8>,
}

impl View for Message {
    type V = MessageView;

    open spec fn view(&self) -> MessageView {
        MessageView { sequence: self.sequence, content: self.content@ }
    }
}

impl DeepView for Message {
    type V = MessageView;

    open spec fn deep_view(&self) -> MessageView {
        self@
    }
}

/// One entry of the log.
#[derive(Debug, Clone, PartialEq, Eq)]
pub enum StorageEntry {
    /// The message itself (memory tier).
    Full(Message),
    /// The key under which the durable store holds the payload (disk tier).
    SequenceOnly(u64),
}

/// View of a [`StorageEntry`].
pub enum EntryView {
    Full(MessageView),
    SequenceOnly(u64),
}

impl EntryView {
    /// The sequence number of the entry.
    pub open spec fn sequence(self) -> u64 {
        match self {
            EntryView::Full(m) => m.sequence,
            EntryView::SequenceOnly(s) => s,
        }
    }
}

impl View for StorageEntry {
    type V = EntryView;

    open spec fn view(&self) -> EntryView {
        match self {
            StorageEntry::Full(m) => EntryView::Full(m@),
            StorageEntry::SequenceOnly(s) => EntryView::SequenceOnly(*s),
        }
    }
}

impl DeepView for StorageEntry {
    type V = EntryView;

    open spec fn deep_view(&self) -> EntryView {
        self@
    }
}

/// An operation on the durable store of a topic.
#[derive(Debug, Clone, PartialEq, Eq)]
pub enum StoreOp {
    /// Open the store of the topic.
    Open,
    /// Write a payload under a key.
    Put { key: u64, value: Vec<u8> },
    /// Remove a key. A key that is absent is no error.
    Delete { key: u64 },
    /// Drop the store of the topic and open a fresh one.
    Reset,
}

/// View of a [`StoreOp`].
pub enum StoreOpView {
    Open,
    Put { key: u64, value: Seq<u8> },
    Delete { key: u64 },
    Reset,
}

impl View for StoreOp {
    type V = StoreOpView;

    open spec fn view(&self) -> StoreOpView {
        match self {
            StoreOp::Open => StoreOpView::Open,
            StoreOp::Put { key, value } => StoreOpView::Put { key: *key, value: value@ },
            StoreOp::Delete { key } => StoreOpView::Delete { key: *key },
            StoreOp::Reset => StoreOpView::Reset,
        }
    }
}

impl DeepView for StoreOp {
    type V = StoreOpView;

    open spec fn deep_view(&self) -> StoreOpView {
        self@
    }
}

/// What one operation does to a store.
pub open spec fn apply_op(store: Map<u64, Seq<u8>>, op: StoreOpView) -> Map<u64, Seq<u8>> {
    match op {
        StoreOpView::Open => store,
        StoreOpView::Put { key, value } => store.insert(key, value),
        StoreOpView::Delete { key } => store.remove(key),
        StoreOpView::Reset => Map::empty(),
    }
}

/// What a run of operations does to a store, first to last.
pub open spec fn apply_ops(store: Map<u64, Seq<u8>>, ops: Seq<StoreOpView>) -> Map<u64, Seq<u8>>
    decreases ops.len(),
{
    if ops.len() == 0 {
        store
    } else {
        apply_op(apply_ops(store, ops.drop_last()), ops.last())
    }
}

/// Why a retained entry could not be turned into a message.
#[derive(Debug, Clone, Copy, PartialEq, Eq, Structural)]
pub enum HistoryError {
    /// The durable store did not yield the payload of this sequence number.
    MissingRecord(u64),
}

/// The last entry with a sequence number among entries.
pub open spec fn newest_with(entries: Seq<EntryView>, sequence: u64) -> Option<EntryView>
    decreases entries.len(),
{
    if entries.len() == 0 {
        None
    } else if entries.last().sequence() == sequence {
        Some(entries.last())
    } else {
        newest_with(entries.drop_last(), sequence)
    }
}

/// The view of an optional entry.
pub open spec fn found_view(found: Option<StorageEntry>) -> Option<EntryView> {
    match found {
        Some(e) => Some(e@),
        None => None,
    }
}

/// View of a [`MessageHistory`]: the entries, oldest first, and the tier.
pub struct HistoryView {
    pub entries: Seq<EntryView>,
    pub persistence: Persistence,
}

impl HistoryView {
    /// The empty history of a tier.
    pub open spec fn empty(persistence: Persistence) -> HistoryView {
        HistoryView { entries: Seq::empty(), persistence }
    }

    /// The most entries that the history ever holds. A bound of zero still
    /// lets the newest message in: room is made before each append, never
    /// after.
    pub open spec fn limit(self) -> nat {
        match self.persistence {
            Persistence::Ephemeral => 0,
            Persistence::Memory(n) => if n == 0 { 1 } else { n as nat },
            Persistence::Disk(n) => if n == 0 { 1 } else { n as nat },
        }
    }

    /// The entries fit the tier and its bound.
    pub open spec fn wf(self) -> bool {
        &&& self.entries.len() <= self.limit()
        &&& forall|i: int|
            0 <= i < self.entries.len() ==> (match self.persistence {
                Persistence::Ephemeral => false,
                Persistence::Memory(_) => (#[trigger] self.entries[i]) is Full,
                Persistence::Disk(_) => (#[trigger] self.entries[i]) is SequenceOnly,
            })
    }

    /// Sequence numbers grow strictly from the oldest entry to the newest.
    pub open spec fn ascending(self) -> bool {
        forall|i: int, j: int|
            0 <= i < j < self.entries.len() ==> (#[trigger] self.entries[i]).sequence() < (
            #[trigger] self.entries[j]).sequence()
    }

    /// The next append drops the oldest entry.
    pub open spec fn evicts(self) -> bool {
        &&& self.entries.len() > 0
        &&& match self.persistence {
            Persistence::Ephemeral => false,
            Persistence::Memory(n) => self.entries.len() >= n,
            Persistence::Disk(n) => self.entries.len() >= n,
        }
    }

    /// The entries that outlive the next append.
    pub open spec fn kept(self) -> Seq<EntryView> {
        if self.evicts() {
            self.entries.drop_first()
        } else {
            self.entries
        }
    }

    /// The history after a message has been appended.
    pub open spec fn add(self, sequence: u64, content: Seq<u8>) -> HistoryView {
        match self.persistence {
            Persistence::Ephemeral => self,
            Persistence::Memory(_) => HistoryView {
                entries: self.kept().push(EntryView::Full(MessageView { sequence, content })),
                persistence: self.persistence,
            },
            Persistence::Disk(_) => HistoryView {
                entries: self.kept().push(EntryView::SequenceOnly(sequence)),
                persistence: self.persistence,
            },
        }
    }

    /// The store operations of an append: in the disk tier the evicted key is
    /// deleted, then the payload is written under its sequence number.
    pub open spec fn add_ops(self, sequence: u64, content: Seq<u8>) -> Seq<StoreOpView> {
        match self.persistence {
            Persistence::Disk(_) => if self.evicts() {
                seq![
                    StoreOpView::Delete { key: self.entries[0].sequence() },
                    StoreOpView::Put { key: sequence, value: content },
                ]
            } else {
                seq![StoreOpView::Put { key: sequence, value: content }]
            },
            _ => Seq::empty(),
        }
    }

    /// The history after an append whose store operations failed: the entry
    /// of that append is gone again, an evicted one stays evicted.
    pub open spec fn forget(self, sequence: u64) -> HistoryView {
        if self.entries.len() > 0 && self.entries.last().sequence() == sequence {
            HistoryView { entries: self.entries.drop_last(), persistence: self.persistence }
        } else {
            self
        }
    }

    /// The retained entries from a sequence number on, oldest first.
    pub open spec fn read_from(self, start: u64) -> Seq<EntryView> {
        self.entries.filter(|e: EntryView| e.sequence() >= start)
    }

    /// The retained entry of a sequence number, if there is one: the newest
    /// such entry.
    pub open spec fn find(self, sequence: u64) -> Option<EntryView> {
        newest_with(self.entries, sequence)
    }

    /// The sequence number of the newest entry.
    pub open spec fn latest(self) -> Option<u64> {
        if self.entries.len() == 0 {
            None
        } else {
            Some(self.entries.last().sequence())
        }
    }

    /// The history with nothing retained.
    pub open spec fn cleared(self) -> HistoryView {
        HistoryView::empty(self.persistence)
    }

    /// The store operations that go with clearing.
    pub open spec fn clear_ops(self) -> Seq<StoreOpView> {
        match self.persistence {
            Persistence::Disk(_) => seq![StoreOpView::Reset],
            _ => Seq::empty(),
        }
    }
}

/// The store operations that go with creating a history.
pub open spec fn open_ops(persistence: Persistence) -> Seq<StoreOpView> {
    match persistence {
        Persistence::Disk(_) => seq![StoreOpView::Open],
        _ => Seq::empty(),
    }
}

/// The message of an entry, given what the durable store yielded for it.
pub open spec fn resolved(entry: EntryView, fetched: Option<Seq<u8>>) -> Result<
    MessageView,
    HistoryError,
> {
    match entry {
        EntryView::Full(m) => Ok(m),
        EntryView::SequenceOnly(s) => match fetched {
            Some(content) => Ok(MessageView { sequence: s, content }),
            None => Err(HistoryError::MissingRecord(s)),
        },
    }
}

/// The view of what the durable store yielded for one key.
pub open spec fn fetched_view(fetched: Option<Vec<u8>>) -> Option<Seq<u8>> {
    match fetched {
        Some(content) => Some(content@),
        None => None,
    }
}

/// The view of the outcome of [`StorageEntry::into_message`].
pub open spec fn message_result_view(r: Result<Message, HistoryError>) -> Result<
    MessageView,
    HistoryError,
> {
    match r {
        Ok(m) => Ok(m@),
        Err(e) => Err(e),
    }
}

impl StorageEntry {
    /// The sequence number of the entry.
    pub fn sequence(&self) -> (r: u64)
        ensures
            r == self@.sequence(),
    {
        match self {
            StorageEntry::Full(m) => m.sequence,
            StorageEntry::SequenceOnly(s) => *s,
        }
    }

    /// A copy of the entry.
    pub fn duplicate(&self) -> (r: StorageEntry)
        ensures
            r@ == self@,
    {
        match self {
            StorageEntry::Full(m) => StorageEntry::Full(
                Message { sequence: m.sequence, content: m.content.clone() },
            ),
            StorageEntry::SequenceOnly(s) => StorageEntry::SequenceOnly(*s),
        }
    }

    /// The message of the entry. An entry of the disk tier takes its payload
    /// from `fetched`, which is what the durable store yielded under the
    /// entry's sequence number; without it the entry cannot be resolved.
    pub fn into_message(self, fetched: Option<Vec<u8>>) -> (r: Result<Message, HistoryError>)
        ensures
            message_result_view(r) == resolved(self@, fetched_view(fetched)),
    {
        match self {
            StorageEntry::Full(m) => Ok(m),
            StorageEntry::SequenceOnly(s) => match fetched {
                Some(content) => Ok(Message { sequence: s, content }),
                None => Err(HistoryError::MissingRecord(s)),
            },
        }
    }
}

/// The bounded log of one topic.
#[derive(Debug)]
pub struct MessageHistory {
    entries: VecDeque<StorageEntry>,
    persistence: Persistence,
}

impl View for MessageHistory {
    type V = HistoryView;

    closed spec fn view(&self) -> HistoryView {
        HistoryView { entries: self.entries.deep_view(), persistence: self.persistence }
    }
}

impl MessageHistory {
    /// An empty history of the given tier, and the store operations that must
    /// succeed before it is used.
    pub fn new(persistence: Persistence) -> (r: (MessageHistory, Vec<StoreOp>))
        ensures
            r.0@ == HistoryView::empty(persistence),
            r.0@.wf(),
            r.1.deep_view() == open_ops(persistence),
    {
        let history = MessageHistory { entries: VecDeque::new(), persistence };
        let mut ops: Vec<StoreOp> = Vec::new();
        if let Persistence::Disk(_) = persistence {
            ops.push(StoreOp::Open);
        }
        proof {
            assert(history.entries.deep_view() =~= Seq::<EntryView>::empty());
            assert(ops.deep_view() =~= open_ops(persistence));
        }
        (history, ops)
    }

    /// Appends a message, dropping the oldest entry first where the history is
    /// full, and returns the store operations of the append.
    pub fn add_message(&mut self, sequence: u64, content: Vec<u8>) -> (ops: Vec<StoreOp>)
        requires
            old(self)@.wf(),
        ensures
            final(self)@ == old(self)@.add(sequence, content@),
            final(self)@.wf(),
            ops.deep_view() == old(self)@.add_ops(sequence, content@),
    {
        let mut ops: Vec<StoreOp> = Vec::new();
        match self.persistence {
            Persistence::Ephemeral => {
                proof {
                    assert(ops.deep_view() =~= Seq::<StoreOpView>::empty());
                }
            },
            Persistence::Memory(max_size) => {
                if self.entries.len() as u64 >= max_size {
                    self.entries.pop_front();
                }
                let ghost kept = self.entries.deep_view();
                self.entries.push_back(StorageEntry::Full(Message { sequence, content }));
                proof {
                    assert(kept =~= old(self)@.kept());
                    assert(self.entries.deep_view() =~= kept.push(
                        EntryView::Full(MessageView { sequence, content: content@ }),
                    ));
                    assert(ops.deep_view() =~= Seq::<StoreOpView>::empty());
                }
            },
            Persistence::Disk(max_size) => {
                if self.entries.len() as u64 >= max_size {
                    if let Some(StorageEntry::SequenceOnly(oldest)) = self.entries.pop_front() {
                        ops.push(StoreOp::Delete { key: oldest });
                    }
                }
                let ghost kept = self.entries.deep_view();
                let ghost content_view = content@;
                ops.push(StoreOp::Put { key: sequence, value: content });
                self.entries.push_back(StorageEntry::SequenceOnly(sequence));
                proof {
                    assert(kept =~= old(self)@.kept());
                    assert(self.entries.deep_view() =~= kept.push(
                        EntryView::SequenceOnly(sequence),
                    ));
                    assert(ops.deep_view() =~= old(self)@.add_ops(sequence, content_view));
                }
            },
        }
        ops
    }

    /// Takes back the entry of an append whose store operations failed. The
    /// newest entry is dropped if it has this sequence number; nothing else
    /// changes.
    pub fn forget(&mut self, sequence: u64)
        requires
            old(self)@.wf(),
        ensures
            final(self)@ == old(self)@.forget(sequence),
            final(self)@.wf(),
    {
        let n = self.entries.len();
        if n > 0 && self.entries[n - 1].sequence() == sequence {
            self.entries.pop_back();
            proof {
                assert(self.entries.deep_view() =~= old(self)@.entries.drop_last());
            }
        }
    }

    /// The retained entries with a sequence number of at least
    /// `start_sequence`, oldest first.
    pub fn get_messages_from(&self, start_sequence: u64) -> (r: Vec<StorageEntry>)
        ensures
            r.deep_view() == self@.read_from(start_sequence),
    {
        let ghost pred = |e: EntryView| e.sequence() >= start_sequence;
        let ghost all = self.entries.deep_view();
        let mut out: Vec<StorageEntry> = Vec::new();
        let n = self.entries.len();
        let mut i: usize = 0;
        proof {
            reveal(Seq::filter);
            assert(all.take(0) =~= Seq::<EntryView>::empty());
            assert(out.deep_view() =~= all.take(0).filter(pred));
        }
        while i < n
            invariant
                i <= n,
                n == self.entries@.len(),
                all == self.entries.deep_view(),
                pred == (|e: EntryView| e.sequence() >= start_sequence),
                out.deep_view() == all.take(i as int).filter(pred),
            decreases n - i,
        {
            let entry = &self.entries[i];
            let ghost before = out.deep_view();
            proof {
                reveal(Seq::filter);
                assert(all.take(i as int + 1).drop_last() =~= all.take(i as int));
                assert(all.take(i as int + 1).last() == entry@);
            }
            if entry.sequence() >= start_sequence {
                out.push(entry.duplicate());
                proof {
                    assert(out.deep_view() =~= before.push(entry@));
                }
            }
            i += 1;
        }
        proof {
            assert(all.take(n as int) =~= all);
        }
        out
    }

    /// The retained entry of a sequence number, if there is one.
    pub fn find(&self, sequence: u64) -> (r: Option<StorageEntry>)
        ensures
            found_view(r) == self@.find(sequence),
    {
        let ghost all = self.entries.deep_view();
        let mut i = self.entries.len();
        proof {
            assert(all.take(i as int) =~= all);
        }
        while i > 0
            invariant
                i <= self.entries@.len(),
                all == self.entries.deep_view(),
                newest_with(all, sequence) == newest_with(all.take(i as int), sequence),
            decreases i,
        {
            let entry = &self.entries[i - 1];
            proof {
                assert(all.take(i as int).last() == entry@);
                assert(all.take(i as int).drop_last() =~= all.take(i as int - 1));
            }
            if entry.sequence() == sequence {
                return Some(entry.duplicate());
            }
            i -= 1;
        }
        None
    }

    /// The sequence number of the newest entry.
    pub fn get_latest_sequence(&self) -> (r: Option<u64>)
        ensures
            r == self@.latest(),
    {
        let n = self.entries.len();
        if n == 0 {
            None
        } else {
            Some(self.entries[n - 1].sequence())
        }
    }

    /// Drops every entry and returns the store operations that go with it.
    pub fn clear(&mut self) -> (ops: Vec<StoreOp>)
        ensures
            final(self)@ == old(self)@.cleared(),
            final(self)@.wf(),
            ops.deep_view() == old(self)@.clear_ops(),
    {
        self.entries.clear();
        let mut ops: Vec<StoreOp> = Vec::new();
        if let Persistence::Disk(_) = self.persistence {
            ops.push(StoreOp::Reset);
        }
        proof {
            assert(self.entries.deep_view() =~= Seq::<EntryView>::empty());
            assert(ops.deep_view() =~= old(self)@.clear_ops());
        }
        ops
    }

    /// The history that a snapshot describes, if the snapshot is well-formed:
    /// the entries fit the tier and its bound.
    pub fn restore(entries: VecDeque<StorageEntry>, persistence: Persistence) -> (r: Option<
        MessageHistory,
    >)
        ensures
            match r {
                Some(h) => h@ == (HistoryView { entries: entries.deep_view(), persistence })
                    && h@.wf(),
                None => !(HistoryView { entries: entries.deep_view(), persistence }).wf(),
            },
    {
        let ghost view = HistoryView { entries: entries.deep_view(), persistence };
        let n = entries.len();
        let fits = match persistence {
            Persistence::Ephemeral => n == 0,
            Persistence::Memory(max_size) => n as u64 <= max_size || n <= 1,
            Persistence::Disk(max_size) => n as u64 <= max_size || n <= 1,
        };
        if !fits {
            return None;
        }
        let mut i: usize = 0;
        while i < n
            invariant
                i <= n,
                n == entries@.len(),
                view == (HistoryView { entries: entries.deep_view(), persistence }),
                persistence == Persistence::Ephemeral ==> n == 0,
                forall|k: int|
                    0 <= k < i ==> (match persistence {
                        Persistence::Ephemeral => false,
                        Persistence::Memory(_) => (#[trigger] view.entries[k]) is Full,
                        Persistence::Disk(_) => (#[trigger] view.entries[k]) is SequenceOnly,
                    }),
            decreases n - i,
        {
            let right_kind = match (&entries[i], persistence) {
                (StorageEntry::Full(_), Persistence::Memory(_)) => true,
                (StorageEntry::SequenceOnly(_), Persistence::Disk(_)) => true,
                _ => false,
            };
            if !right_kind {
                proof {
                    assert(view.entries[i as int] == entries@[i as int]@);
                }
                return None;
            }
            proof {
                assert(view.entries[i as int] == entries@[i as int]@);
            }
            i += 1;
        }
        Some(MessageHistory { entries, persistence })
    }

    /// Whether the sequence numbers grow strictly from the oldest entry to
    /// the newest and none is above `bound`.
    pub fn is_ascending_up_to(&self, bound: u64) -> (r: bool)
        ensures
            r == (self@.ascending() && forall|i: int|
                0 <= i < self@.entries.len() ==> (#[trigger] self@.entries[i]).sequence() <= bound),
    {
        let ghost all = self.entries.deep_view();
        let n = self.entries.len();
        let mut i: usize = 0;
        while i < n
            invariant
                i <= n,
                n == self.entries@.len(),
                all == self.entries.deep_view(),
                forall|k: int| 0 <= k < i ==> (#[trigger] all[k]).sequence() <= bound,
                forall|a: int, b: int|
                    0 <= a < b < i ==> (#[trigger] all[a]).sequence() < (#[trigger] all[b]).sequence(),
            decreases n - i,
        {
            let sequence = self.entries[i].sequence();
            proof {
                assert(all[i as int] == self.entries@[i as int]@);
            }
            if sequence > bound {
                proof {
                    assert(self@.entries[i as int].sequence() > bound);
                }
                return false;
            }
            if i > 0 {
                let previous = self.entries[i - 1].sequence();
                proof {
                    assert(all[i as int - 1] == self.entries@[i as int - 1]@);
                }
                if previous >= sequence {
                    proof {
                        assert(self@.entries[i as int - 1].sequence() >= self@.entries[i as int].sequence());
                    }
                    return false;
                }
                proof {
                    assert forall|a: int, b: int| 0 <= a < b < i + 1 implies (
                    #[trigger] all[a]).sequence() < (#[trigger] all[b]).sequence() by {
                        if b == i && a < i - 1 {
                            assert(all[a].sequence() < all[i as int - 1].sequence());
                        }
                    }
                }
            }
            i += 1;
        }
        true
    }

    /// The number of retained entries.
    pub fn len(&self) -> (r: usize)
        ensures
            r == self@.entries.len(),
    {
        self.entries.len()
    }

    /// Whether nothing is retained.
    pub fn is_empty(&self) -> (r: bool)
        ensures
            r == (self@.entries.len() == 0),
    {
        self.entries.len() == 0
    }

    /// The tier of the history.
    pub fn persistence_type(&self) -> (r: &Persistence)
        ensures
            *r == self@.persistence,
    {
        &self.persistence
    }
}

} // verus!
