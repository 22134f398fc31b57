//! What holds of the history and of the publisher over many steps.
//!
//! The contracts of the handlers say what one step does. The proof functions
//! here draw the consequences: which sequence numbers a run of publishes
//! assigns, what a bounded history retains after it has overflowed, what the
//! durable store holds then, and what requests that are turned down leave
//! behind.

use crate::address::AddressView;
use crate::effects::{store_effects, EffectView, PayloadView};
use crate::history::{
    apply_op, apply_ops, newest_with, EntryView, HistoryView, MessageView, StoreOpView,
};
use crate::messages::{
    Persistence, PubSubRequestView, PublisherConfig, SequencedView, SubscribeRequestView,
};
use crate::publisher::{
    by_address, demote, distinct, exhausted, mismatch_text, not_offline_of, position,
    publish_effect, subscribe_answer, unsubscribe_answer, EngineError, OfflineView,
    PendingAckView, PublisherView, SubscriberRecordView,
};
use crate::seq_util::lemma_remove_distinct;
use crate::subscriber::SubscriberView;
use vstd::prelude::*;

verus! {

/// The history after a run of appends, first to last.
pub open spec fn add_all(h: HistoryView, messages: Seq<MessageView>) -> HistoryView
    decreases messages.len(),
{
    if messages.len() == 0 {
        h
    } else {
        add_all(h, messages.drop_last()).add(messages.last().sequence, messages.last().content)
    }
}

/// The store operations of a run of appends, first to last.
pub open spec fn add_all_ops(h: HistoryView, messages: Seq<MessageView>) -> Seq<StoreOpView>
    decreases messages.len(),
{
    if messages.len() == 0 {
        Seq::empty()
    } else {
        add_all_ops(h, messages.drop_last()) + add_all(h, messages.drop_last()).add_ops(
            messages.last().sequence,
            messages.last().content,
        )
    }
}

/// The messages are numbered 1, 2, 3 and so on.
pub open spec fn numbered_from_one(messages: Seq<MessageView>) -> bool {
    forall|i: int| 0 <= i < messages.len() ==> (#[trigger] messages[i]).sequence == i + 1
}

/// The entry of a message in the memory tier.
pub open spec fn full_entry() -> spec_fn(MessageView) -> EntryView {
    |m: MessageView| EntryView::Full(m)
}

/// The entry of a message in the disk tier.
pub open spec fn pointer_entry() -> spec_fn(MessageView) -> EntryView {
    |m: MessageView| EntryView::SequenceOnly(m.sequence)
}

/// How many of `n` messages a history with bound `k` has dropped.
pub open spec fn dropped(n: int, k: int) -> int {
    if n > k {
        n - k
    } else {
        0
    }
}

/// Performing two runs of store operations one after the other is performing
/// their concatenation.
pub proof fn lemma_apply_ops_concat(
    store: Map<u64, Seq<u8>>,
    first: Seq<StoreOpView>,
    second: Seq<StoreOpView>,
)
    ensures
        apply_ops(store, first + second) == apply_ops(apply_ops(store, first), second),
    decreases second.len(),
{
    if second.len() == 0 {
        assert(first + second =~= first);
    } else {
        assert((first + second).drop_last() =~= first + second.drop_last());
        assert((first + second).last() == second.last());
        lemma_apply_ops_concat(store, first, second.drop_last());
    }
}

/// Performing a run of one store operation is performing that operation.
pub proof fn lemma_apply_ops_one(store: Map<u64, Seq<u8>>, op: StoreOpView)
    ensures
        apply_ops(store, seq![op]) == apply_op(store, op),
{
    assert(seq![op].drop_last() =~= Seq::<StoreOpView>::empty());
    assert(apply_ops(store, Seq::<StoreOpView>::empty()) == store);
    assert(seq![op].last() == op);
}

/// Reading from a sequence number yields exactly the retained entries with
/// at least that number; where the log is in ascending order, so is what is
/// read; and reading from what was read yields it again.
pub proof fn lemma_read_from_exact(h: HistoryView, start: u64)
    ensures
        forall|e: EntryView| #[trigger]
            h.read_from(start).contains(e) <==> (h.entries.contains(e) && e.sequence() >= start),
        h.ascending() ==> (HistoryView {
            entries: h.read_from(start),
            persistence: h.persistence,
        }).ascending(),
        (HistoryView { entries: h.read_from(start), persistence: h.persistence }).read_from(start)
            == h.read_from(start),
    decreases h.entries.len(),
{
    reveal(Seq::filter);
    let pred = |e: EntryView| e.sequence() >= start;
    let read = h.read_from(start);
    let again = HistoryView { entries: read, persistence: h.persistence };
    if h.entries.len() == 0 {
        assert(read =~= Seq::<EntryView>::empty());
        assert(again.read_from(start) =~= read);
    } else {
        let shorter = HistoryView { entries: h.entries.drop_last(), persistence: h.persistence };
        let last = h.entries.last();
        lemma_read_from_exact(shorter, start);
        let prev = shorter.read_from(start);
        let prev_again = HistoryView { entries: prev, persistence: h.persistence };
        assert(read == if pred(last) {
            prev.push(last)
        } else {
            prev
        });
        assert forall|e: EntryView| #[trigger]
            read.contains(e) <==> (h.entries.contains(e) && e.sequence() >= start) by {
            if read.contains(e) {
                let i = choose|i: int| 0 <= i < read.len() && read[i] == e;
                if i < prev.len() {
                    assert(prev.contains(e));
                    let j = choose|j: int| 0 <= j < shorter.entries.len() && shorter.entries[j] == e;
                    assert(h.entries[j] == e);
                } else {
                    assert(e == last);
                    assert(h.entries[h.entries.len() - 1] == e);
                }
            }
            if h.entries.contains(e) && e.sequence() >= start {
                let j = choose|j: int| 0 <= j < h.entries.len() && h.entries[j] == e;
                if j < h.entries.len() - 1 {
                    assert(shorter.entries[j] == e);
                    assert(prev.contains(e));
                    let i = choose|i: int| 0 <= i < prev.len() && prev[i] == e;
                    assert(read[i] == e);
                } else {
                    assert(read[read.len() - 1] == e);
                }
            }
        }
        if h.ascending() {
            assert(shorter.ascending()) by {
                assert forall|i: int, j: int| 0 <= i < j < shorter.entries.len() implies (
                #[trigger] shorter.entries[i]).sequence() < (
                #[trigger] shorter.entries[j]).sequence() by {
                    assert(shorter.entries[i] == h.entries[i]);
                    assert(shorter.entries[j] == h.entries[j]);
                }
            }
            assert forall|i: int, j: int| 0 <= i < j < read.len() implies (
            #[trigger] read[i]).sequence() < (#[trigger] read[j]).sequence() by {
                if j < prev.len() {
                    assert(prev_again.entries[i] == read[i]);
                    assert(prev_again.entries[j] == read[j]);
                } else {
                    assert(read[j] == last);
                    assert(prev.contains(prev[i]));
                    let m = choose|m: int|
                        0 <= m < shorter.entries.len() && shorter.entries[m] == prev[i];
                    assert(h.entries[m] == read[i]);
                    assert(h.entries[h.entries.len() - 1] == last);
                }
            }
        }
        if pred(last) {
            assert(read.drop_last() =~= prev);
            assert(again.read_from(start) == prev_again.read_from(start).push(last));
        } else {
            assert(again.read_from(start) == prev_again.read_from(start));
        }
    }
}

/// One append to a window over the newest messages: where the entries stand
/// for the newest of all messages but the last, dropping the oldest entry if
/// the window is full and appending the entry of the last message gives the
/// window over the newest of all messages.
pub proof fn lemma_window_step(
    messages: Seq<MessageView>,
    bound: int,
    entry: spec_fn(MessageView) -> EntryView,
    before: Seq<EntryView>,
    after: Seq<EntryView>,
)
    requires
        bound >= 1,
        messages.len() > 0,
        before == messages.drop_last().skip(dropped(messages.len() - 1, bound)).map_values(entry),
        after == (if before.len() >= bound {
            before.drop_first()
        } else {
            before
        }).push(entry(messages.last())),
    ensures
        after == messages.skip(dropped(messages.len() as int, bound)).map_values(entry),
{
    let n = messages.len() as int;
    let shorter = messages.drop_last();
    let d1 = dropped(n - 1, bound);
    let d = dropped(n, bound);
    let expected = messages.skip(d).map_values(entry);
    assert(before.len() == n - 1 - d1);
    assert(after.len() == expected.len());
    assert forall|i: int| 0 <= i < expected.len() implies after[i] == expected[i] by {
        assert(expected[i] == entry(messages[d + i]));
        if i < after.len() - 1 {
            if before.len() >= bound {
                assert(after[i] == before[i + 1]);
                assert(before[i + 1] == entry(shorter[d1 + i + 1]));
                assert(shorter[d1 + i + 1] == messages[d1 + i + 1]);
            } else {
                assert(after[i] == before[i]);
                assert(before[i] == entry(shorter[d1 + i]));
                assert(shorter[d1 + i] == messages[d1 + i]);
            }
        } else {
            assert(after[i] == entry(messages.last()));
        }
    }
    assert(after =~= expected);
}

/// A history of the memory tier with a bound of at least one retains the
/// newest messages that were appended to it, as many as the bound allows and
/// in the order of their arrival; in particular, after one message more than
/// the bound, the oldest is gone and the others are what reading from the
/// first sequence number yields.
pub proof fn lemma_memory_keeps_newest(bound: u64, messages: Seq<MessageView>)
    requires
        bound >= 1,
    ensures
        add_all(HistoryView::empty(Persistence::Memory(bound)), messages).entries
            == messages.skip(dropped(messages.len() as int, bound as int)).map_values(full_entry()),
        add_all(HistoryView::empty(Persistence::Memory(bound)), messages).wf(),
        add_all(HistoryView::empty(Persistence::Memory(bound)), messages).persistence
            == Persistence::Memory(bound),
        numbered_from_one(messages) ==> add_all(
            HistoryView::empty(Persistence::Memory(bound)),
            messages,
        ).read_from(1) == messages.skip(dropped(messages.len() as int, bound as int)).map_values(
            full_entry(),
        ),
    decreases messages.len(),
{
    let empty = HistoryView::empty(Persistence::Memory(bound));
    let n = messages.len() as int;
    let after = add_all(empty, messages);
    let expected = messages.skip(dropped(n, bound as int)).map_values(full_entry());
    if n == 0 {
        assert(after.entries =~= expected);
    } else {
        let shorter = messages.drop_last();
        lemma_memory_keeps_newest(bound, shorter);
        let before = add_all(empty, shorter);
        let kept_from = dropped(n - 1, bound as int);
        assert(before.entries.len() == n - 1 - kept_from);
        lemma_window_step(messages, bound as int, full_entry(), before.entries, after.entries);
    }
    if numbered_from_one(messages) {
        lemma_filter_keeps_all(after.entries, |e: EntryView| e.sequence() >= 1);
    }
}

/// A filter that every element passes keeps the sequence as it is.
pub proof fn lemma_filter_keeps_all<A>(s: Seq<A>, pred: spec_fn(A) -> bool)
    requires
        forall|i: int| 0 <= i < s.len() ==> pred(#[trigger] s[i]),
    ensures
        s.filter(pred) == s,
    decreases s.len(),
{
    reveal(Seq::filter);
    if s.len() > 0 {
        assert forall|i: int| 0 <= i < s.drop_last().len() implies pred(
            #[trigger] s.drop_last()[i],
        ) by {
            assert(s.drop_last()[i] == s[i]);
        }
        lemma_filter_keeps_all(s.drop_last(), pred);
        assert(s.drop_last().push(s.last()) =~= s);
    }
}

/// A history of the disk tier with a bound of at least one, filled with
/// messages numbered from one, points at the newest of them, as many as the
/// bound allows. After its store operations the durable store holds the
/// payload of every message that is pointed at and none of a message that was
/// dropped, whatever it held before. In particular, after one message more
/// than the bound, the first sequence number is neither retained nor a key
/// of the store.
pub proof fn lemma_disk_evicts_oldest(
    bound: u64,
    messages: Seq<MessageView>,
    store: Map<u64, Seq<u8>>,
)
    requires
        bound >= 1,
        numbered_from_one(messages),
    ensures
        add_all(HistoryView::empty(Persistence::Disk(bound)), messages).entries == messages.skip(
            dropped(messages.len() as int, bound as int),
        ).map_values(pointer_entry()),
        add_all(HistoryView::empty(Persistence::Disk(bound)), messages).wf(),
        add_all(HistoryView::empty(Persistence::Disk(bound)), messages).persistence
            == Persistence::Disk(bound),
        forall|i: int|
            0 <= i < messages.len() ==> {
                let after = apply_ops(
                    store,
                    add_all_ops(HistoryView::empty(Persistence::Disk(bound)), messages),
                );
                if i < dropped(messages.len() as int, bound as int) {
                    !after.contains_key(#[trigger] messages[i].sequence)
                } else {
                    after.contains_key(messages[i].sequence) && after[messages[i].sequence]
                        == messages[i].content
                }
            },
        forall|i: int|
            0 <= i < dropped(messages.len() as int, bound as int) ==> add_all(
                HistoryView::empty(Persistence::Disk(bound)),
                messages,
            ).find(#[trigger] messages[i].sequence) is None,
    decreases messages.len(),
{
    let empty = HistoryView::empty(Persistence::Disk(bound));
    let n = messages.len() as int;
    let after = add_all(empty, messages);
    let expected = messages.skip(dropped(n, bound as int)).map_values(pointer_entry());
    if n == 0 {
        assert(after.entries =~= expected);
    } else {
        let shorter = messages.drop_last();
        assert(numbered_from_one(shorter)) by {
            assert forall|i: int| 0 <= i < shorter.len() implies (#[trigger] shorter[i]).sequence
                == i + 1 by {
                assert(shorter[i] == messages[i]);
            }
        }
        lemma_disk_evicts_oldest(bound, shorter, store);
        let before = add_all(empty, shorter);
        let last = messages.last();
        assert(before.entries.len() == n - 1 - dropped(n - 1, bound as int));
        lemma_window_step(messages, bound as int, pointer_entry(), before.entries, after.entries);
        let ops_before = add_all_ops(empty, shorter);
        let step = before.add_ops(last.sequence, last.content);
        let store_before = apply_ops(store, ops_before);
        lemma_apply_ops_concat(store, ops_before, step);
        let store_after = apply_ops(store, add_all_ops(empty, messages));
        assert(store_after == apply_ops(store_before, step));
        let put = StoreOpView::Put { key: last.sequence, value: last.content };
        if before.evicts() {
            let oldest = before.entries[0].sequence();
            let delete = StoreOpView::Delete { key: oldest };
            assert(step =~= seq![delete] + seq![put]);
            lemma_apply_ops_concat(store_before, seq![delete], seq![put]);
            lemma_apply_ops_one(store_before, delete);
            lemma_apply_ops_one(apply_op(store_before, delete), put);
            assert(store_after == store_before.remove(oldest).insert(last.sequence, last.content));
            assert(oldest == shorter[dropped(n - 1, bound as int)].sequence);
        } else {
            assert(step =~= seq![put]);
            lemma_apply_ops_one(store_before, put);
            assert(store_after == store_before.insert(last.sequence, last.content));
        }
        assert forall|i: int| 0 <= i < n implies if i < dropped(n, bound as int) {
            !store_after.contains_key(#[trigger] messages[i].sequence)
        } else {
            store_after.contains_key(messages[i].sequence) && store_after[messages[i].sequence]
                == messages[i].content
        } by {
            if i < n - 1 {
                assert(shorter[i] == messages[i]);
            }
        }
    }
    assert forall|i: int| 0 <= i < dropped(n, bound as int) implies after.find(
        #[trigger] messages[i].sequence,
    ) is None by {
        lemma_absent_is_not_found(after.entries, messages[i].sequence);
    }
}

/// A sequence number that no entry has is not found.
pub proof fn lemma_absent_is_not_found(entries: Seq<EntryView>, sequence: u64)
    requires
        forall|i: int| 0 <= i < entries.len() ==> (#[trigger] entries[i]).sequence() != sequence,
    ensures
        newest_with(entries, sequence) is None,
    decreases entries.len(),
{
    if entries.len() > 0 {
        assert(entries[entries.len() - 1].sequence() != sequence);
        assert forall|i: int| 0 <= i < entries.drop_last().len() implies (
        #[trigger] entries.drop_last()[i]).sequence() != sequence by {
            assert(entries.drop_last()[i] == entries[i]);
        }
        lemma_absent_is_not_found(entries.drop_last(), sequence);
    }
}

/// A history that retains nothing stays empty whatever is appended to it,
/// asks nothing of the store, and yields nothing from any sequence number.
pub proof fn lemma_ephemeral_retains_nothing(messages: Seq<MessageView>, start: u64)
    ensures
        add_all(HistoryView::empty(Persistence::Ephemeral), messages) == HistoryView::empty(
            Persistence::Ephemeral,
        ),
        add_all_ops(HistoryView::empty(Persistence::Ephemeral), messages) == Seq::<
            StoreOpView,
        >::empty(),
        add_all(HistoryView::empty(Persistence::Ephemeral), messages).read_from(start) == Seq::<
            EntryView,
        >::empty(),
    decreases messages.len(),
{
    reveal(Seq::filter);
    if messages.len() > 0 {
        lemma_ephemeral_retains_nothing(messages.drop_last(), start);
        assert(add_all_ops(HistoryView::empty(Persistence::Ephemeral), messages) =~= Seq::<
            StoreOpView,
        >::empty());
    }
}

/// Every well-formed history that retains nothing yields nothing.
pub proof fn lemma_ephemeral_reads_nothing(h: HistoryView, start: u64)
    requires
        h.wf(),
        h.persistence == Persistence::Ephemeral,
    ensures
        h.read_from(start) == Seq::<EntryView>::empty(),
{
    reveal(Seq::filter);
    assert(h.entries =~= Seq::<EntryView>::empty());
}

/// An append keeps a history within its tier and its bound.
pub proof fn lemma_history_stays_bounded(h: HistoryView, sequence: u64, content: Seq<u8>)
    requires
        h.wf(),
    ensures
        h.add(sequence, content).wf(),
        h.add(sequence, content).entries.len() <= h.limit(),
{
    let after = h.add(sequence, content);
    assert forall|i: int| 0 <= i < after.entries.len() implies (match after.persistence {
        Persistence::Ephemeral => false,
        Persistence::Memory(_) => (#[trigger] after.entries[i]) is Full,
        Persistence::Disk(_) => (#[trigger] after.entries[i]) is SequenceOnly,
    }) by {
        if i < after.entries.len() - 1 {
            if h.evicts() {
                assert(after.entries[i] == h.entries[i + 1]);
            } else {
                assert(after.entries[i] == h.entries[i]);
            }
        }
    }
}

/// Whatever a subscriber is asked to do, the sequence number up to which it
/// has received its topic never falls.
pub proof fn lemma_progress_never_falls(
    s: SubscriberView,
    request: PubSubRequestView,
    source: AddressView,
)
    ensures
        s.handle_request(request, source).0.subscription.last_received_seq
            >= s.subscription.last_received_seq,
{
}

/// One publish request as it reaches the publisher.
pub struct PublishedView {
    pub message: SequencedView,
    pub payload: Seq<u8>,
    pub now: u64,
}

/// The publisher after a run of publish requests from its parent, first to
/// last.
pub open spec fn publish_all(s: PublisherView, requests: Seq<PublishedView>) -> PublisherView
    decreases requests.len(),
{
    if requests.len() == 0 {
        s
    } else {
        let last = requests.last();
        publish_all(s, requests.drop_last()).publish(s.parent, last.message, last.payload, last.now).0
    }
}

/// A run of publish requests from the parent uses up one sequence number
/// each, without gaps: the request at index `i` is assigned the number that
/// is `i + 1` above the one the run started from, and that is the number in
/// the history and in every send of that step. From a new publisher the
/// numbers are 1, 2, 3 and so on.
pub proof fn lemma_sequences_are_consecutive(s: PublisherView, requests: Seq<PublishedView>)
    requires
        s.last_sequence + requests.len() <= u64::MAX,
    ensures
        publish_all(s, requests).last_sequence == s.last_sequence + requests.len(),
        publish_all(s, requests).parent == s.parent,
        forall|i: int|
            0 <= i < requests.len() ==> {
                let before = publish_all(s, #[trigger] requests.take(i));
                let step = before.publish(
                    s.parent,
                    requests[i].message,
                    requests[i].payload,
                    requests[i].now,
                );
                &&& before.last_sequence == s.last_sequence + i
                &&& step.0.last_sequence == s.last_sequence + i + 1
                &&& step.0.history == before.history.add(
                    (s.last_sequence + i + 1) as u64,
                    requests[i].payload,
                )
                &&& step.1 == Ok::<Seq<EffectView>, EngineError>(
                    store_effects(
                        before.history.add_ops(
                            (s.last_sequence + i + 1) as u64,
                            requests[i].payload,
                        ),
                    ) + before.fan_out(
                        requests[i].message.topic,
                        (s.last_sequence + i + 1) as u64,
                        requests[i].payload,
                    ),
                )
            },
    decreases requests.len(),
{
    if requests.len() > 0 {
        let shorter = requests.drop_last();
        lemma_sequences_are_consecutive(s, shorter);
        assert forall|i: int| 0 <= i < requests.len() implies {
            let before = publish_all(s, #[trigger] requests.take(i));
            let step = before.publish(
                s.parent,
                requests[i].message,
                requests[i].payload,
                requests[i].now,
            );
            &&& before.last_sequence == s.last_sequence + i
            &&& step.0.last_sequence == s.last_sequence + i + 1
            &&& step.0.history == before.history.add(
                (s.last_sequence + i + 1) as u64,
                requests[i].payload,
            )
            &&& step.1 == Ok::<Seq<EffectView>, EngineError>(
                store_effects(
                    before.history.add_ops((s.last_sequence + i + 1) as u64, requests[i].payload),
                ) + before.fan_out(
                    requests[i].message.topic,
                    (s.last_sequence + i + 1) as u64,
                    requests[i].payload,
                ),
            )
        } by {
            if i < requests.len() - 1 {
                assert(requests.take(i) =~= shorter.take(i));
                assert(requests[i] == shorter[i]);
            } else {
                assert(requests.take(i) =~= shorter);
            }
        }
    }
}

/// The payloads of a run of publish requests as messages, numbered on from
/// a sequence number.
pub open spec fn numbered(requests: Seq<PublishedView>, from: u64) -> Seq<MessageView> {
    Seq::new(
        requests.len(),
        |i: int| MessageView { sequence: (from + i + 1) as u64, content: requests[i].payload },
    )
}

/// The store operations of a run of publish requests from the parent, first
/// to last.
pub open spec fn publish_all_ops(s: PublisherView, requests: Seq<PublishedView>) -> Seq<
    StoreOpView,
>
    decreases requests.len(),
{
    if requests.len() == 0 {
        Seq::empty()
    } else {
        let before = publish_all(s, requests.drop_last());
        publish_all_ops(s, requests.drop_last()) + before.history.add_ops(
            (before.last_sequence + 1) as u64,
            requests.last().payload,
        )
    }
}

/// A run of publish requests from the parent appends its payloads to the
/// history, numbered on from where the publisher stood, and asks of the
/// store what those appends ask.
pub proof fn lemma_publishes_fill_history(s: PublisherView, requests: Seq<PublishedView>)
    requires
        s.last_sequence + requests.len() <= u64::MAX,
    ensures
        publish_all(s, requests).history == add_all(s.history, numbered(requests, s.last_sequence)),
        publish_all_ops(s, requests) == add_all_ops(
            s.history,
            numbered(requests, s.last_sequence),
        ),
        s.last_sequence == 0 ==> numbered_from_one(numbered(requests, s.last_sequence)),
    decreases requests.len(),
{
    let messages = numbered(requests, s.last_sequence);
    if requests.len() > 0 {
        let shorter = requests.drop_last();
        lemma_publishes_fill_history(s, shorter);
        lemma_sequences_are_consecutive(s, shorter);
        let before = publish_all(s, shorter);
        assert(messages.drop_last() =~= numbered(shorter, s.last_sequence));
        assert(messages.last() == MessageView {
            sequence: (s.last_sequence + requests.len()) as u64,
            content: requests.last().payload,
        });
        assert(before.last_sequence + 1 == s.last_sequence + requests.len());
    }
}

/// A new publisher of the memory tier with a bound of at least one retains,
/// after a run of publish requests from its parent, the newest payloads under
/// the sequence numbers that they were assigned; after one request more than
/// the bound, reading from the first sequence number yields all but the
/// first.
pub proof fn lemma_memory_publisher_keeps_newest(
    s: PublisherView,
    bound: u64,
    requests: Seq<PublishedView>,
)
    requires
        s.last_sequence == 0,
        s.history == HistoryView::empty(Persistence::Memory(bound)),
        bound >= 1,
        requests.len() <= u64::MAX,
    ensures
        publish_all(s, requests).history.read_from(1) == numbered(requests, 0).skip(
            dropped(requests.len() as int, bound as int),
        ).map_values(full_entry()),
{
    lemma_publishes_fill_history(s, requests);
    lemma_memory_keeps_newest(bound, numbered(requests, 0));
}

/// What holds of the request at index `i` of a run on a new publisher of
/// the disk tier, after the store operations of the run: where its sequence
/// number was dropped, the number is neither found in the history nor a key
/// of the store; else the store holds its payload under the number.
pub open spec fn stored_or_gone(
    s: PublisherView,
    bound: u64,
    requests: Seq<PublishedView>,
    store: Map<u64, Seq<u8>>,
    i: int,
) -> bool {
    let sequence = (i + 1) as u64;
    let after = apply_ops(store, publish_all_ops(s, requests));
    if i < dropped(requests.len() as int, bound as int) {
        &&& !after.contains_key(sequence)
        &&& publish_all(s, requests).history.find(sequence) is None
    } else {
        &&& after.contains_key(sequence)
        &&& after[sequence] == requests[i].payload
    }
}

/// A new publisher of the disk tier with a bound of at least one: after a
/// run of publish requests from its parent and the store operations that go
/// with them, a sequence number that was dropped is neither found in the
/// history nor a key of the store, whatever the store held before, and every
/// retained sequence number is a key of the store with its payload.
pub proof fn lemma_disk_publisher_evicts_oldest(
    s: PublisherView,
    bound: u64,
    requests: Seq<PublishedView>,
    store: Map<u64, Seq<u8>>,
)
    requires
        s.last_sequence == 0,
        s.history == HistoryView::empty(Persistence::Disk(bound)),
        bound >= 1,
        requests.len() <= u64::MAX,
    ensures
        forall|i: int|
            0 <= i < requests.len() ==> #[trigger] stored_or_gone(s, bound, requests, store, i),
{
    lemma_publishes_fill_history(s, requests);
    let messages = numbered(requests, 0);
    lemma_disk_evicts_oldest(bound, messages, store);
    assert forall|i: int| 0 <= i < requests.len() implies #[trigger] stored_or_gone(
        s,
        bound,
        requests,
        store,
        i,
    ) by {
        assert(messages[i].sequence == (i + 1) as u64);
        assert(messages[i].content == requests[i].payload);
    }
}

/// A subscribe request for a topic that the publisher does not serve is
/// answered with a failure and an error text that is not empty, and changes
/// nothing: the requester is a subscriber afterwards only if it was one
/// before.
pub proof fn lemma_subscribe_to_unserved_topic(
    s: PublisherView,
    source: AddressView,
    request: SubscribeRequestView,
    grant: Option<Seq<u8>>,
)
    requires
        request.topic != s.topic,
    ensures
        s.subscribe(source, request, grant).0 == s,
        s.subscribe(source, request, grant).1 == seq![
            subscribe_answer(false, request.topic, Some(mismatch_text(request.topic, s.topic))),
        ],
        mismatch_text(request.topic, s.topic).len() > 0,
{
    reveal_strlit("error: publisher does not have requested topic: ");
}

/// An unsubscribe request for the served topic from an address that is not
/// subscribed is answered with success and leaves the subscribers as they
/// are. Unsubscribing twice leaves the same subscribers as unsubscribing
/// once.
pub proof fn lemma_unsubscribe_is_idempotent(s: PublisherView, source: AddressView)
    requires
        s.wf(),
    ensures
        s.unsubscribe(source, s.topic).1 == seq![unsubscribe_answer(true, s.topic, None)],
        !s.is_subscribed(source) ==> s.unsubscribe(source, s.topic).0.subscribers == s.subscribers,
        !s.unsubscribe(source, s.topic).0.is_subscribed(source),
        s.unsubscribe(source, s.topic).0.unsubscribe(source, s.topic).0.subscribers
            == s.unsubscribe(source, s.topic).0.subscribers,
{
    if let Some(i) = position(s.subscribers, source) {
        lemma_remove_distinct(s.subscribers, by_address(), i);
    }
}

/// A publish request from any address but the parent has no effects and
/// leaves the state as it is: nothing is sent and nothing is appended to the
/// history.
pub proof fn lemma_publish_from_stranger(
    s: PublisherView,
    source: AddressView,
    message: SequencedView,
    payload: Seq<u8>,
    now: u64,
)
    requires
        source != s.parent,
    ensures
        s.publish(source, message, payload, now).0 == s,
        s.publish(source, message, payload, now).1 == Ok::<Seq<EffectView>, EngineError>(
            Seq::empty(),
        ),
{
}

/// Taking a record out registers nobody, and unregisters nobody but the one
/// whose record it was.
pub proof fn lemma_remove_keeps_others(
    records: Seq<SubscriberRecordView>,
    i: int,
    a: AddressView,
)
    requires
        distinct(records),
        0 <= i < records.len(),
    ensures
        position(records.remove(i), a) is Some ==> position(records, a) is Some,
        position(records, a) is Some && a != records[i].address ==> position(
            records.remove(i),
            a,
        ) is Some,
        position(records.remove(i), records[i].address) is None,
        distinct(records.remove(i)),
{
    let key = by_address();
    let after = records.remove(i);
    lemma_remove_distinct(records, key, i);
    if position(after, a) is Some {
        let c = choose|c: int| 0 <= c < after.len() && key(#[trigger] after[c]) == a;
        let c0 = if c < i {
            c
        } else {
            c + 1
        };
        assert(after[c] == records[c0]);
        assert(key(records[c0]) == a);
    }
    if position(records, a) is Some && a != records[i].address {
        let c = choose|c: int| 0 <= c < records.len() && key(#[trigger] records[c]) == a;
        assert(c != i);
        let c1 = if c < i {
            c
        } else {
            c - 1
        };
        assert(after[c1] == records[c]);
        assert(key(after[c1]) == a);
    }
}

/// What moving the silent subscribers offline does: no subscriber is
/// registered twice afterwards and none is new; no subscriber with an
/// exhausted message is left; and every subscriber that left is on the
/// offline list.
pub proof fn lemma_demote(
    records: Seq<SubscriberRecordView>,
    offline: Seq<OfflineView>,
    pending: Seq<PendingAckView>,
    config: PublisherConfig,
    now: u64,
)
    requires
        distinct(records),
    ensures
        distinct(demote(records, offline, pending, config, now).0),
        forall|a: AddressView| #[trigger]
            position(demote(records, offline, pending, config, now).0, a) is Some
                ==> position(records, a) is Some,
        forall|k: int|
            0 <= k < pending.len() && exhausted(pending[k], config, now)
                ==> position(
                demote(records, offline, pending, config, now).0,
                (#[trigger] pending[k]).subscriber,
            ) is None,
        forall|a: AddressView|
            position(records, a) is Some && #[trigger] position(
                demote(records, offline, pending, config, now).0,
                a,
            ) is None ==> is_offline(
                demote(records, offline, pending, config, now).1,
                a,
            ),
        forall|a: AddressView|
            is_offline(offline, a) ==> #[trigger] is_offline(
                demote(records, offline, pending, config, now).1,
                a,
            ),
    decreases pending.len(),
{
    let after = demote(records, offline, pending, config, now);
    if pending.len() > 0 {
        let shorter = pending.drop_last();
        let p = pending.last();
        lemma_demote(records, offline, shorter, config, now);
        let before = demote(records, offline, shorter, config, now);
        let moved = position(before.0, p.subscriber) is Some && exhausted(
            p,
            config,
            now,
        );
        if moved {
            let i = position(before.0, p.subscriber)->0;
            let gone = OfflineView {
                address: p.subscriber,
                retry_count: p.retry_count as u64,
            };
            assert(after.0 == before.0.remove(i));
            assert(after.1 == before.1.push(gone));
            assert(before.0[i].address == p.subscriber);
            assert forall|a: AddressView| #[trigger]
                position(after.0, a) is Some implies position(records, a) is Some by {
                lemma_remove_keeps_others(before.0, i, a);
            }
            assert forall|a: AddressView|
                position(records, a) is Some && #[trigger] position(
                    after.0,
                    a,
                ) is None implies is_offline(after.1, a) by {
                lemma_remove_keeps_others(before.0, i, a);
                if a == p.subscriber {
                    assert(after.1[after.1.len() - 1].address == a);
                } else {
                    assert(position(before.0, a) is None);
                    assert(is_offline(before.1, a));
                    lemma_offline_stays(before.1, gone, a);
                }
            }
            assert forall|a: AddressView| is_offline(offline, a) implies #[trigger] is_offline(
                after.1,
                a,
            ) by {
                assert(is_offline(before.1, a));
                lemma_offline_stays(before.1, gone, a);
            }
            lemma_remove_keeps_others(before.0, i, p.subscriber);
            assert forall|k: int|
                0 <= k < pending.len() && exhausted(
                    pending[k],
                    config,
                    now,
                ) implies position(after.0, (#[trigger] pending[k]).subscriber) is None by {
                lemma_remove_keeps_others(before.0, i, pending[k].subscriber);
                if k < pending.len() - 1 {
                    assert(shorter[k] == pending[k]);
                }
            }
        } else {
            assert(after == before);
            assert forall|k: int|
                0 <= k < pending.len() && exhausted(
                    pending[k],
                    config,
                    now,
                ) implies position(after.0, (#[trigger] pending[k]).subscriber) is None by {
                if k < pending.len() - 1 {
                    assert(shorter[k] == pending[k]);
                }
            }
        }
    }
}

/// An address that is on an offline list is on it after another entry has
/// been appended.
pub proof fn lemma_offline_stays(
    offline: Seq<OfflineView>,
    entry: OfflineView,
    a: AddressView,
)
    requires
        is_offline(offline, a),
    ensures
        is_offline(offline.push(entry), a),
{
    let j = choose|j: int| 0 <= j < offline.len() && (#[trigger] offline[j]).address == a;
    assert(offline.push(entry)[j].address == a);
}

/// Whether an address is on an offline list.
pub open spec fn is_offline(offline: Seq<OfflineView>, a: AddressView) -> bool {
    exists|j: int| 0 <= j < offline.len() && (#[trigger] offline[j]).address == a
}

/// A subscriber that has left a message unconfirmed for longer than the
/// retry interval after all its retries is, after the next tick, no
/// subscriber any more but on the offline list, and no later message is sent
/// to it, until it subscribes again.
pub proof fn lemma_silent_subscriber_goes_offline(s: PublisherView, now: u64, k: int)
    requires
        s.wf(),
        0 <= k < s.pending.len(),
        exhausted(s.pending[k], s.config, now),
        s.is_subscribed(s.pending[k].subscriber),
    ensures
        !s.tick(now).0.is_subscribed(s.pending[k].subscriber),
        is_offline(s.tick(now).0.offline, s.pending[k].subscriber),
        forall|topic: Seq<char>, sequence: u64, payload: Seq<u8>, i: int|
            0 <= i < s.tick(now).0.subscribers.len() ==> (#[trigger] s.tick(now).0.fan_out(
                topic,
                sequence,
                payload,
            )[i]) != publish_effect(
                SubscriberRecordView {
                    address: s.pending[k].subscriber,
                    grant: s.tick(now).0.subscribers[i].grant,
                },
                topic,
                sequence,
                PayloadView::Inline(payload),
            ),
{
    lemma_demote(s.subscribers, s.offline, s.pending, s.config, now);
    let after = s.tick(now).0;
    let gone = s.pending[k].subscriber;
    assert(position(after.subscribers, gone) is None);
    assert forall|topic: Seq<char>, sequence: u64, payload: Seq<u8>, i: int|
        0 <= i < after.subscribers.len() implies (#[trigger] after.fan_out(
        topic,
        sequence,
        payload,
    )[i]) != publish_effect(
        SubscriberRecordView { address: gone, grant: after.subscribers[i].grant },
        topic,
        sequence,
        PayloadView::Inline(payload),
    ) by {
        if after.subscribers[i].address == gone {
            assert(by_address()(after.subscribers[i]) == gone);
        }
    }
}

/// Subscribing to the served topic makes the requester a subscriber and
/// takes it off the offline list.
pub proof fn lemma_subscribe_brings_back(
    s: PublisherView,
    source: AddressView,
    request: SubscribeRequestView,
    grant: Option<Seq<u8>>,
)
    requires
        s.wf(),
        request.topic == s.topic,
    ensures
        s.subscribe(source, request, grant).0.is_subscribed(source),
        !is_offline(s.subscribe(source, request, grant).0.offline, source),
{
    let after = s.subscribe(source, request, grant).0;
    let key = by_address();
    let record = SubscriberRecordView { address: source, grant };
    match position(s.subscribers, source) {
        Some(i) => {
            assert(key(after.subscribers[i]) == source);
        },
        None => {
            assert(key(after.subscribers[after.subscribers.len() - 1]) == source);
        },
    }
    if is_offline(after.offline, source) {
        let j = choose|j: int| 0 <= j < after.offline.len() && (#[trigger] after.offline[j]).address == source;
        s.offline.lemma_filter_pred(not_offline_of(source), j);
    }
}

} // verus!
