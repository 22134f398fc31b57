//! Small facts about sequences that the engines' loops rest on.

use vstd::prelude::*;

verus! {

/// Filtering one element more: the filter of the longer prefix is the filter
/// of the shorter one, with the new element behind it where it passes.
pub proof fn lemma_filter_step<A>(s: Seq<A>, pred: spec_fn(A) -> bool, i: int)
    requires
        0 <= i < s.len(),
    ensures
        s.take(i + 1).filter(pred) == if pred(s[i]) {
            s.take(i).filter(pred).push(s[i])
        } else {
            s.take(i).filter(pred)
        },
{
    reveal(Seq::filter);
    assert(s.take(i + 1).drop_last() =~= s.take(i));
    assert(s.take(i + 1).last() == s[i]);
}

/// The filter of nothing is nothing.
pub proof fn lemma_filter_empty<A>(pred: spec_fn(A) -> bool)
    ensures
        Seq::<A>::empty().filter(pred) == Seq::<A>::empty(),
{
    reveal(Seq::filter);
}

/// No two elements of the sequence have the same key.
pub open spec fn distinct_by<A, K>(s: Seq<A>, key: spec_fn(A) -> K) -> bool {
    forall|i: int, j: int| 0 <= i < j < s.len() ==> key(#[trigger] s[i]) != key(#[trigger] s[j])
}

/// The index of the element with a key, if there is one.
pub open spec fn index_by<A, K>(s: Seq<A>, key: spec_fn(A) -> K, k: K) -> Option<int> {
    if exists|i: int| 0 <= i < s.len() && key(#[trigger] s[i]) == k {
        Some(choose|i: int| 0 <= i < s.len() && key(#[trigger] s[i]) == k)
    } else {
        None
    }
}

/// Where keys are distinct, the element with a key is found at one index
/// only.
pub proof fn lemma_index_by_unique<A, K>(s: Seq<A>, key: spec_fn(A) -> K, k: K, i: int)
    requires
        distinct_by(s, key),
        0 <= i < s.len(),
        key(s[i]) == k,
    ensures
        index_by(s, key, k) == Some(i),
{
    let c = choose|c: int| 0 <= c < s.len() && key(#[trigger] s[c]) == k;
    if c < i {
        assert(key(s[c]) != key(s[i]));
    } else if i < c {
        assert(key(s[i]) != key(s[c]));
    }
}

/// Taking an element out keeps keys distinct.
pub proof fn lemma_remove_distinct<A, K>(s: Seq<A>, key: spec_fn(A) -> K, i: int)
    requires
        distinct_by(s, key),
        0 <= i < s.len(),
    ensures
        distinct_by(s.remove(i), key),
        index_by(s.remove(i), key, key(s[i])) is None,
{
    let t = s.remove(i);
    assert forall|a: int, b: int| 0 <= a < b < t.len() implies key(#[trigger] t[a]) != key(
        #[trigger] t[b],
    ) by {
        let a0 = if a < i { a } else { a + 1 };
        let b0 = if b < i { b } else { b + 1 };
        assert(t[a] == s[a0]);
        assert(t[b] == s[b0]);
        assert(key(s[a0]) != key(s[b0]));
    }
    if exists|c: int| 0 <= c < t.len() && key(#[trigger] t[c]) == key(s[i]) {
        let c = choose|c: int| 0 <= c < t.len() && key(#[trigger] t[c]) == key(s[i]);
        let c0 = if c < i { c } else { c + 1 };
        assert(t[c] == s[c0]);
        if c0 < i {
            assert(key(s[c0]) != key(s[i]));
        } else {
            assert(key(s[i]) != key(s[c0]));
        }
    }
}

/// Replacing an element by one with the same key keeps keys distinct.
pub proof fn lemma_update_distinct<A, K>(s: Seq<A>, key: spec_fn(A) -> K, i: int, a: A)
    requires
        distinct_by(s, key),
        0 <= i < s.len(),
        key(a) == key(s[i]),
    ensures
        distinct_by(s.update(i, a), key),
{
    let t = s.update(i, a);
    assert forall|x: int, y: int| 0 <= x < y < t.len() implies key(#[trigger] t[x]) != key(
        #[trigger] t[y],
    ) by {
        assert(key(t[x]) == key(s[x]));
        assert(key(t[y]) == key(s[y]));
        assert(key(s[x]) != key(s[y]));
    }
}

/// Appending an element with a new key keeps keys distinct.
pub proof fn lemma_push_distinct<A, K>(s: Seq<A>, key: spec_fn(A) -> K, a: A)
    requires
        distinct_by(s, key),
        index_by(s, key, key(a)) is None,
    ensures
        distinct_by(s.push(a), key),
{
    let t = s.push(a);
    assert forall|x: int, y: int| 0 <= x < y < t.len() implies key(#[trigger] t[x]) != key(
        #[trigger] t[y],
    ) by {
        if y < s.len() {
            assert(key(s[x]) != key(s[y]));
        } else {
            assert(t[x] == s[x]);
            if key(s[x]) == key(a) {
                assert(0 <= x < s.len() && key(s[x]) == key(a));
            }
        }
    }
}

} // verus!
