//! Stable ordering of records by a text key (their name): the insertion
//! sort that the listings use, and its laws.
use vstd::prelude::*;
use crate::text::{lemma_seq_lt_asym, lemma_seq_lt_trans, seq_lt};

verus! {

/// Where `x` goes in `sorted` to keep it ordered by `key`: after every
/// element whose key is not greater.
pub open spec fn key_insert_pos<T>(sorted: Seq<T>, x: T, key: spec_fn(T) -> Seq<char>) -> int
    decreases sorted.len(),
{
    if sorted.len() == 0 {
        0
    } else if seq_lt(key(x), key(sorted[0])) {
        0
    } else {
        1 + key_insert_pos(sorted.drop_first(), x, key)
    }
}

/// `s` stably sorted by `key` (what `sort_by(|a, b| key(a).cmp(key(b)))`
/// gives).
pub open spec fn sort_by_key_s<T>(s: Seq<T>, key: spec_fn(T) -> Seq<char>) -> Seq<T>
    decreases s.len(),
{
    if s.len() == 0 {
        s
    } else {
        let rest = sort_by_key_s(s.drop_last(), key);
        rest.insert(key_insert_pos(rest, s.last(), key), s.last())
    }
}

/// No element comes after one whose key is greater.
pub open spec fn ordered_by_key<T>(s: Seq<T>, key: spec_fn(T) -> Seq<char>) -> bool {
    forall|i: int, j: int| 0 <= i < j < s.len() ==> !seq_lt(key(#[trigger] s[j]), key(#[trigger] s[i]))
}

/// The insertion point is the first element with a greater key.
pub proof fn lemma_key_insert_pos<T>(sorted: Seq<T>, x: T, key: spec_fn(T) -> Seq<char>, k: int)
    requires
        0 <= k <= sorted.len(),
        forall|j: int| 0 <= j < k ==> !seq_lt(key(x), key(#[trigger] sorted[j])),
        k < sorted.len() ==> seq_lt(key(x), key(sorted[k])),
    ensures
        key_insert_pos(sorted, x, key) == k,
    decreases sorted.len(),
{
    if sorted.len() > 0 && k > 0 {
        assert(!seq_lt(key(x), key(sorted[0])));
        assert forall|j: int| 0 <= j < k - 1 implies !seq_lt(
            key(x),
            key(#[trigger] sorted.drop_first()[j]),
        ) by {
            assert(sorted.drop_first()[j] == sorted[j + 1]);
        }
        lemma_key_insert_pos(sorted.drop_first(), x, key, k - 1);
    }
}

proof fn lemma_key_insert_pos_spec<T>(sorted: Seq<T>, x: T, key: spec_fn(T) -> Seq<char>)
    ensures
        0 <= key_insert_pos(sorted, x, key) <= sorted.len(),
        forall|j: int|
            0 <= j < key_insert_pos(sorted, x, key) ==> !seq_lt(key(x), key(#[trigger] sorted[j])),
        key_insert_pos(sorted, x, key) < sorted.len() ==> seq_lt(
            key(x),
            key(sorted[key_insert_pos(sorted, x, key)]),
        ),
    decreases sorted.len(),
{
    if sorted.len() > 0 && !seq_lt(key(x), key(sorted[0])) {
        lemma_key_insert_pos_spec(sorted.drop_first(), x, key);
        assert forall|j: int| 0 <= j < key_insert_pos(sorted, x, key) implies !seq_lt(
            key(x),
            key(#[trigger] sorted[j]),
        ) by {
            if j > 0 {
                assert(sorted[j] == sorted.drop_first()[j - 1]);
            }
        }
    }
}

proof fn lemma_insert_keeps_order<T>(sorted: Seq<T>, x: T, key: spec_fn(T) -> Seq<char>)
    requires
        ordered_by_key(sorted, key),
    ensures
        ordered_by_key(sorted.insert(key_insert_pos(sorted, x, key), x), key),
{
    lemma_key_insert_pos_spec(sorted, x, key);
    let k = key_insert_pos(sorted, x, key);
    let t = sorted.insert(k, x);
    assert forall|i: int, j: int| 0 <= i < j < t.len() implies !seq_lt(
        key(#[trigger] t[j]),
        key(#[trigger] t[i]),
    ) by {
        if j < k {
            assert(t[i] == sorted[i] && t[j] == sorted[j]);
        } else if j == k {
            assert(t[i] == sorted[i]);
        } else if i < k {
            assert(t[i] == sorted[i] && t[j] == sorted[j - 1]);
        } else if i == k {
            assert(t[j] == sorted[j - 1]);
            if seq_lt(key(sorted[j - 1]), key(x)) {
                if j - 1 == k {
                    lemma_seq_lt_asym(key(x), key(sorted[k]));
                } else {
                    lemma_seq_lt_trans(key(sorted[j - 1]), key(x), key(sorted[k]));
                }
            }
        } else {
            assert(t[i] == sorted[i - 1] && t[j] == sorted[j - 1]);
        }
    }
}

/// Sorting by a key orders the elements by it and keeps every element: the
/// result is a rearrangement of the input, of the same length.
pub proof fn law_sort_by_key<T>(s: Seq<T>, key: spec_fn(T) -> Seq<char>)
    ensures
        ordered_by_key(sort_by_key_s(s, key), key),
        sort_by_key_s(s, key).to_multiset() == s.to_multiset(),
        sort_by_key_s(s, key).len() == s.len(),
    decreases s.len(),
{
    if s.len() == 0 {
        assert(sort_by_key_s(s, key) =~= s);
    } else {
        let rest = sort_by_key_s(s.drop_last(), key);
        law_sort_by_key(s.drop_last(), key);
        lemma_insert_keeps_order(rest, s.last(), key);
        lemma_key_insert_pos_spec(rest, s.last(), key);
        vstd::seq_lib::to_multiset_insert(rest, key_insert_pos(rest, s.last(), key), s.last());
        vstd::seq_lib::to_multiset_build(s.drop_last(), s.last());
        assert(s.drop_last().push(s.last()) =~= s);
    }
}

/// Sorting a sequence that is already ordered changes nothing.
pub proof fn law_sort_by_key_sorted<T>(s: Seq<T>, key: spec_fn(T) -> Seq<char>)
    requires
        ordered_by_key(s, key),
    ensures
        sort_by_key_s(s, key) == s,
    decreases s.len(),
{
    if s.len() > 0 {
        let pre = s.drop_last();
        assert(ordered_by_key(pre, key)) by {
            assert forall|i: int, j: int| 0 <= i < j < pre.len() implies !seq_lt(
                key(#[trigger] pre[j]),
                key(#[trigger] pre[i]),
            ) by {
                assert(pre[i] == s[i] && pre[j] == s[j]);
            }
        }
        law_sort_by_key_sorted(pre, key);
        assert forall|j: int| 0 <= j < pre.len() implies !seq_lt(
            key(s.last()),
            key(#[trigger] pre[j]),
        ) by {
            assert(pre[j] == s[j]);
        }
        lemma_key_insert_pos(pre, s.last(), key, pre.len() as int);
        assert(pre.insert(pre.len() as int, s.last()) =~= s);
    }
}

} // verus!
