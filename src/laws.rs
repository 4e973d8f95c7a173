//! Properties that hold over sequences of operations.
use vstd::prelude::*;
use crate::entries::{Entry, unique_keys, has_key, key_index, lookup, upsert, lemma_upsert_unique};
use crate::leaderboard::{board_insert, min_index, min_score, lemma_min_index, lemma_remove_unique};
use crate::queue::{enqueue_spec, enqueue_all};
use crate::store::{store_insert, store_reset};

verus! {

/// The largest of `vals`, and zero for none.
pub open spec fn seq_max(vals: Seq<u128>) -> u128
    decreases vals.len(),
{
    if vals.len() == 0 {
        0
    } else {
        let m = seq_max(vals.drop_last());
        if m < vals.last() {
            vals.last()
        } else {
            m
        }
    }
}

/// The store after `a` submits each of `vals` in turn.
pub open spec fn store_insert_all(s: Seq<Entry>, a: Seq<char>, vals: Seq<u128>) -> Seq<Entry>
    decreases vals.len(),
{
    if vals.len() == 0 {
        s
    } else {
        store_insert(store_insert_all(s, a, vals.drop_last()), a, vals.last())
    }
}

/// The board after each of `items` is submitted in turn, with room for `cap`.
pub open spec fn board_insert_all(s: Seq<Entry>, cap: nat, items: Seq<Entry>) -> Seq<Entry>
    decreases items.len(),
{
    if items.len() == 0 {
        s
    } else {
        let t = board_insert_all(s, cap, items.drop_last());
        board_insert(t, cap, items.last().0, items.last().1)
    }
}

/// After submissions `vals`, an account's best score is the larger of what
/// it had and the largest of `vals`.
pub proof fn lemma_store_insert_all(s: Seq<Entry>, a: Seq<char>, vals: Seq<u128>)
    requires
        unique_keys(s),
    ensures
        unique_keys(store_insert_all(s, a, vals)),
        lookup(store_insert_all(s, a, vals), a) == (if vals.len() == 0 {
            lookup(s, a)
        } else {
            match lookup(s, a) {
                Some(b) => Some(if b < seq_max(vals) {
                    seq_max(vals)
                } else {
                    b
                }),
                None => Some(seq_max(vals)),
            }
        }),
    decreases vals.len(),
{
    if vals.len() > 0 {
        let t = store_insert_all(s, a, vals.drop_last());
        lemma_store_insert_all(s, a, vals.drop_last());
        lemma_upsert_unique(t, a, vals.last());
    }
}

/// An account that had no score holds the largest of the values it
/// submitted.
pub proof fn lemma_best_score_is_max(s: Seq<Entry>, a: Seq<char>, vals: Seq<u128>)
    requires
        unique_keys(s),
        !has_key(s, a),
        vals.len() > 0,
    ensures
        lookup(store_insert_all(s, a, vals), a) == Some(seq_max(vals)),
{
    lemma_store_insert_all(s, a, vals);
}

/// After a reset an account's score is zero, and after further submissions
/// it is the largest of them.
pub proof fn lemma_reset_then_max(s: Seq<Entry>, a: Seq<char>, vals: Seq<u128>)
    requires
        unique_keys(s),
    ensures
        lookup(store_reset(s, a), a) == Some(0u128),
        lookup(store_insert_all(store_reset(s, a), a, vals), a) == Some(seq_max(vals)),
{
    lemma_upsert_unique(s, a, 0);
    lemma_store_insert_all(store_reset(s, a), a, vals);
}

/// A board within its capacity stays within it, and keeps one record per
/// account, whatever is submitted.
pub proof fn lemma_board_within_capacity(s: Seq<Entry>, cap: nat, items: Seq<Entry>)
    requires
        unique_keys(s),
        s.len() <= cap,
    ensures
        board_insert_all(s, cap, items).len() <= cap,
        unique_keys(board_insert_all(s, cap, items)),
    decreases items.len(),
{
    if items.len() > 0 {
        let t = board_insert_all(s, cap, items.drop_last());
        lemma_board_within_capacity(s, cap, items.drop_last());
        let (a, v) = items.last();
        lemma_upsert_unique(t, a, v);
        if t.len() >= cap && t.len() > 0 && min_score(t) < v {
            lemma_min_index(t);
            lemma_remove_unique(t, min_index(t));
            lemma_upsert_unique(t.remove(min_index(t)), a, v);
        }
    }
}

/// At capacity, a score no higher than every record leaves the board as it
/// was.
pub proof fn lemma_rejected_challenger(s: Seq<Entry>, cap: nat, a: Seq<char>, v: u128)
    requires
        s.len() >= cap,
        forall|j: int| 0 <= j < s.len() ==> v <= #[trigger] s[j].1,
    ensures
        board_insert(s, cap, a, v) == s,
{
    if s.len() > 0 {
        lemma_min_index(s);
    }
}

/// At capacity, a score above the lowest replaces exactly the lowest
/// record (the first of equal ones), provided the submitting account holds
/// no other record; every record left is at least the old lowest, and above
/// it where the lowest was unique.
pub proof fn lemma_challenger_replaces_minimum(s: Seq<Entry>, cap: nat, a: Seq<char>, v: u128)
    requires
        unique_keys(s),
        s.len() >= cap,
        s.len() > 0,
        min_score(s) < v,
        !has_key(s, a) || s[min_index(s)].0 == a,
    ensures
        board_insert(s, cap, a, v) == s.remove(min_index(s)).push((a, v)),
        board_insert(s, cap, a, v).len() == s.len(),
        forall|j: int|
            0 <= j < s.len() ==> min_score(s) <= #[trigger] board_insert(s, cap, a, v)[j].1,
        (forall|j: int| 0 <= j < s.len() && j != min_index(s) ==> min_score(s) < #[trigger] s[j].1)
            ==> (forall|j: int|
            0 <= j < s.len() ==> min_score(s) < #[trigger] board_insert(s, cap, a, v)[j].1),
{
    lemma_min_index(s);
    let m = min_index(s);
    let t = s.remove(m);
    assert forall|j: int| 0 <= j < t.len() implies t[j] == s[if j < m { j } else { j + 1 }] by {}
    if has_key(t, a) {
        let k = key_index(t, a);
        let sk = if k < m { k } else { k + 1 };
        assert(s[sk].0 == a);
        assert(false);
    }
    assert(upsert(t, a, v) == t.push((a, v)));
}

/// A queue filled from empty holds each account that asked exactly once,
/// and nothing else.
pub proof fn lemma_queue_holds_each_once(accounts: Seq<Seq<char>>)
    ensures
        enqueue_all(Seq::empty(), accounts).no_duplicates(),
        forall|x: Seq<char>|
            #[trigger] enqueue_all(Seq::empty(), accounts).contains(x) <==> accounts.contains(x),
    decreases accounts.len(),
{
    if accounts.len() > 0 {
        let init = accounts.drop_last();
        lemma_queue_holds_each_once(init);
        let q = enqueue_all(Seq::empty(), init);
        let x = accounts.last();
        assert(accounts =~= init.push(x));
        assert forall|y: Seq<char>| #[trigger] enqueue_spec(q, x).contains(y) <==> accounts.contains(
            y,
        ) by {
            lemma_push_contains(init, x, y);
            lemma_push_contains(q, x, y);
        }
    }
}

proof fn lemma_push_contains(s: Seq<Seq<char>>, x: Seq<char>, y: Seq<char>)
    ensures
        s.push(x).contains(y) <==> (s.contains(y) || y == x),
{
    if s.contains(y) {
        let i = choose|i: int| 0 <= i < s.len() && s[i] == y;
        assert(s.push(x)[i] == y);
    }
    if y == x {
        assert(s.push(x)[s.len() as int] == y);
    }
    if s.push(x).contains(y) && y != x {
        let i = choose|i: int| 0 <= i < s.len() + 1 && s.push(x)[i] == y;
        assert(s[i] == y);
    }
}

} // verus!
