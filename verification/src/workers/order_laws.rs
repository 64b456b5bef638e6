//! Laws of the order stage.

use vstd::prelude::*;
use crate::message::client_message::{advance, ClientLogMessage};
use super::order_messages::{
    due, due_ids, lemma_run_splits, order_state_wf, run_length, take_in, take_in_all, OrderState,
};

verus! {

/// A run never reaches past the largest id.
pub proof fn lemma_run_is_bounded<M>(pending: Map<u32, M>, next: u32)
    ensures
        next + run_length(pending, next) <= 0x1_0000_0000,
    decreases u32::MAX - next,
{
    if pending.contains_key(next) && next < u32::MAX {
        lemma_run_is_bounded(pending, (next + 1) as u32);
    }
}

/// Every id of a run has a message that waits, and the id behind the run,
/// if there is one, has none.
pub proof fn lemma_run_members<M>(pending: Map<u32, M>, next: u32)
    ensures
        forall|k: u32|
            next <= k < next + run_length(pending, next) ==> #[trigger] pending.contains_key(k),
        next + run_length(pending, next) < 0x1_0000_0000 ==> !pending.contains_key(
            (next + run_length(pending, next)) as u32,
        ),
    decreases u32::MAX - next,
{
    if pending.contains_key(next) && next < u32::MAX {
        lemma_run_members(pending, (next + 1) as u32);
    }
}

/// Taking in messages keeps the state one that the stage can be in, and
/// leaves the next expected id as it is.
pub proof fn lemma_received_wf<K, V>(
    state: OrderState<ClientLogMessage<K, V>>,
    batch: Seq<ClientLogMessage<K, V>>,
)
    requires
        order_state_wf(state),
    ensures
        order_state_wf(state.received(batch)),
        state.received(batch).next == state.next,
    decreases batch.len(),
{
    if batch.len() > 0 {
        lemma_received_wf(state, batch.drop_last());
    }
}

/// Handing on what is due keeps the state one that the stage can be in, and
/// leaves no message waiting under the next expected id.
pub proof fn lemma_released_wf<K, V>(state: OrderState<ClientLogMessage<K, V>>)
    requires
        order_state_wf(state),
    ensures
        order_state_wf(state.released()),
        !state.released().pending.contains_key(state.released().next),
{
    lemma_run_is_bounded(state.pending, state.next);
    lemma_run_members(state.pending, state.next);
    let run = run_length(state.pending, state.next);
    let after = state.released();
    assert(after.pending.dom() =~= state.pending.dom().difference(
        due_ids(state.pending, state.next),
    ));
    assert forall|k: u32| #[trigger] after.pending.contains_key(k) implies k >= after.next
        && after.pending[k].message_id.0 == k by {
        assert(state.pending.contains_key(k));
        assert(!due_ids(state.pending, state.next).contains(k));
    }
    if state.next + run < 0x1_0000_0000 {
        assert(after.next == state.next + run);
    } else {
        assert(after.next == 0);
        if after.pending.contains_key(0) {
            assert(state.pending.contains_key(0));
            assert(due_ids(state.pending, state.next).contains(0));
        }
    }
}

/// What is due carries consecutive ids, the first of them the next expected
/// one.
pub proof fn lemma_due_is_consecutive<K, V>(state: OrderState<ClientLogMessage<K, V>>)
    requires
        order_state_wf(state),
    ensures
        forall|i: int|
            0 <= i < due(state.pending, state.next).len() ==> (#[trigger] due(
                state.pending,
                state.next,
            )[i]).message_id.0 == advance(state.next, i as nat),
{
    lemma_run_is_bounded(state.pending, state.next);
    lemma_run_members(state.pending, state.next);
    let run = due(state.pending, state.next);
    assert forall|i: int| 0 <= i < run.len() implies (#[trigger] run[i]).message_id.0 == advance(
        state.next,
        i as nat,
    ) by {
        let k = (state.next + i) as u32;
        assert(state.pending.contains_key(k));
    }
}

/// Moving on by `a` and then by `b` is moving on by `a + b`.
pub proof fn lemma_advance_adds(id: u32, a: nat, b: nat)
    ensures
        advance(advance(id, a), b) == advance(id, a + b),
{
    let m = 0x1_0000_0000int;
    let x = id as int + a as int;
    assert(((x % m) + b as int) % m == (x + b as int) % m) by {
        vstd::arithmetic::div_mod::lemma_add_mod_noop(x, b as int, m);
        vstd::arithmetic::div_mod::lemma_mod_twice(x, m);
        vstd::arithmetic::div_mod::lemma_add_mod_noop(x % m, b as int, m);
    }
}

/// The ids that the order stage hands on are consecutive and start at the id
/// that the stage expected first: whatever batches arrive, and in whatever
/// order their messages stand, the `i`-th message handed on since the state
/// `state` carries the id that lies `i` steps behind `state.next`, and the
/// next expected id moves on by the number of messages handed on.
pub proof fn lemma_order_hands_on_consecutive_ids<K, V>(
    state: OrderState<ClientLogMessage<K, V>>,
    batches: Seq<Seq<ClientLogMessage<K, V>>>,
)
    requires
        order_state_wf(state),
    ensures
        order_state_wf(state.after_all(batches)),
        state.after_all(batches).next == advance(state.next, state.handed_on_all(batches).len()),
        forall|i: int|
            0 <= i < state.handed_on_all(batches).len() ==> (#[trigger] state.handed_on_all(
                batches,
            )[i]).message_id.0 == advance(state.next, i as nat),
    decreases batches.len(),
{
    if batches.len() == 0 {
    } else {
        let earlier = batches.drop_last();
        lemma_order_hands_on_consecutive_ids(state, earlier);
        let mid = state.after_all(earlier);
        let got = mid.received(batches.last());
        lemma_received_wf(mid, batches.last());
        lemma_released_wf(got);
        lemma_due_is_consecutive(got);
        let first = state.handed_on_all(earlier);
        let second = mid.handed_on(batches.last());
        let all = state.handed_on_all(batches);
        assert(all == first + second);
        lemma_advance_adds(state.next, first.len(), second.len());
        assert forall|i: int| 0 <= i < all.len() implies (#[trigger] all[i]).message_id.0
            == advance(state.next, i as nat) by {
            if i >= first.len() {
                let j = i - first.len();
                assert(all[i] == second[j]);
                lemma_advance_adds(state.next, first.len(), j as nat);
            }
        }
    }
}

/// Handling the messages of a batch one by one hands on consecutive ids too,
/// from the next expected id on.
pub proof fn lemma_each_hands_on_consecutive_ids<K, V>(
    state: OrderState<ClientLogMessage<K, V>>,
    batch: Seq<ClientLogMessage<K, V>>,
)
    requires
        order_state_wf(state),
    ensures
        order_state_wf(state.after_each(batch)),
        state.after_each(batch).next == advance(state.next, state.handed_on_each(batch).len()),
        forall|i: int|
            0 <= i < state.handed_on_each(batch).len() ==> (#[trigger] state.handed_on_each(
                batch,
            )[i]).message_id.0 == advance(state.next, i as nat),
    decreases batch.len(),
{
    if batch.len() == 0 {
    } else {
        let earlier = batch.drop_last();
        lemma_each_hands_on_consecutive_ids(state, earlier);
        let mid = state.after_each(earlier);
        let got = mid.received(seq![batch.last()]);
        lemma_received_wf(mid, seq![batch.last()]);
        lemma_released_wf(got);
        lemma_due_is_consecutive(got);
        let first = state.handed_on_each(earlier);
        let second = mid.handed_on(seq![batch.last()]);
        let all = state.handed_on_each(batch);
        assert(all == first + second);
        lemma_advance_adds(state.next, first.len(), second.len());
        assert forall|i: int| 0 <= i < all.len() implies (#[trigger] all[i]).message_id.0
            == advance(state.next, i as nat) by {
            if i >= first.len() {
                let j = i - first.len();
                assert(all[i] == second[j]);
                lemma_advance_adds(state.next, first.len(), j as nat);
            }
        }
    }
}

/// Where every id from `next` up to `until` has a message that waits, the
/// run from `next` reaches `until`.
pub proof fn lemma_run_reaches<M>(pending: Map<u32, M>, next: u32, until: u32)
    requires
        next <= until,
        forall|k: u32| next <= k < until ==> #[trigger] pending.contains_key(k),
    ensures
        run_length(pending, next) >= until - next,
    decreases until - next,
{
    if next < until {
        assert(pending.contains_key(next));
        lemma_run_reaches(pending, (next + 1) as u32, until);
    }
}

/// The run from `next` depends only on which ids from `next` on have a
/// message that waits.
pub proof fn lemma_run_looks_ahead<M>(a: Map<u32, M>, b: Map<u32, M>, next: u32)
    requires
        forall|k: u32| k >= next ==> a.contains_key(k) == b.contains_key(k),
    ensures
        run_length(a, next) == run_length(b, next),
    decreases u32::MAX - next,
{
    if a.contains_key(next) && next < u32::MAX {
        lemma_run_looks_ahead(a, b, (next + 1) as u32);
    }
}

/// The more messages wait, the longer the run.
pub proof fn lemma_run_grows<M>(a: Map<u32, M>, b: Map<u32, M>, next: u32)
    requires
        forall|k: u32| a.contains_key(k) ==> b.contains_key(k),
    ensures
        run_length(a, next) <= run_length(b, next),
    decreases u32::MAX - next,
{
    if a.contains_key(next) && next < u32::MAX {
        lemma_run_grows(a, b, (next + 1) as u32);
    }
}

/// Handing on a run and then the run that follows it is handing on the
/// whole run at once. Here `whole` is a buffer whose run from `next` reaches
/// `later`, and `rest` holds what `whole` holds from `later` on.
proof fn lemma_release_in_two<K, V>(
    whole: Map<u32, ClientLogMessage<K, V>>,
    rest: Map<u32, ClientLogMessage<K, V>>,
    next: u32,
    later: u32,
)
    requires
        next <= later,
        forall|k: u32| next <= k < later ==> #[trigger] whole.contains_key(k),
        forall|k: u32| #[trigger] whole.contains_key(k) ==> k >= next,
        forall|k: u32| #[trigger] rest.contains_key(k) ==> k >= later,
        forall|k: u32|
            k >= later ==> (#[trigger] whole.contains_key(k)) == rest.contains_key(k),
        forall|k: u32| k >= later && #[trigger] rest.contains_key(k) ==> whole[k] == rest[k],
        next + run_length(whole, next) < 0x1_0000_0000,
    ensures
        run_length(whole, next) == (later - next) + run_length(rest, later),
        due(whole, next) == Seq::new((later - next) as nat, |i: int| whole[(next + i) as u32])
            + due(rest, later),
        (OrderState { next, pending: whole }).released() == (OrderState {
            next: later,
            pending: rest,
        }).released(),
{
    lemma_run_reaches(whole, next, later);
    lemma_run_splits(whole, next, later);
    lemma_run_looks_ahead(whole, rest, later);
    let first = (later - next) as nat;
    let second = run_length(rest, later);
    let run = run_length(whole, next);
    assert(run == first + second);
    lemma_run_members(rest, later);
    assert(due(whole, next) =~= Seq::new(first, |i: int| whole[(next + i) as u32]) + due(
        rest,
        later,
    )) by {
        let joined = Seq::new(first, |i: int| whole[(next + i) as u32]) + due(rest, later);
        assert forall|i: int| 0 <= i < run implies due(whole, next)[i] == joined[i] by {
            if i >= first {
                let k = (later + (i - first)) as u32;
                assert(rest.contains_key(k));
            }
        }
    }
    let a = (OrderState { next, pending: whole }).released();
    let b = (OrderState { next: later, pending: rest }).released();
    assert(a.next == b.next);
    assert(a.pending =~= b.pending) by {
        assert forall|k: u32| a.pending.contains_key(k) == b.pending.contains_key(k) by {
            if k >= later {
                assert(whole.contains_key(k) == rest.contains_key(k));
            }
        }
    }
}

/// Taking in a batch and then handing on what is due comes to the same as
/// handling its messages one by one: the same messages are handed on, in the
/// same order, and the stage is left in the same state. This holds of a state
/// in which nothing is due, as long as the ids handed on do not wrap around.
pub proof fn lemma_one_by_one_is_batch<K, V>(
    state: OrderState<ClientLogMessage<K, V>>,
    batch: Seq<ClientLogMessage<K, V>>,
)
    requires
        order_state_wf(state),
        !state.pending.contains_key(state.next),
        state.next + run_length(state.received(batch).pending, state.next) < 0x1_0000_0000,
    ensures
        state.handed_on_each(batch) == state.handed_on(batch),
        state.after_each(batch) == state.after(batch),
    decreases batch.len(),
{
    let nothing = Seq::<ClientLogMessage<K, V>>::empty();
    if batch.len() == 0 {
        assert(due_ids(state.pending, state.next) =~= Set::<u32>::empty());
        assert(state.pending.remove_keys(Set::<u32>::empty()) =~= state.pending);
        assert(state.handed_on(batch) =~= nothing);
    } else {
        let earlier = batch.drop_last();
        let m = batch.last();
        let got_earlier = state.received(earlier);
        let got = state.received(batch);
        assert(got.pending == take_in(got_earlier.pending, state.next, m));
        // The run of the earlier messages is no longer than that of all of them.
        lemma_run_grows(got_earlier.pending, got.pending, state.next);
        lemma_one_by_one_is_batch(state, earlier);
        lemma_received_wf(state, earlier);
        lemma_received_wf(state, batch);
        lemma_released_wf(got_earlier);
        lemma_run_is_bounded(got_earlier.pending, state.next);
        lemma_run_members(got_earlier.pending, state.next);
        let mid = state.after(earlier);
        let run_earlier = run_length(got_earlier.pending, state.next);
        assert(mid.next == state.next + run_earlier);
        let then = mid.received(seq![m]);
        assert(then.pending == take_in(mid.pending, mid.next, m)) by {
            reveal_with_fuel(take_in_all, 2);
            assert(seq![m].drop_last() =~= nothing);
            assert(seq![m].last() == m);
        }
        // What waits after the last message agrees, from the next expected id
        // on, with what the whole batch has brought.
        assert forall|k: u32| k >= mid.next implies (#[trigger] got.pending.contains_key(k))
            == then.pending.contains_key(k) by {
            assert(got_earlier.pending.contains_key(k) == mid.pending.contains_key(k));
        }
        assert forall|k: u32| k >= mid.next && #[trigger] then.pending.contains_key(
            k,
        ) implies got.pending[k] == then.pending[k] by {
            assert(got_earlier.pending.contains_key(k) == mid.pending.contains_key(k));
        }
        assert forall|k: u32| state.next <= k < mid.next implies #[trigger] got.pending.contains_key(
            k,
        ) by {
            assert(got_earlier.pending.contains_key(k));
        }
        lemma_release_in_two(got.pending, then.pending, state.next, mid.next);
        let first = state.handed_on(earlier);
        assert(first =~= Seq::new(
            run_earlier,
            |i: int| got.pending[(state.next + i) as u32],
        )) by {
            assert forall|i: int| 0 <= i < run_earlier implies first[i] == got.pending[(state.next
                + i) as u32] by {
                let k = (state.next + i) as u32;
                assert(got_earlier.pending.contains_key(k));
            }
        }
        assert(state.handed_on_each(batch) == state.handed_on_each(earlier) + mid.handed_on(
            seq![m],
        ));
    }
}

} // verus!
