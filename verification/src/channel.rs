//! The rings between the stages.
//!
//! Each ring is an `rtrb` ring buffer with one producer and one consumer, on
//! different threads. What one end sees depends on what the other end does in
//! the meantime, so the contracts here state only what holds whatever the
//! other end does.

use vstd::prelude::*;
use std::collections::VecDeque;

verus! {

/// Makes `rtrb::Producer`, the writing end of a ring, known as an opaque
/// type.
#[verifier::external_type_specification]
#[verifier::external_body]
#[verifier::reject_recursive_types(T)]
pub struct ExProducer<T>(rtrb::Producer<T>);

/// Makes `rtrb::Consumer`, the reading end of a ring, known as an opaque
/// type.
#[verifier::external_type_specification]
#[verifier::external_body]
#[verifier::reject_recursive_types(T)]
pub struct ExConsumer<T>(rtrb::Consumer<T>);

/// Calls `rtrb::Producer::push`, which moves the value into the ring or, if
/// the ring is full, hands it back.
#[verifier::external_body]
pub(crate) fn ring_push<T>(ring: &mut rtrb::Producer<T>, value: T) -> (pushed: Result<(), T>)
    ensures
        pushed is Err ==> pushed->Err_0 == value,
{
    match ring.push(value) {
        Ok(()) => Ok(()),
        Err(rtrb::PushError::Full(back)) => Err(back),
    }
}

/// Calls `rtrb::Consumer::pop`, which moves the oldest value out of the ring,
/// if the ring holds one.
#[verifier::external_body]
pub(crate) fn ring_pop<T>(ring: &mut rtrb::Consumer<T>) -> (popped: Option<T>) {
    ring.pop().ok()
}

/// Calls `rtrb::Consumer::slots`, the number of values that can be read now.
#[verifier::external_body]
pub(crate) fn ring_readable<T>(ring: &rtrb::Consumer<T>) -> (slots: usize) {
    ring.slots()
}

/// Calls `rtrb::Consumer::read_chunk` and moves the values of the chunk out.
/// The crate hands out a chunk of exactly `n` values, or none when fewer than
/// `n` can be read.
#[verifier::external_body]
pub(crate) fn ring_read_chunk<T>(ring: &mut rtrb::Consumer<T>, n: usize) -> (values: Vec<T>)
    ensures
        values@.len() == n || values@.len() == 0,
{
    match ring.read_chunk(n) {
        Ok(chunk) => chunk.into_iter().collect(),
        Err(_) => Vec::new(),
    }
}

/// Calls `rtrb::Consumer::is_abandoned`, which tells whether the producer is
/// gone.
#[verifier::external_body]
pub(crate) fn ring_is_abandoned<T>(ring: &rtrb::Consumer<T>) -> (abandoned: bool) {
    ring.is_abandoned()
}

/// Calls `rtrb::Consumer::is_empty`, which tells whether nothing can be read
/// now.
#[verifier::external_body]
pub(crate) fn ring_is_empty<T>(ring: &rtrb::Consumer<T>) -> (empty: bool) {
    ring.is_empty()
}

/// Moves values from the front of `outbox` into the ring until the ring is
/// full or the outbox is empty, and returns how many were moved. What stays
/// in the outbox stays in its order.
pub fn flush<T>(ring: &mut rtrb::Producer<T>, outbox: &mut VecDeque<T>) -> (moved: usize)
    ensures
        moved <= old(outbox)@.len(),
        final(outbox)@ == old(outbox)@.skip(moved as int),
{
    let mut moved: usize = 0;
    let total = outbox.len();
    assert(outbox@ =~= old(outbox)@.skip(0));
    loop
        invariant
            total == old(outbox)@.len(),
            moved <= total,
            outbox@ == old(outbox)@.skip(moved as int),
        ensures
            moved <= old(outbox)@.len(),
            outbox@ == old(outbox)@.skip(moved as int),
        decreases outbox@.len(),
    {
        let ghost before = outbox@;
        match outbox.pop_front() {
            Some(value) => {
                match ring_push(ring, value) {
                    Ok(()) => {
                        moved = moved + 1;
                        assert(outbox@ =~= old(outbox)@.skip(moved as int));
                    },
                    Err(back) => {
                        outbox.push_front(back);
                        assert(outbox@ =~= before);
                        break ;
                    },
                }
            },
            None => {
                break ;
            },
        }
    }
    moved
}

/// Puts `values` behind what `outbox` holds, in their order.
pub fn enqueue_all<T>(outbox: &mut VecDeque<T>, values: Vec<T>)
    ensures
        final(outbox)@ == old(outbox)@ + values@,
{
    let ghost all = values@;
    assert(outbox@ =~= old(outbox)@ + all.take(0));
    for value in it: values
        invariant
            it.seq() == all,
            outbox@ == old(outbox)@ + all.take(it.index() as int),
    {
        let ghost i = it.index() as int;
        outbox.push_back(value);
        assert(outbox@ =~= old(outbox)@ + all.take(i + 1));
    }
    assert(all.take(all.len() as int) =~= all);
}

} // verus!
