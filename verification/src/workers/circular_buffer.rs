//! A bounded ring of values between two running counters.
//!
//! The ring counts what has been written and what has been read; the value
//! written as number `k` stands in slot `k % SIZE`. Waiting for room or for a
//! value, and locking, are left to the caller: each operation here either
//! does its work at once or says that it cannot.

use vstd::prelude::*;
use std::collections::VecDeque;

verus! {

/// A ring of at most `SIZE` values, first in, first out.
pub struct RingBuffer<const SIZE: usize, T> {
    read: usize,
    written: usize,
    buffer: Vec<Option<T>>,
}

/// Two counts less than a ring's size apart stand for different slots.
proof fn lemma_slots_differ(x: int, y: int, size: int)
    requires
        0 < size,
        0 <= x < y < x + size,
    ensures
        x % size != y % size,
{
    vstd::arithmetic::div_mod::lemma_fundamental_div_mod(x, size);
    vstd::arithmetic::div_mod::lemma_fundamental_div_mod(y, size);
    if x % size == y % size {
        let qx = x / size;
        let qy = y / size;
        assert(y - x == size * (qy - qx)) by (nonlinear_arith)
            requires
                x == size * qx + x % size,
                y == size * qy + y % size,
                x % size == y % size,
        ;
        assert(false) by (nonlinear_arith)
            requires
                y - x == size * (qy - qx),
                0 < y - x < size,
                0 < size,
        ;
    }
}

impl<const SIZE: usize, T> View for RingBuffer<SIZE, T> {
    type V = Seq<T>;

    closed spec fn view(&self) -> Seq<T> {
        Seq::new((self.written - self.read) as nat, |i: int| self.slot(self.read + i)->Some_0)
    }
}

impl<const SIZE: usize, T> RingBuffer<SIZE, T> {
    /// What stands in the slot of the value written as number `k`.
    pub closed spec fn slot(&self, k: int) -> Option<T> {
        self.buffer@[k % SIZE as int]
    }

    /// How many values have been written since the ring was made.
    pub closed spec fn written(&self) -> nat {
        self.written as nat
    }

    /// How many values have been read since the ring was made.
    pub closed spec fn read(&self) -> nat {
        self.read as nat
    }

    /// Whether the ring is whole: it has its slots, it holds what has been
    /// written and not read, and that is no more than it has room for.
    pub closed spec fn wf(&self) -> bool {
        &&& SIZE > 0
        &&& self.buffer@.len() == SIZE
        &&& self.read <= self.written <= self.read + SIZE
        &&& forall|k: int| self.read <= k < self.written ==> (#[trigger] self.slot(k)) is Some
    }

    /// What a ring that is whole holds is what has been written and not yet
    /// read.
    pub proof fn lemma_holds_the_unread(&self)
        requires
            self.wf(),
        ensures
            self@.len() == self.written() - self.read(),
            self@.len() <= SIZE,
    {
    }

    /// An empty ring.
    pub fn new() -> (ring: Self)
        requires
            SIZE > 0,
        ensures
            ring.wf(),
            ring@ == Seq::<T>::empty(),
            ring.written() == 0,
            ring.read() == 0,
    {
        let mut buffer: Vec<Option<T>> = Vec::new();
        let mut i: usize = 0;
        while i < SIZE
            invariant
                i <= SIZE,
                buffer@.len() == i,
            decreases SIZE - i,
        {
            buffer.push(None);
            i = i + 1;
        }
        let ring = RingBuffer { read: 0, written: 0, buffer };
        assert(ring@ =~= Seq::<T>::empty());
        ring
    }

    /// How many values the ring holds.
    pub fn len(&self) -> (n: usize)
        requires
            self.wf(),
        ensures
            n == self@.len(),
    {
        self.written - self.read
    }

    /// Puts `val` behind what the ring holds, or hands it back where the
    /// ring is full.
    pub fn write_next(&mut self, val: T) -> (r: Result<(), T>)
        requires
            old(self).wf(),
            old(self).written() < usize::MAX,
        ensures
            final(self).wf(),
            final(self).read() == old(self).read(),
            match r {
                Ok(()) => old(self)@.len() < SIZE && final(self)@ == old(self)@.push(val)
                    && final(self).written() == old(self).written() + 1,
                Err(back) => old(self)@.len() == SIZE && back == val && final(self)@ == old(self)@
                    && final(self).written() == old(self).written(),
            },
    {
        let difference = self.written - self.read;
        if difference < SIZE {
            let slot = self.written % SIZE;
            let ghost before = *self;
            self.buffer[slot] = Some(val);
            self.written = self.written + 1;
            proof {
                assert forall|k: int| before.read <= k < before.written implies #[trigger] self.slot(
                    k,
                ) == before.slot(k) by {
                    lemma_slots_differ(k, before.written as int, SIZE as int);
                }
                assert(self.slot(before.written as int) == Some(val));
                assert forall|k: int| self.read <= k < self.written implies (#[trigger] self.slot(
                    k,
                )) is Some by {
                    if k < before.written {
                        assert(self.slot(k) == before.slot(k));
                        assert(before.slot(k) is Some);
                    }
                }
                assert forall|i: int| 0 <= i < before@.len() implies self@[i] == before@[i] by {
                    assert(self.slot(before.read + i) == before.slot(before.read + i));
                }
                assert(self@ =~= before@.push(val));
            }
            Ok(())
        } else {
            Err(val)
        }
    }

    /// Takes the oldest value out of the ring, if the ring holds one.
    pub fn read_next(&mut self) -> (r: Option<T>)
        requires
            old(self).wf(),
        ensures
            final(self).wf(),
            final(self).written() == old(self).written(),
            match r {
                Some(value) => old(self)@.len() > 0 && value == old(self)@[0] && final(self)@
                    == old(self)@.skip(1) && final(self).read() == old(self).read() + 1,
                None => old(self)@.len() == 0 && final(self)@ == old(self)@ && final(self).read()
                    == old(self).read(),
            },
    {
        if self.written == self.read {
            return None;
        }
        let slot = self.read % SIZE;
        let ghost before = *self;
        assert(before.slot(self.read as int) is Some);
        let value = self.buffer[slot].take();
        self.read = self.read + 1;
        proof {
            assert forall|k: int| before.read + 1 <= k < before.written implies #[trigger] self.slot(
                k,
            ) == before.slot(k) by {
                lemma_slots_differ(before.read as int, k, SIZE as int);
            }
            assert forall|k: int| self.read <= k < self.written implies (#[trigger] self.slot(
                k,
            )) is Some by {
                assert(self.slot(k) == before.slot(k));
                assert(before.slot(k) is Some);
            }
            assert forall|i: int| 0 <= i < self@.len() implies self@[i] == before@.skip(1)[i] by {
                assert(self.slot(self.read + i) == before.slot(before.read + i + 1));
            }
            assert(self@ =~= before@.skip(1));
            assert(value->Some_0 == before@[0]);
        }
        value
    }

    /// Moves values from the front of `vals` into the ring, in their order,
    /// until the ring is full or `vals` is empty. The result is the number
    /// moved.
    pub fn write_from_slice(&mut self, vals: &mut VecDeque<T>) -> (moved: usize)
        requires
            old(self).wf(),
            old(self).written() + old(vals)@.len() <= usize::MAX,
        ensures
            final(self).wf(),
            final(self).read() == old(self).read(),
            final(self).written() == old(self).written() + moved,
            moved <= old(vals)@.len(),
            final(vals)@ == old(vals)@.skip(moved as int),
            final(self)@ == old(self)@ + old(vals)@.take(moved as int),
            moved == old(vals)@.len() || final(self)@.len() == SIZE,
    {
        let mut moved: usize = 0;
        let total = vals.len();
        proof {
            assert(vals@ =~= old(vals)@.skip(0));
            assert(self@ =~= old(self)@ + old(vals)@.take(0));
        }
        loop
            invariant
                self.wf(),
                total == old(vals)@.len(),
                moved <= total,
                self.read == old(self).read,
                self.written == old(self).written + moved,
                old(self).written() + total <= usize::MAX,
                vals@ == old(vals)@.skip(moved as int),
                self@ == old(self)@ + old(vals)@.take(moved as int),
            ensures
                self.wf(),
                moved <= total,
                self.read == old(self).read,
                self.written == old(self).written + moved,
                vals@ == old(vals)@.skip(moved as int),
                self@ == old(self)@ + old(vals)@.take(moved as int),
                moved == total || self@.len() == SIZE,
            decreases total - moved,
        {
            if self.written - self.read >= SIZE {
                break ;
            }
            match vals.pop_front() {
                None => {
                    break ;
                },
                Some(val) => {
                    let pushed = self.write_next(val);
                    assert(pushed is Ok);
                    moved = moved + 1;
                    proof {
                        assert(vals@ =~= old(vals)@.skip(moved as int));
                        assert(self@ =~= old(self)@ + old(vals)@.take(moved as int));
                    }
                },
            }
        }
        moved
    }
}

} // verus!
