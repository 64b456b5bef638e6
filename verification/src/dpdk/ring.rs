//! Rings of the driver.

use vstd::prelude::*;

verus! {

/// How many threads work one end of a ring, and how they take turns.
#[derive(Debug, Clone, Copy, PartialEq, Eq, Structural)]
pub enum RingType {
    Single,
    MultipleRTS,
    MultipleHTS,
}

/// Why nothing was taken from a ring.
#[derive(Debug, Clone, Copy, PartialEq, Eq, Structural)]
pub enum DequeueFailureState {
    Timeout,
}

/// What a ring can carry.
pub trait RingDataRequirements: Copy {

}

/// A ring of values of type `T`.
pub trait Ring<T: RingDataRequirements> {
    /// Puts `val` into the ring, or hands it back if the ring is full.
    fn try_enqueue(&self, val: T) -> Result<(), T>;

    /// Takes the oldest value out of the ring, if the ring holds one.
    fn try_dequeue(&self) -> Option<T>;

    /// Tries up to `max_cycles` times to take a value out of the ring, and
    /// gives up after that.
    fn dequeue(&self, max_cycles: u64) -> (r: Result<Option<T>, DequeueFailureState>)
        ensures
            r is Ok ==> r->Ok_0 is Some,
            max_cycles == 0 ==> r is Err,
    {
        let mut cycle: u64 = 0;
        while cycle < max_cycles
            invariant
                cycle <= max_cycles,
            decreases max_cycles - cycle,
        {
            let val = self.try_dequeue();
            if val.is_some() {
                return Ok(val);
            }
            cycle = cycle + 1;
        }
        Err(DequeueFailureState::Timeout)
    }
}

} // verus!
