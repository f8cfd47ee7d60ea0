//! Sequence numbers: a counter that runs from its lower bound to its upper
//! bound and starts over, and a generator that shares one such counter among
//! callers.

use vstd::prelude::*;
use vstd::rwlock::{RwLock, RwLockPredicate};

verus! {

/// The number that follows `current` in the cycle from `min` to `max`.
pub open spec fn successor(min: int, max: int, current: int) -> int {
    if current >= max {
        min
    } else {
        current + 1
    }
}

/// The number that a counter made with `min` and `max` gives at its call
/// number `n`, the first call being number zero.
pub open spec fn nth_value(min: int, max: int, n: nat) -> int
    decreases n,
{
    if n == 0 {
        min
    } else {
        successor(min, max, nth_value(min, max, (n - 1) as nat))
    }
}

/// A counter gives each number from `min` to `max` once and in order, and
/// then `min` again.
pub proof fn law_counts_up_and_starts_over(min: int, max: int)
    requires
        min <= max,
    ensures
        forall|n: nat| n <= max - min ==> #[trigger] nth_value(min, max, n) == min + n,
        nth_value(min, max, (max - min + 1) as nat) == min,
{
    assert forall|n: nat| n <= max - min implies #[trigger] nth_value(min, max, n) == min + n by {
        lemma_nth_value(min, max, n);
    }
    lemma_nth_value(min, max, (max - min) as nat);
}

/// Up to the upper bound, call number `n` gives `min + n`.
proof fn lemma_nth_value(min: int, max: int, n: nat)
    requires
        n <= max - min,
    ensures
        nth_value(min, max, n) == min + n,
    decreases n,
{
    if n > 0 {
        lemma_nth_value(min, max, (n - 1) as nat);
    }
}

/// A counter between two bounds, for one owner.
pub struct SequenceCounter {
    min: i32,
    max: i32,
    current: i32,
}

impl SequenceCounter {
    #[verifier::type_invariant]
    spec fn within_bounds(self) -> bool {
        self.min <= self.current <= self.max
    }

    /// The lower bound.
    pub closed spec fn min(self) -> int {
        self.min as int
    }

    /// The upper bound.
    pub closed spec fn max(self) -> int {
        self.max as int
    }

    /// The number that the next call gives.
    pub closed spec fn current(self) -> int {
        self.current as int
    }

    /// A counter that starts at `min`.
    pub fn new(min: i32, max: i32) -> (counter: Self)
        requires
            min <= max,
        ensures
            counter.min() == min,
            counter.max() == max,
            counter.current() == min,
    {
        SequenceCounter { min, max, current: min }
    }

    /// Gives the current number and moves on to its successor.
    pub fn next_val(&mut self) -> (value: i32)
        ensures
            value == old(self).current(),
            final(self).current() == successor(old(self).min(), old(self).max(), value as int),
            final(self).min() == old(self).min(),
            final(self).max() == old(self).max(),
            old(self).min() <= value <= old(self).max(),
    {
        proof {
            use_type_invariant(&*self);
        }
        let value = self.current;
        self.current = if value >= self.max {
            self.min
        } else {
            value + 1
        };
        value
    }
}

/// What the lock of a generator keeps true of the counter under it: the
/// bounds are those that the generator was made with.
pub struct Bounds {
    pub min: i32,
    pub max: i32,
}

impl RwLockPredicate<SequenceCounter> for Bounds {
    open spec fn inv(self, counter: SequenceCounter) -> bool {
        counter.min() == self.min && counter.max() == self.max
    }
}

/// A generator of sequence numbers that callers may share: each call takes
/// the counter under a lock, so that no two calls read the same number.
pub struct BoundAtomic {
    min: i32,
    max: i32,
    integer: RwLock<SequenceCounter, Bounds>,
}

impl BoundAtomic {
    #[verifier::type_invariant]
    spec fn locked_within_bounds(&self) -> bool {
        self.min <= self.max && self.integer.pred() == (Bounds { min: self.min, max: self.max })
    }

    /// The lower bound.
    pub closed spec fn min(&self) -> int {
        self.min as int
    }

    /// The upper bound.
    pub closed spec fn max(&self) -> int {
        self.max as int
    }

    /// A generator whose first number is `min`.
    pub fn new(min: i32, max: i32) -> (generator: Self)
        requires
            min <= max,
        ensures
            generator.min() == min,
            generator.max() == max,
    {
        let counter = SequenceCounter::new(min, max);
        BoundAtomic { min, max, integer: RwLock::new(counter, Ghost(Bounds { min, max })) }
    }

    /// Gives the next number: the counter under the lock is read and moved on
    /// in one step.
    pub fn next_val(&self) -> (value: i32)
        ensures
            self.min() <= value <= self.max(),
    {
        proof {
            use_type_invariant(self);
        }
        let (mut counter, handle) = self.integer.acquire_write();
        let value = counter.next_val();
        handle.release_write(counter);
        value
    }
}

} // verus!
