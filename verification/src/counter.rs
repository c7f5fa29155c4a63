//! A click counter.

use vstd::prelude::*;

verus! {

/// A counter that only ever moves one step at a time.
pub struct Counter {
    count: u32,
}

impl Counter {
    /// The current reading.
    pub closed spec fn spec_count(self) -> u32 {
        self.count
    }

    /// A counter starting at zero.
    pub fn new() -> (c: Counter)
        ensures
            c.spec_count() == 0,
    {
        Counter { count: 0 }
    }

    /// Count one more click.
    pub fn increment(&mut self)
        requires
            old(self).spec_count() < u32::MAX,
        ensures
            final(self).spec_count() == old(self).spec_count() + 1,
    {
        self.count = self.count + 1;
    }

    /// Back to zero.
    pub fn reset(&mut self)
        ensures
            final(self).spec_count() == 0,
    {
        self.count = 0;
    }

    /// Read the counter.
    pub fn get(&self) -> (n: u32)
        ensures
            n == self.spec_count(),
    {
        self.count
    }
}

} // verus!
