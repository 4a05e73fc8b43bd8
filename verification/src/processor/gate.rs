use vstd::prelude::*;

verus! {

/// The counting admission bound on how many lookups are in flight at
/// once.  A lookup acquires an admission before it starts and releases
/// it when it ends, success or failure.
///
/// Every operation keeps `wf`, so the count of outstanding admissions
/// never rises above the capacity.
pub struct ConcurrencyGate {
    pub capacity: usize,
    pub in_flight: usize,
}

impl ConcurrencyGate {
    /// Never more admissions out than the capacity allows.
    pub open spec fn wf(&self) -> bool {
        &&& 1 <= self.capacity
        &&& self.in_flight <= self.capacity
    }

    /// An idle gate with the given capacity.
    pub fn new(capacity: usize) -> (g: ConcurrencyGate)
        requires
            1 <= capacity,
        ensures
            g.wf(),
            g.capacity == capacity,
            g.in_flight == 0,
    {
        ConcurrencyGate { capacity, in_flight: 0 }
    }

    /// Ask for an admission; the answer is yes exactly while fewer
    /// admissions are out than the capacity allows.
    pub fn try_acquire(&mut self) -> (granted: bool)
        requires
            old(self).wf(),
        ensures
            final(self).wf(),
            final(self).capacity == old(self).capacity,
            granted == (old(self).in_flight < old(self).capacity),
            granted ==> final(self).in_flight == old(self).in_flight + 1,
            !granted ==> *final(self) == *old(self) && old(self).in_flight == old(self).capacity,
    {
        if self.in_flight < self.capacity {
            self.in_flight = self.in_flight + 1;
            true
        } else {
            false
        }
    }

    /// Give an admission back.
    pub fn release(&mut self)
        requires
            old(self).wf(),
            1 <= old(self).in_flight,
        ensures
            final(self).wf(),
            final(self).capacity == old(self).capacity,
            final(self).in_flight == old(self).in_flight - 1,
    {
        self.in_flight = self.in_flight - 1;
    }

    /// How many admissions are currently out.
    pub fn current(&self) -> (n: usize)
        ensures
            n == self.in_flight,
    {
        self.in_flight
    }
}

} // verus!
