use vstd::prelude::*;

verus! {

/// A plain saturating-free counter with one scalar of state, kept as a peer
/// component of the engine under the same contract-account model.
#[derive(Clone, Copy, Debug, PartialEq, Eq, Structural)]
pub struct Counter {
    value: u32,
}

impl Counter {
    pub closed spec fn spec_value(&self) -> u32 {
        self.value
    }

    pub fn new() -> (r: Counter)
        ensures
            r.spec_value() == 0,
    {
        Counter { value: 0 }
    }

    /// Raise the counter by one.  The count must not yet be at the type's
    /// maximum; the increment never wraps.
    pub fn increment(&mut self)
        requires
            old(self).spec_value() < u32::MAX,
        ensures
            final(self).spec_value() == old(self).spec_value() + 1,
    {
        self.value = self.value + 1;
    }

    /// Lower the counter by one.  The count must be positive; the decrement
    /// never wraps.
    pub fn decrement(&mut self)
        requires
            old(self).spec_value() > 0,
        ensures
            final(self).spec_value() == old(self).spec_value() - 1,
    {
        self.value = self.value - 1;
    }

    /// The current count.
    pub fn get(&self) -> (r: u32)
        ensures
            r == self.spec_value(),
    {
        self.value
    }
}

impl Default for Counter {
    fn default() -> (r: Counter)
        ensures
            r.spec_value() == 0,
    {
        Counter { value: 0 }
    }
}

} // verus!
