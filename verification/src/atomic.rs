use vstd::prelude::*;

verus! {

/// A 64-bit counter, read and written through its own methods.
///
/// Its arithmetic wraps around on overflow, as an atomic fetch-and-add does.
pub struct AtomicU64 {
    inner: u64,
}

impl View for AtomicU64 {
    type V = u64;

    open spec fn view(&self) -> u64 {
        self.value()
    }
}

impl AtomicU64 {
    /// The value the counter holds.
    pub closed spec fn value(&self) -> u64 {
        self.inner
    }

    /// The value that follows `v` under a wrapping increment.
    pub open spec fn successor(v: u64) -> u64 {
        if v == u64::MAX {
            0
        } else {
            (v + 1) as u64
        }
    }

    pub fn new(value: u64) -> (a: AtomicU64)
        ensures
            a@ == value,
    {
        AtomicU64 { inner: value }
    }

    /// Returns the value held before the call and advances the counter by one.
    pub fn get_and_increment(&mut self) -> (origin: u64)
        ensures
            origin == old(self)@,
            final(self)@ == Self::successor(old(self)@),
    {
        let origin = self.inner;
        self.inner = self.inner.wrapping_add(1);
        origin
    }

    pub fn get(&self) -> (v: u64)
        ensures
            v == self@,
    {
        self.inner
    }

    pub fn set(&mut self, val: u64)
        ensures
            final(self)@ == val,
    {
        self.inner = val;
    }
}

} // verus!
