use vstd::prelude::*;

verus! {

/// Issues identifiers in increasing order. An identifier that was handed out
/// is never handed out again.
pub struct IdAllocator {
    next: u64,
}

impl IdAllocator {
    /// The identifier that the next allocation returns.
    pub closed spec fn view(&self) -> u64 {
        self.next
    }

    /// An allocator that has handed out nothing yet.
    pub fn new() -> (ids: Self)
        ensures
            ids@ == 0,
    {
        IdAllocator { next: 0 }
    }

    /// The identifier that the next allocation returns.
    pub fn peek(&self) -> (id: u64)
        ensures
            id == self@,
    {
        self.next
    }

    /// Whether every identifier but the last has been handed out, so that
    /// `allocate` may no longer be called.
    pub fn is_exhausted(&self) -> (exhausted: bool)
        ensures
            exhausted == (self@ == u64::MAX),
    {
        self.next == u64::MAX
    }

    /// Hands out the next identifier.
    pub fn allocate(&mut self) -> (id: u64)
        requires
            old(self)@ < u64::MAX,
        ensures
            id == old(self)@,
            final(self)@ == old(self)@ + 1,
    {
        let id: u64 = self.next;
        self.next = id + 1;
        id
    }
}

} // verus!
