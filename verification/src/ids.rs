//! The identifier allocator: one counter for collections and documents.

use vstd::prelude::*;

verus! {

/// A counter that hands out identifiers in rising order, starting at 1. No
/// identifier is handed out twice.
#[derive(Debug)]
pub struct IdAllocator {
    next: u64,
}

impl View for IdAllocator {
    type V = u64;

    /// The identifier that is handed out next.
    closed spec fn view(&self) -> u64 {
        self.next
    }
}

impl IdAllocator {
    /// A counter whose first identifier is 1.
    pub fn new() -> (ids: Self)
        ensures
            ids@ == 1,
    {
        IdAllocator { next: 1 }
    }

    /// Whether the counter has reached its end, so that no further
    /// identifier can be handed out.
    pub fn is_exhausted(&self) -> (r: bool)
        ensures
            r == (self@ == u64::MAX),
    {
        self.next == u64::MAX
    }

    /// The number of identifiers that can still be handed out.
    pub fn remaining(&self) -> (r: u64)
        ensures
            r == u64::MAX - self@,
    {
        u64::MAX - self.next
    }

    /// Hands out the next identifier and moves the counter past it.
    pub fn next(&mut self) -> (id: u64)
        requires
            old(self)@ < u64::MAX,
        ensures
            id == old(self)@,
            final(self)@ == old(self)@ + 1,
    {
        let id = self.next;
        self.next = id + 1;
        id
    }
}

} // verus!
