//! The session id allocator.
//!
//! A single monotonically increasing counter: no two calls ever return the
//! same id, and ids are never reused while the process runs. The counter
//! starts at 1 and its width is treated as practically unbounded for one
//! process's lifetime. Callers that share one allocator across connection
//! handlers keep it behind their own mutual-exclusion discipline; each call
//! only needs uniqueness, not any ordering relative to other state.

use vstd::prelude::*;

verus! {

/// Generates unique, monotonically increasing session identifiers.
pub struct IdAllocator {
    next: u64,
}

impl View for IdAllocator {
    type V = u64;

    /// The id the next call to [`IdAllocator::next_id`] will return.
    closed spec fn view(&self) -> u64 {
        self.next
    }
}

impl IdAllocator {
    /// Session ids start at 1.
    pub fn new() -> (a: IdAllocator)
        ensures
            a@ == 1u64,
    {
        IdAllocator { next: 1 }
    }

    /// The id the next call to [`IdAllocator::next_id`] will return, without
    /// allocating it.
    pub fn peek(&self) -> (id: u64)
        ensures
            id == self@,
    {
        self.next
    }

    /// Allocate the next session id. Every id this returns is strictly
    /// greater than every id returned before, so no two calls on one
    /// allocator ever return the same id.
    pub fn next_id(&mut self) -> (id: u64)
        requires
            old(self)@ < u64::MAX,
        ensures
            id == old(self)@,
            final(self)@ == old(self)@ + 1,
    {
        let id = self.next;
        self.next = self.next + 1;
        id
    }
}

} // verus!
