//! The source of fresh identifiers.

use crate::kitty::Id;
use vstd::prelude::*;

verus! {

/// A counter that hands out identifiers in strictly increasing order,
/// beginning with 1.
#[derive(Debug, PartialEq, Eq)]
pub struct IdAllocator {
    last: Id,
}

impl Clone for IdAllocator {
    fn clone(&self) -> (copy: IdAllocator)
        ensures
            copy.last_issued() == self.last_issued(),
    {
        IdAllocator { last: self.last }
    }
}

impl IdAllocator {
    /// The identifier issued last, or 0 where none was issued yet.
    pub closed spec fn last_issued(&self) -> Id {
        self.last
    }

    /// Whether the counter can still issue an identifier.
    pub open spec fn has_next(&self) -> bool {
        self.last_issued() < Id::MAX
    }

    /// An allocator that has issued nothing.
    pub fn new() -> (a: IdAllocator)
        ensures
            a.last_issued() == 0,
    {
        IdAllocator { last: 0 }
    }

    /// The identifier issued last, or 0 where none was issued yet.
    pub fn last(&self) -> (id: Id)
        ensures
            id == self.last_issued(),
    {
        self.last
    }

    /// Issues the next identifier: one more than the last.
    pub fn next(&mut self) -> (id: Id)
        requires
            old(self).has_next(),
        ensures
            id == old(self).last_issued() + 1,
            final(self).last_issued() == id,
    {
        self.last = self.last + 1;
        self.last
    }
}

} // verus!
