//! The one operation that a source of physical frames offers.

use vstd::prelude::*;
use crate::paging::frame_allocator::EarlyFrameAllocator;

verus! {

/// A source of physical frames.
pub trait PhysAllocator {
    /// Hands out the start address of one frame, or `None` when there is
    /// none left.
    fn alloc_frame(&mut self) -> Option<u64>;
}

impl PhysAllocator for EarlyFrameAllocator {
    /// One allocation, as `allocate_frame` makes it.
    fn alloc_frame(&mut self) -> (frame: Option<u64>)
        ensures
            (frame, final(self)@) == old(self)@.allocate(),
    {
        self.allocate_frame()
    }
}

} // verus!
