//! Bring-up of the paging core from what the loader hands over.

use vstd::prelude::*;
use crate::paging::address_space::{AddressSpace, AddressSpaceId, MemoryStats};
use crate::paging::error::PagingResult;
use crate::paging::frame_allocator::EarlyFrameAllocator;
use crate::paging::memory_map::{MemoryRegion, retained, reserved_end, usable_disjoint};
use crate::paging::ranges::span;

verus! {

/// What initialization leaves behind for the rest of the kernel.
pub struct PagingState {
    /// The kernel's address space, around the root table that was active.
    pub kernel_space: AddressSpace,
    /// The allocator of physical frames.
    pub frame_allocator: EarlyFrameAllocator,
}

/// The offset at which physical memory is reached: the loader's, or zero
/// where physical and virtual addresses coincide.
pub open spec fn offset_or_identity(physical_memory_offset: Option<u64>) -> u64 {
    match physical_memory_offset {
        Some(offset) => offset,
        None => 0,
    }
}

/// Builds the frame allocator from the memory map and the kernel image's
/// bounds, and adopts the root table at `active_root` as the kernel's
/// address space.
///
/// `kernel_addr` and `kernel_len` are the physical start and length of the
/// kernel image. `active_root` is the frame that the root-table register
/// names at the time of the call.
pub fn init(
    memory_regions: &[MemoryRegion],
    kernel_addr: u64,
    kernel_len: u64,
    physical_memory_offset: Option<u64>,
    active_root: u64,
) -> (state: PagingResult<PagingState>)
    requires
        kernel_addr + kernel_len <= u64::MAX,
        span(retained(memory_regions@, reserved_end((kernel_addr + kernel_len) as u64)))
            <= u64::MAX,
    ensures
        state matches Ok(s) && {
            &&& s.kernel_space@.id.is_kernel()
            &&& s.kernel_space@.root.frame() == active_root
            &&& s.kernel_space@.root.phys_offset() == offset_or_identity(physical_memory_offset)
            &&& s.kernel_space@.stats == (MemoryStats {
                mapped_pages: 0,
                user_pages: 0,
                kernel_pages: 0,
            })
            &&& s.frame_allocator@.wf()
            &&& s.frame_allocator@.ranges == retained(
                memory_regions@,
                reserved_end((kernel_addr + kernel_len) as u64),
            )
            &&& s.frame_allocator@.next == 0
            &&& s.frame_allocator@.total == s.frame_allocator@.available()
            &&& s.frame_allocator@.confined(
                memory_regions@,
                reserved_end((kernel_addr + kernel_len) as u64),
            )
            &&& s.frame_allocator@.within(
                memory_regions@,
                reserved_end((kernel_addr + kernel_len) as u64),
            )
            &&& usable_disjoint(memory_regions@) ==> s.frame_allocator@.disjoint()
        },
{
    let kernel_start = kernel_addr;
    let kernel_end = kernel_addr + kernel_len;
    let kernel_offset = match physical_memory_offset {
        Some(offset) => offset,
        None => 0,
    };
    let frame_allocator = EarlyFrameAllocator::new(memory_regions, kernel_start, kernel_end);
    let kernel_space = AddressSpace::from_existing(
        AddressSpaceId::kernel(),
        active_root,
        kernel_offset,
    );
    Ok(PagingState { kernel_space, frame_allocator })
}

} // verus!
