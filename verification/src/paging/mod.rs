//! Paging: physical frames, page-table roots, region mapping and address
//! spaces.
//!
//! Nothing in here touches hardware. A mapping is planned here and carried
//! out by the caller, one page at a time; what the hardware made of each
//! page comes back as a plain value.

pub mod addr;
pub mod allocator_model;
pub mod address_space;
pub mod error;
pub mod frame_allocator;
pub mod init;
pub mod mapper;
pub mod memory_map;
pub mod phys_allocator;
pub mod pt;
pub mod ranges;

pub use address_space::{AddressSpace, AddressSpaceId, MemoryStats};
pub use error::{PagingError, PagingResult};
pub use frame_allocator::{AllocationError, AllocatorStats, EarlyFrameAllocator};
pub use memory_map::{MemoryRegion, MemoryRegionKind};
pub use init::{init, PagingState};
pub use mapper::MapType;
pub use phys_allocator::PhysAllocator;
pub use pt::PageTableRoot;
