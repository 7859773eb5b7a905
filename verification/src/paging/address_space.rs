//! Address spaces: one root table each, with usage counters.

use vstd::prelude::*;
use vstd::string::StringExecFns;
use crate::text::{dec_digits, push_dec};
use crate::paging::error::{PagingError, PagingResult};
use crate::paging::frame_allocator::EarlyFrameAllocator;
use crate::paging::addr::{PAGE_SIZE, is_page_aligned};
use crate::paging::mapper::{
    lemma_begin, plan, mapping_error, pages_for, region_error, MapType, MappedRegion,
    RegionWalk, WalkState, GLOBAL, PRESENT, USER_ACCESSIBLE, USER_SPACE_END, WRITABLE,
};
use crate::paging::pt::{PageTableRoot, TableAccess};

verus! {

/// Entry bits of the kernel region that every address space shares.
pub const KERNEL_REGION_FLAGS: u64 = PRESENT | WRITABLE | GLOBAL;

/// Entry bits of user memory.
pub const USER_REGION_FLAGS: u64 = PRESENT | WRITABLE | USER_ACCESSIBLE;

/// Identifier of an address space. Zero names the kernel's address space and
/// no other.
#[derive(Clone, Copy, Debug, PartialEq, Eq, PartialOrd, Ord, Hash, Structural)]
pub struct AddressSpaceId(pub u64);

impl AddressSpaceId {
    /// The kernel's address space.
    pub fn kernel() -> (space: AddressSpaceId)
        ensures
            space.0 == 0,
            space.spec_is_kernel(),
    {
        AddressSpaceId(0)
    }

    /// The identifier of a user address space.
    pub fn new(id: u64) -> (space: AddressSpaceId)
        requires
            id != 0,
        ensures
            space.0 == id,
            !space.spec_is_kernel(),
    {
        AddressSpaceId(id)
    }

    /// The identifier of a user address space. Nothing is tested when the
    /// program runs: that `id` is not zero is the caller's to show.
    pub fn new_unchecked(id: u64) -> (space: AddressSpaceId)
        requires
            id != 0,
        ensures
            space.0 == id,
            !space.spec_is_kernel(),
    {
        AddressSpaceId(id)
    }

    /// The identifier as it is shown in a log.
    pub open spec fn display_text(self) -> Seq<char> {
        if self.0 == 0 {
            "AddressSpace(KERNEL)"@
        } else {
            "AddressSpace("@ + dec_digits(self.0 as nat) + ")"@
        }
    }

    /// The identifier for a log: `AddressSpace(KERNEL)` for the kernel's,
    /// `AddressSpace(` and the number in decimal and `)` for any other.
    pub fn to_string(&self) -> (text: String)
        ensures
            text@ == self.display_text(),
    {
        if self.is_kernel() {
            String::from_str("AddressSpace(KERNEL)")
        } else {
            let mut out = String::from_str("AddressSpace(");
            push_dec(&mut out, self.0);
            out.append(")");
            out
        }
    }

    /// Whether the identifier names the kernel's address space.
    pub open spec fn spec_is_kernel(&self) -> bool {
        self.0 == 0
    }

    /// Whether the identifier names the kernel's address space.
    #[verifier::when_used_as_spec(spec_is_kernel)]
    pub fn is_kernel(&self) -> (kernel: bool)
        ensures
            kernel == (self.0 == 0),
    {
        self.0 == 0
    }
}


/// What a request to map kernel memory fails with, if it fails: the start
/// is off a page boundary, or the region is refused.
pub open spec fn kernel_region_error(start: u64, size: u64) -> Option<PagingError> {
    if !is_page_aligned(start) {
        Some(PagingError::Misaligned { addr: start, required: PAGE_SIZE })
    } else {
        region_error(start, size)
    }
}

/// What a request to map user memory fails with, if it fails: the start is
/// off a page boundary, the region is refused, or it lies in kernel space,
/// where memory with user access has no place.
pub open spec fn user_region_error(start: u64, size: u64) -> Option<PagingError> {
    if !is_page_aligned(start) {
        Some(PagingError::Misaligned { addr: start, required: PAGE_SIZE })
    } else if region_error(start, size) is Some {
        region_error(start, size)
    } else if start >= USER_SPACE_END {
        Some(PagingError::InvalidFlags)
    } else {
        None
    }
}

/// The kernel's flags suit an identity mapping wherever it starts, so the
/// flags never are what a kernel mapping fails on.
pub proof fn lemma_kernel_region_flags(start: u64, size: u64)
    ensures
        mapping_error(start, size, KERNEL_REGION_FLAGS, MapType::Identity) == kernel_region_error(
            start,
            size,
        ),
{
    assert(KERNEL_REGION_FLAGS & PRESENT == PRESENT) by (bit_vector);
    assert(KERNEL_REGION_FLAGS & USER_ACCESSIBLE != USER_ACCESSIBLE) by (bit_vector);
}

/// The user flags suit an allocated mapping exactly where it starts below
/// the end of user space.
pub proof fn lemma_user_region_flags(start: u64, size: u64)
    ensures
        mapping_error(start, size, USER_REGION_FLAGS, MapType::Allocate) == user_region_error(
            start,
            size,
        ),
{
    assert(USER_REGION_FLAGS & PRESENT == PRESENT) by (bit_vector);
    assert(USER_REGION_FLAGS & USER_ACCESSIBLE == USER_ACCESSIBLE) by (bit_vector);
    assert(USER_REGION_FLAGS & GLOBAL != GLOBAL) by (bit_vector);
}

/// A user region that is mapped and counted raises the user pages and the
/// mapped pages by the number of its pages, the size rounded up, and leaves
/// the kernel pages as they were.
pub proof fn lemma_user_region_counted(stats: MemoryStats, start: u64, size: u64)
    requires
        user_region_error(start, size) is None,
        stats.mapped_pages == stats.user_pages + stats.kernel_pages,
        stats.mapped_pages + pages_for(size) <= u64::MAX,
    ensures
        ({
            let walk = WalkState::begin(start, size, USER_REGION_FLAGS, MapType::Allocate, false);
            let counted = stats.plus(walk.pages, walk.user());
            &&& walk.user()
            &&& walk.pages == pages_for(size)
            &&& counted.user_pages == stats.user_pages + pages_for(size)
            &&& counted.mapped_pages == stats.mapped_pages + pages_for(size)
            &&& counted.kernel_pages == stats.kernel_pages
        }),
{
    lemma_user_region_flags(start, size);
    lemma_begin(start, size, USER_REGION_FLAGS, MapType::Allocate, false);
}

/// A kernel region that is mapped and counted raises the kernel pages and
/// the mapped pages by the number of its pages, and leaves the user pages
/// as they were.
pub proof fn lemma_kernel_region_counted(stats: MemoryStats, start: u64, size: u64)
    requires
        kernel_region_error(start, size) is None,
        stats.mapped_pages == stats.user_pages + stats.kernel_pages,
        stats.mapped_pages + pages_for(size) <= u64::MAX,
    ensures
        ({
            let walk = WalkState::begin(start, size, KERNEL_REGION_FLAGS, MapType::Identity, false);
            let counted = stats.plus(walk.pages, walk.user());
            &&& !walk.user()
            &&& walk.pages == pages_for(size)
            &&& counted.kernel_pages == stats.kernel_pages + pages_for(size)
            &&& counted.mapped_pages == stats.mapped_pages + pages_for(size)
            &&& counted.user_pages == stats.user_pages
        }),
{
    lemma_kernel_region_flags(start, size);
    lemma_begin(start, size, KERNEL_REGION_FLAGS, MapType::Identity, false);
}

/// How many pages an address space maps.
#[derive(Clone, Copy, Debug, PartialEq, Eq, Structural)]
pub struct MemoryStats {
    /// All mapped pages.
    pub mapped_pages: u64,
    /// Mapped pages of user memory.
    pub user_pages: u64,
    /// Mapped pages of kernel memory.
    pub kernel_pages: u64,
}

impl Default for MemoryStats {
    fn default() -> (stats: MemoryStats)
        ensures
            stats == (MemoryStats { mapped_pages: 0, user_pages: 0, kernel_pages: 0 }),
    {
        MemoryStats { mapped_pages: 0, user_pages: 0, kernel_pages: 0 }
    }
}

impl MemoryStats {
    /// The counters after `pages` more pages have been mapped, as user or as
    /// kernel memory.
    pub open spec fn plus(self, pages: u64, user: bool) -> MemoryStats {
        MemoryStats {
            mapped_pages: (self.mapped_pages + pages) as u64,
            user_pages: if user {
                (self.user_pages + pages) as u64
            } else {
                self.user_pages
            },
            kernel_pages: if user {
                self.kernel_pages
            } else {
                (self.kernel_pages + pages) as u64
            },
        }
    }
}

/// An address space as a mathematical value.
pub struct SpaceState {
    /// The identifier.
    pub id: AddressSpaceId,
    /// The root table.
    pub root: PageTableRoot,
    /// The usage counters.
    pub stats: MemoryStats,
}

impl SpaceState {
    /// Every mapped page is counted once, as user or as kernel memory.
    pub open spec fn wf(self) -> bool {
        self.stats.mapped_pages == self.stats.user_pages + self.stats.kernel_pages
    }
}

/// An address space: one root table, owned, and the count of what has been
/// mapped into it.
#[derive(Debug)]
pub struct AddressSpace {
    id: AddressSpaceId,
    pt_root: PageTableRoot,
    stats: MemoryStats,
}

impl View for AddressSpace {
    type V = SpaceState;

    closed spec fn view(&self) -> SpaceState {
        SpaceState { id: self.id, root: self.pt_root, stats: self.stats }
    }
}

/// An address space in the making: what `AddressSpace::create` has settled
/// before the kernel region is mapped.
#[derive(Debug)]
pub struct NewSpace {
    id: AddressSpaceId,
    root: PageTableRoot,
}

impl NewSpace {
    /// The identifier that the address space will have.
    pub closed spec fn spec_id(&self) -> AddressSpaceId {
        self.id
    }

    /// The root table that the address space will own.
    pub closed spec fn spec_root(&self) -> PageTableRoot {
        self.root
    }

    /// The identifier that the address space will have.
    #[verifier::when_used_as_spec(spec_id)]
    pub fn id(&self) -> (id: AddressSpaceId)
        ensures
            id == self.spec_id(),
    {
        self.id
    }

    /// The root table that the address space will own. Its frame is fresh
    /// from the allocator: it is to be zero-filled before the first page is
    /// installed.
    #[verifier::when_used_as_spec(spec_root)]
    pub fn root(&self) -> (root: PageTableRoot)
        ensures
            root == self.spec_root(),
    {
        self.root
    }
}

impl AddressSpace {
    #[verifier::type_invariant]
    spec fn inv(&self) -> bool {
        self@.wf()
    }

    /// Wraps a root table that is already valid, such as the one the loader
    /// built. Nothing is counted as mapped.
    pub fn from_existing(id: AddressSpaceId, root_frame: u64, kernel_offset: u64) -> (space:
        AddressSpace)
        ensures
            space@.id == id,
            space@.root.frame() == root_frame,
            space@.root.phys_offset() == kernel_offset,
            space@.stats == (MemoryStats { mapped_pages: 0, user_pages: 0, kernel_pages: 0 }),
    {
        AddressSpace {
            id,
            pt_root: PageTableRoot::new(root_frame, kernel_offset),
            stats: MemoryStats::default(),
        }
    }

    /// Begins a new address space: checks the kernel region
    /// `[kernel_start, kernel_end)`, draws the frame of the root table from
    /// the allocator, and plans the identity mapping of the region with
    /// `KERNEL_REGION_FLAGS`.
    ///
    /// A region that is refused costs no frame. The address space itself
    /// comes from `from_created`, once the walk has finished.
    pub fn create(
        id: AddressSpaceId,
        frame_allocator: &mut EarlyFrameAllocator,
        kernel_offset: u64,
        kernel_start: u64,
        kernel_end: u64,
    ) -> (walk: PagingResult<RegionWalk<NewSpace>>)
        requires
            kernel_start <= kernel_end,
        ensures
            match walk {
                Ok(w) => {
                    &&& kernel_region_error(kernel_start, (kernel_end - kernel_start) as u64)
                        is None
                    &&& old(frame_allocator)@.allocate().0 == Some(w.carried().root().frame())
                    &&& final(frame_allocator)@ == old(frame_allocator)@.allocate().1
                    &&& w.carried().id() == id
                    &&& w.carried().root().phys_offset() == kernel_offset
                    &&& w@ == WalkState::begin(
                        kernel_start,
                        (kernel_end - kernel_start) as u64,
                        KERNEL_REGION_FLAGS,
                        MapType::Identity,
                        false,
                    )
                },
                Err(e) => {
                    &&& final(frame_allocator)@ == old(frame_allocator)@
                    &&& Some(e) == if kernel_region_error(
                        kernel_start,
                        (kernel_end - kernel_start) as u64,
                    ) is Some {
                        kernel_region_error(kernel_start, (kernel_end - kernel_start) as u64)
                    } else {
                        Some(PagingError::OutOfFrames)
                    }
                    &&& e == PagingError::OutOfFrames ==> old(frame_allocator)@.allocate().0
                        is None
                },
            },
    {
        proof {
            lemma_kernel_region_flags(kernel_start, (kernel_end - kernel_start) as u64);
        }
        let walk = match plan(
            kernel_start,
            kernel_end - kernel_start,
            KERNEL_REGION_FLAGS,
            MapType::Identity,
            false,
        ) {
            Ok(walk) => walk,
            Err(e) => {
                return Err(e);
            },
        };
        let root_frame = match frame_allocator.allocate_frame() {
            Some(frame) => frame,
            None => {
                return Err(PagingError::OutOfFrames);
            },
        };
        Ok(walk.carrying(NewSpace { id, root: PageTableRoot::new(root_frame, kernel_offset) }))
    }

    /// The address space whose kernel region has been mapped. Its pages are
    /// counted as kernel pages.
    pub fn from_created(mapped: MappedRegion<NewSpace>) -> (space: AddressSpace)
        ensures
            space@.id == mapped.carried().id(),
            space@.root == mapped.carried().root(),
            space@.stats == (MemoryStats {
                mapped_pages: mapped@.pages,
                user_pages: 0,
                kernel_pages: mapped@.pages,
            }),
    {
        let kernel_pages = mapped.pages();
        let carried = mapped.into_payload();
        AddressSpace {
            id: carried.id,
            pt_root: carried.root,
            stats: MemoryStats { mapped_pages: kernel_pages, user_pages: 0, kernel_pages },
        }
    }

    /// Plans the mapping of user memory: `USER_REGION_FLAGS`, each page on a
    /// frame drawn from the allocator.
    pub fn map_user_region(&self, start: u64, size: u64) -> (walk: PagingResult<RegionWalk<()>>)
        ensures
            match walk {
                Ok(w) => user_region_error(start, size) is None && w@ == WalkState::begin(
                    start,
                    size,
                    USER_REGION_FLAGS,
                    MapType::Allocate,
                    false,
                ),
                Err(e) => user_region_error(start, size) == Some(e),
            },
    {
        proof {
            lemma_user_region_flags(start, size);
        }
        plan(start, size, USER_REGION_FLAGS, MapType::Allocate, false)
    }

    /// Plans the mapping of kernel memory: `KERNEL_REGION_FLAGS`, each page
    /// on the frame at its own address.
    pub fn map_kernel_region(&self, start: u64, size: u64) -> (walk: PagingResult<RegionWalk<()>>)
        ensures
            match walk {
                Ok(w) => kernel_region_error(start, size) is None && w@ == WalkState::begin(
                    start,
                    size,
                    KERNEL_REGION_FLAGS,
                    MapType::Identity,
                    false,
                ),
                Err(e) => kernel_region_error(start, size) == Some(e),
            },
    {
        proof {
            lemma_kernel_region_flags(start, size);
        }
        plan(start, size, KERNEL_REGION_FLAGS, MapType::Identity, false)
    }

    /// Counts the pages of a region that has been mapped into this address
    /// space, as user or as kernel pages. The region is used up, so that it
    /// is counted once.
    pub fn record(&mut self, mapped: MappedRegion<()>)
        requires
            old(self)@.stats.mapped_pages + mapped@.pages <= u64::MAX,
        ensures
            final(self)@.id == old(self)@.id,
            final(self)@.root == old(self)@.root,
            final(self)@.stats == old(self)@.stats.plus(mapped@.pages, mapped@.user()),
    {
        proof {
            use_type_invariant(&*self);
        }
        let pages = mapped.pages();
        let stats = self.stats;
        self.stats = if mapped.is_user() {
            MemoryStats {
                mapped_pages: stats.mapped_pages + pages,
                user_pages: stats.user_pages + pages,
                kernel_pages: stats.kernel_pages,
            }
        } else {
            MemoryStats {
                mapped_pages: stats.mapped_pages + pages,
                user_pages: stats.user_pages,
                kernel_pages: stats.kernel_pages + pages,
            }
        };
    }

    /// The identifier.
    pub fn id(&self) -> (id: AddressSpaceId)
        ensures
            id == self@.id,
    {
        self.id
    }

    /// The usage counters. Every mapped page is a user page or a kernel
    /// page.
    pub fn stats(&self) -> (stats: MemoryStats)
        ensures
            stats == self@.stats,
            stats.mapped_pages == stats.user_pages + stats.kernel_pages,
    {
        proof {
            use_type_invariant(self);
        }
        self.stats
    }

    /// Start address of the frame that holds the root table.
    pub fn root_frame(&self) -> (frame: u64)
        ensures
            frame == self@.root.frame(),
    {
        self.pt_root.frame()
    }

    /// Virtual address at which physical address zero is mapped.
    pub fn kernel_offset(&self) -> (offset: u64)
        ensures
            offset == self@.root.phys_offset(),
    {
        self.pt_root.phys_offset()
    }

    /// Where the root table can be edited, as `PageTableRoot::mapper` has
    /// it.
    pub fn mapper(&self) -> (access: Option<TableAccess>)
        ensures
            access == if self@.root.reaches(self@.root.frame()) {
                Some(
                    TableAccess {
                        table: (self@.root.phys_offset() + self@.root.frame()) as u64,
                        phys_offset: self@.root.phys_offset(),
                    },
                )
            } else {
                None
            },
    {
        self.pt_root.mapper()
    }

    /// Whether this address space is the one loaded in the root-table
    /// register, given the frame that the register names.
    pub fn is_active(&self, active_root: u64) -> (active: bool)
        ensures
            active == (self@.root.frame() == active_root),
    {
        self.pt_root.frame() == active_root
    }

    /// What forbids the destruction of this address space, if anything: it
    /// is the kernel's, or it is the one loaded in the root-table register,
    /// whose frame `active_root` is. `destroy` is for the address spaces
    /// that pass; for any other the caller has to stop.
    pub open spec fn destroy_error(state: SpaceState, active_root: u64) -> Option<PagingError> {
        if state.id.is_kernel() {
            Some(PagingError::CannotDestroyKernel)
        } else if state.root.frame() == active_root {
            Some(PagingError::CannotDestroyActive { id: state.id })
        } else {
            None
        }
    }

    /// Tests whether this address space may be destroyed.
    pub fn check_destroy(&self, active_root: u64) -> (r: PagingResult<()>)
        ensures
            r == match Self::destroy_error(self@, active_root) {
                Some(e) => Err::<(), PagingError>(e),
                None => Ok(()),
            },
    {
        if self.id.is_kernel() {
            return Err(PagingError::CannotDestroyKernel);
        }
        if self.is_active(active_root) {
            return Err(PagingError::CannotDestroyActive { id: self.id });
        }
        Ok(())
    }

    /// Ends the address space and gives the frame of its root table back to
    /// the allocator. The tables below the root, and the frames they map,
    /// are not walked: they stay as they are.
    ///
    /// Where the allocator refuses the frame (see
    /// `EarlyFrameAllocator::deallocate_frame`) nothing changes in it, and
    /// the frame comes back as the error, for the caller to keep.
    ///
    /// The kernel's address space is never destroyed, and neither is the
    /// one that is loaded in the root-table register: `active_root` is the
    /// frame that the register names.
    pub fn destroy(self, frame_allocator: &mut EarlyFrameAllocator, active_root: u64) -> (reclaimed:
        Result<(), u64>)
        requires
            Self::destroy_error(self@, active_root) is None,
        ensures
            (reclaimed is Ok, final(frame_allocator)@) == old(frame_allocator)@.release(
                self@.root.frame(),
            ),
            reclaimed is Ok <==> old(frame_allocator)@.can_release(self@.root.frame()),
            reclaimed matches Err(frame) ==> frame == self@.root.frame(),
            reclaimed is Ok ==> {
                &&& final(frame_allocator)@.holds(self@.root.frame())
                &&& final(frame_allocator)@.available() == old(frame_allocator)@.available()
                    + PAGE_SIZE
            },
            final(frame_allocator)@.total == old(frame_allocator)@.total,
            final(frame_allocator)@.wf(),
            forall|other: u64| #[trigger]
                old(frame_allocator)@.holds(other) ==> final(frame_allocator)@.holds(other),
            forall|other: u64|
                other != self@.root.frame() ==> (#[trigger] final(frame_allocator)@.holds(other)
                    <==> old(frame_allocator)@.holds(other)),
    {
        let root_frame = self.pt_root.frame();
        if frame_allocator.deallocate_frame(root_frame) {
            Ok(())
        } else {
            Err(root_frame)
        }
    }
}

} // verus!
