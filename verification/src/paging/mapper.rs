//! Region mapper: validation of a virtual range, and the page-by-page plan
//! that maps it.
//!
//! Nothing here writes a page table. `map_region` checks a request and
//! returns a `RegionWalk`. The walk names one page at a time, with the frame
//! to install for it; the caller installs the translation, flushes the
//! page's cached translation, and reports the outcome before the walk goes on.

use vstd::prelude::*;
use crate::paging::addr::{PAGE_SIZE, is_page_aligned};
use crate::paging::error::{PagingError, PagingResult};
use crate::paging::frame_allocator::EarlyFrameAllocator;

verus! {

/// First address of the kernel half of the canonical address space.
pub const KERNEL_SPACE_START: u64 = 0xFFFF_8000_0000_0000;

/// End (exclusive) of the user half of the canonical address space.
pub const USER_SPACE_END: u64 = 0x0000_8000_0000_0000;

/// Page-table entry bit: the translation is valid.
pub const PRESENT: u64 = 0x1;

/// Page-table entry bit: the page may be written.
pub const WRITABLE: u64 = 0x2;

/// Page-table entry bit: the page may be reached from user mode.
pub const USER_ACCESSIBLE: u64 = 0x4;

/// Page-table entry bit: the translation survives a switch of address
/// space. Kept for mappings that every address space shares.
pub const GLOBAL: u64 = 0x100;

/// How the pages of a region get their frames.
#[derive(Clone, Copy, Debug, PartialEq, Eq, Structural)]
pub enum MapType {
    /// Each page maps to the frame at the same numeric address. For kernel
    /// regions only.
    Identity,
    /// Each page maps to a frame drawn from the frame allocator.
    Allocate,
}

/// Whether `flags` has every bit of `wanted`.
pub open spec fn has_flags(flags: u64, wanted: u64) -> bool {
    flags & wanted == wanted
}

/// Whether `flags` has every bit of `wanted`.
#[verifier::when_used_as_spec(has_flags)]
pub fn contains(flags: u64, wanted: u64) -> (all: bool)
    ensures
        all == has_flags(flags, wanted),
{
    flags & wanted == wanted
}

/// Number of pages that a region of `size` bytes covers, starting on a page
/// boundary.
pub open spec fn pages_for(size: u64) -> nat {
    ((size + PAGE_SIZE - 1) / PAGE_SIZE as int) as nat
}

/// Whether a region is meant for the kernel: an identity mapping always is,
/// and so is any region that starts at or above the end of user space.
pub open spec fn kernel_destined(start: u64, map_type: MapType) -> bool {
    map_type is Identity || start >= USER_SPACE_END
}

/// What `validate_region` objects to, if anything.
pub open spec fn region_error(start: u64, size: u64) -> Option<PagingError> {
    if size == 0 {
        Some(PagingError::SizeTooSmall { provided: size, required: PAGE_SIZE })
    } else if start + size > u64::MAX {
        Some(PagingError::SizeOverflow { start, size })
    } else if start < USER_SPACE_END && start + size > USER_SPACE_END {
        Some(PagingError::InvalidRange)
    } else {
        None
    }
}

/// Whether `flags` suits a region with this destination: the present bit in
/// any case; for the kernel no user access; for user space user access and
/// no global bit.
pub open spec fn flags_valid(start: u64, flags: u64, map_type: MapType) -> bool {
    &&& has_flags(flags, PRESENT)
    &&& if kernel_destined(start, map_type) {
        !has_flags(flags, USER_ACCESSIBLE)
    } else {
        has_flags(flags, USER_ACCESSIBLE) && !has_flags(flags, GLOBAL)
    }
}

/// The first objection to a mapping request, in the order the checks are
/// made: alignment, then the region, then the flags.
pub open spec fn mapping_error(start: u64, size: u64, flags: u64, map_type: MapType) -> Option<
    PagingError,
> {
    if !is_page_aligned(start) {
        Some(PagingError::Misaligned { addr: start, required: PAGE_SIZE })
    } else if region_error(start, size) is Some {
        region_error(start, size)
    } else if !flags_valid(start, flags, map_type) {
        Some(PagingError::InvalidFlags)
    } else {
        None
    }
}

/// Accepts addresses below the end of user space.
pub fn validate_user_address(addr: u64) -> (r: PagingResult<()>)
    ensures
        r == if addr >= USER_SPACE_END {
            Err::<(), PagingError>(PagingError::KernelAddressInUserSpace { addr })
        } else {
            Ok(())
        },
{
    if addr >= USER_SPACE_END {
        return Err(PagingError::KernelAddressInUserSpace { addr });
    }
    Ok(())
}

/// Accepts addresses on a page boundary.
pub fn validate_alignment(addr: u64) -> (r: PagingResult<()>)
    ensures
        r == if is_page_aligned(addr) {
            Ok::<(), PagingError>(())
        } else {
            Err(PagingError::Misaligned { addr, required: PAGE_SIZE })
        },
{
    if addr % PAGE_SIZE != 0 {
        return Err(PagingError::Misaligned { addr, required: PAGE_SIZE });
    }
    Ok(())
}

/// Accepts a region that is not empty, ends within 64 bits, and lies on one
/// side of the boundary between user and kernel addresses. Returns its
/// bounds `(start, end)`.
pub fn validate_region(start: u64, size: u64) -> (r: PagingResult<(u64, u64)>)
    ensures
        r == match region_error(start, size) {
            Some(e) => Err::<(u64, u64), PagingError>(e),
            None => Ok((start, (start + size) as u64)),
        },
{
    if size == 0 {
        return Err(PagingError::SizeTooSmall { provided: size, required: PAGE_SIZE });
    }
    let end = match start.checked_add(size) {
        Some(end) => end,
        None => {
            return Err(PagingError::SizeOverflow { start, size });
        },
    };
    if start < USER_SPACE_END && end > USER_SPACE_END {
        return Err(PagingError::InvalidRange);
    }
    Ok((start, end))
}

/// Accepts flags for a user mapping: user access, and no global bit.
pub fn validate_user_flags(flags: u64) -> (r: PagingResult<()>)
    ensures
        r == if has_flags(flags, USER_ACCESSIBLE) && !has_flags(flags, GLOBAL) {
            Ok::<(), PagingError>(())
        } else {
            Err(PagingError::InvalidFlags)
        },
{
    if !contains(flags, USER_ACCESSIBLE) {
        return Err(PagingError::InvalidFlags);
    }
    if contains(flags, GLOBAL) {
        return Err(PagingError::InvalidFlags);
    }
    Ok(())
}

/// Accepts flags for a kernel mapping: no user access.
pub fn validate_kernel_flags(flags: u64) -> (r: PagingResult<()>)
    ensures
        r == if has_flags(flags, USER_ACCESSIBLE) {
            Err::<(), PagingError>(PagingError::InvalidFlags)
        } else {
            Ok(())
        },
{
    if contains(flags, USER_ACCESSIBLE) {
        return Err(PagingError::InvalidFlags);
    }
    Ok(())
}

/// Accepts flags that suit the destination of a region that starts at
/// `virt_start`: kernel flags for an identity mapping and for a region in
/// kernel space, user flags for any other; and the present bit in any case.
pub fn validate_flags(virt_start: u64, flags: u64, map_type: MapType) -> (r: PagingResult<()>)
    ensures
        r == if flags_valid(virt_start, flags, map_type) {
            Ok::<(), PagingError>(())
        } else {
            Err(PagingError::InvalidFlags)
        },
{
    let for_kernel = match map_type {
        MapType::Identity => true,
        MapType::Allocate => virt_start >= USER_SPACE_END,
    };
    let suited = if for_kernel {
        validate_kernel_flags(flags)
    } else {
        validate_user_flags(flags)
    };
    match suited {
        Err(e) => {
            return Err(e);
        },
        Ok(_) => {},
    }
    if !contains(flags, PRESENT) {
        return Err(PagingError::InvalidFlags);
    }
    Ok(())
}

/// One translation to install: `page` is to map to `frame` with `flags`.
/// Both are start addresses.
#[derive(Clone, Copy, Debug, PartialEq, Eq, Structural)]
pub struct PageMapping {
    /// Start address of the virtual page.
    pub page: u64,
    /// Start address of the physical frame.
    pub frame: u64,
    /// Entry bits for the translation.
    pub flags: u64,
    /// The frame has a new owner: fill it with zeros before installing it.
    pub zero_first: bool,
}

/// A region walk as a mathematical value.
pub struct WalkState {
    /// Start address of the region's first page.
    pub start: u64,
    /// Number of pages in the region.
    pub pages: u64,
    /// Number of pages installed so far.
    pub done: u64,
    /// Entry bits for every page.
    pub flags: u64,
    /// Where the frames come from.
    pub map_type: MapType,
    /// Whether frames are zero-filled before they are installed.
    pub zeroed: bool,
}

impl WalkState {
    /// Structural validity of a walk.
    pub open spec fn wf(self) -> bool {
        &&& is_page_aligned(self.start)
        &&& self.done <= self.pages
        &&& self.start + self.pages * PAGE_SIZE <= u64::MAX + 1
        &&& self.zeroed ==> self.map_type is Allocate
    }

    /// The walk at the beginning of a region that passed validation.
    pub open spec fn begin(start: u64, size: u64, flags: u64, map_type: MapType, zeroed: bool)
        -> WalkState {
        WalkState { start, pages: pages_for(size) as u64, done: 0, flags, map_type, zeroed }
    }

    /// Start address of page number `index` of the region.
    pub open spec fn page_at(self, index: u64) -> u64 {
        (self.start + index * PAGE_SIZE) as u64
    }

    /// Whether every page has been installed.
    pub open spec fn complete(self) -> bool {
        self.done == self.pages
    }

    /// The walk after one more page has been installed.
    pub open spec fn advanced(self) -> WalkState {
        WalkState { done: (self.done + 1) as u64, ..self }
    }

    /// Whether the region counts as user memory.
    pub open spec fn user(self) -> bool {
        !kernel_destined(self.start, self.map_type)
    }
}

/// Whether `addr` is a canonical virtual address: in the user half or in
/// the kernel half, not in the gap between them.
pub open spec fn is_canonical(addr: u64) -> bool {
    addr < USER_SPACE_END || addr >= KERNEL_SPACE_START
}

/// The walk over a region that passed validation is valid, has at least one
/// page, and its pages cover the region with less than one page to spare.
pub proof fn lemma_begin(start: u64, size: u64, flags: u64, map_type: MapType, zeroed: bool)
    requires
        mapping_error(start, size, flags, map_type) is None,
        zeroed ==> map_type is Allocate,
    ensures
        WalkState::begin(start, size, flags, map_type, zeroed).wf(),
        WalkState::begin(start, size, flags, map_type, zeroed).pages == pages_for(size),
        pages_for(size) >= 1,
        start + size <= start + pages_for(size) * PAGE_SIZE < start + size + PAGE_SIZE,
{
}

/// The pages of a walk lie one page apart from the region's start, each on
/// a page boundary and inside the region.
pub proof fn lemma_page_at(walk: WalkState, index: u64)
    requires
        walk.wf(),
        index < walk.pages,
    ensures
        walk.page_at(index) == walk.start + index * PAGE_SIZE,
        is_page_aligned(walk.page_at(index)),
        walk.page_at(index) + PAGE_SIZE <= walk.start + walk.pages * PAGE_SIZE,
{
    assert(walk.start + index * PAGE_SIZE + PAGE_SIZE <= walk.start + walk.pages * PAGE_SIZE)
        by (nonlinear_arith)
        requires
            index < walk.pages,
            PAGE_SIZE == 4096,
    ;
}

/// A region that passed validation and starts at a canonical address has
/// canonical pages only: none falls into the gap between the two halves of
/// the address space.
pub proof fn lemma_pages_canonical(
    start: u64,
    size: u64,
    flags: u64,
    map_type: MapType,
    index: u64,
)
    requires
        mapping_error(start, size, flags, map_type) is None,
        is_canonical(start),
        index < pages_for(size),
    ensures
        is_canonical(WalkState::begin(start, size, flags, map_type, false).page_at(index)),
{
    lemma_begin(start, size, flags, map_type, false);
    let walk = WalkState::begin(start, size, flags, map_type, false);
    lemma_page_at(walk, index);
}

/// The plan for mapping one validated region, page by page.
///
/// A walk carries a value of the caller's choice, `T`, from its beginning to
/// the `MappedRegion` at its end: the means to say what a finished mapping
/// was for.
pub struct RegionWalk<T> {
    start: u64,
    pages: u64,
    done: u64,
    flags: u64,
    map_type: MapType,
    zeroed: bool,
    carried: T,
}

impl<T> View for RegionWalk<T> {
    type V = WalkState;

    closed spec fn view(&self) -> WalkState {
        WalkState {
            start: self.start,
            pages: self.pages,
            done: self.done,
            flags: self.flags,
            map_type: self.map_type,
            zeroed: self.zeroed,
        }
    }
}

/// A walk whose current page waits for the outcome of its installation.
pub struct PendingPage<T> {
    walk: RegionWalk<T>,
    mapping: PageMapping,
}

/// A region whose pages have all been installed.
pub struct MappedRegion<T> {
    walk: RegionWalk<T>,
}

impl<T> View for MappedRegion<T> {
    type V = WalkState;

    closed spec fn view(&self) -> WalkState {
        self.walk@
    }
}

/// What a walk asks for next.
pub enum WalkStep<T> {
    /// Install this page, then report the outcome.
    Install(PendingPage<T>),
    /// Every page is installed.
    Finished(MappedRegion<T>),
}

/// Checks a mapping request and returns the walk over its pages.
pub(crate) fn plan(virt_start: u64, size: u64, flags: u64, map_type: MapType, zeroed: bool) -> (walk:
    PagingResult<RegionWalk<()>>)
    requires
        zeroed ==> map_type is Allocate,
    ensures
        match walk {
            Ok(w) => {
                &&& mapping_error(virt_start, size, flags, map_type) is None
                &&& w@ == WalkState::begin(virt_start, size, flags, map_type, zeroed)
                &&& w@.wf()
            },
            Err(e) => mapping_error(virt_start, size, flags, map_type) == Some(e),
        },
{
    match validate_alignment(virt_start) {
        Err(e) => {
            return Err(e);
        },
        Ok(_) => {},
    }
    match validate_region(virt_start, size) {
        Err(e) => {
            return Err(e);
        },
        Ok(_) => {},
    }
    match validate_flags(virt_start, flags, map_type) {
        Err(e) => {
            return Err(e);
        },
        Ok(_) => {},
    }
    let pages = (size + (PAGE_SIZE - 1)) / PAGE_SIZE;
    Ok(RegionWalk { start: virt_start, pages, done: 0, flags, map_type, zeroed, carried: () })
}

/// Plans the mapping of `size` bytes from `virt_start` with `flags`.
///
/// The request is checked first: `virt_start` must lie on a page boundary;
/// the region must pass `validate_region`; the flags must have the present
/// bit and suit the region's destination (see `flags_valid`). The size is
/// rounded up to whole pages.
pub fn map_region(virt_start: u64, size: u64, flags: u64, map_type: MapType) -> (walk:
    PagingResult<RegionWalk<()>>)
    ensures
        match walk {
            Ok(w) => mapping_error(virt_start, size, flags, map_type) is None && w@
                == WalkState::begin(virt_start, size, flags, map_type, false) && w@.wf(),
            Err(e) => mapping_error(virt_start, size, flags, map_type) == Some(e),
        },
{
    plan(virt_start, size, flags, map_type, false)
}

/// Plans a mapping as `map_region` does in `Allocate` mode, with every frame
/// zero-filled before it is installed, so that the new owner sees nothing of
/// what the frame held before.
pub fn map_region_zeroed(virt_start: u64, size: u64, flags: u64) -> (walk: PagingResult<
    RegionWalk<()>,
>)
    ensures
        match walk {
            Ok(w) => mapping_error(virt_start, size, flags, MapType::Allocate) is None && w@
                == WalkState::begin(virt_start, size, flags, MapType::Allocate, true) && w@.wf(),
            Err(e) => mapping_error(virt_start, size, flags, MapType::Allocate) == Some(e),
        },
{
    plan(virt_start, size, flags, MapType::Allocate, true)
}

impl<T> RegionWalk<T> {
    #[verifier::type_invariant]
    spec fn inv(&self) -> bool {
        self@.wf()
    }

    /// The value that the walk carries.
    pub closed spec fn carried(&self) -> T {
        self.carried
    }

    /// The value that the walk carries.
    pub fn payload(&self) -> (carried: &T)
        ensures
            *carried == self.carried(),
    {
        &self.carried
    }

    /// The same walk with another value to carry.
    pub(crate) fn carrying<U>(self, carried: U) -> (walk: RegionWalk<U>)
        ensures
            walk@ == self@,
            walk@.wf(),
            walk.carried() == carried,
    {
        proof {
            use_type_invariant(&self);
        }
        RegionWalk {
            start: self.start,
            pages: self.pages,
            done: self.done,
            flags: self.flags,
            map_type: self.map_type,
            zeroed: self.zeroed,
            carried,
        }
    }

    /// Number of pages in the region.
    pub fn page_count(&self) -> (pages: u64)
        ensures
            pages == self@.pages,
            self@.wf(),
    {
        proof {
            use_type_invariant(self);
        }
        self.pages
    }

    /// Number of pages installed so far.
    pub fn pages_done(&self) -> (done: u64)
        ensures
            done == self@.done,
            done <= self@.pages,
    {
        proof {
            use_type_invariant(self);
        }
        self.done
    }

    /// Names the next page to install, or finishes.
    ///
    /// In `Identity` mode the frame is the one at the page's own address and
    /// the allocator is left alone. In `Allocate` mode the frame is the one
    /// that the allocator hands out now; where it has none, the walk ends
    /// with `OutOfFrames`. Pages installed before stay installed.
    pub fn advance(self, frames: &mut EarlyFrameAllocator) -> (step: PagingResult<WalkStep<T>>)
        ensures
            self@.wf(),
            final(frames)@ == if self@.complete() || self@.map_type is Identity {
                old(frames)@
            } else {
                old(frames)@.allocate().1
            },
            match step {
                Ok(WalkStep::Finished(mapped)) => {
                    &&& self@.complete()
                    &&& mapped@ == self@
                    &&& mapped.carried() == self.carried()
                },
                Ok(WalkStep::Install(pending)) => {
                    &&& !self@.complete()
                    &&& pending.walk() == self@
                    &&& pending.carried() == self.carried()
                    &&& pending.mapping().page == self@.page_at(self@.done)
                    &&& pending.mapping().flags == self@.flags
                    &&& pending.mapping().zero_first == self@.zeroed
                    &&& pending.mapping().frame == match self@.map_type {
                        MapType::Identity => self@.page_at(self@.done),
                        MapType::Allocate => old(frames)@.allocate().0->0,
                    }
                    &&& self@.map_type is Allocate ==> old(frames)@.allocate().0 is Some
                },
                Err(e) => {
                    &&& e == PagingError::OutOfFrames
                    &&& !self@.complete()
                    &&& self@.map_type is Allocate
                    &&& old(frames)@.allocate().0 is None
                },
            },
    {
        proof {
            use_type_invariant(&self);
        }
        if self.done == self.pages {
            return Ok(WalkStep::Finished(MappedRegion { walk: self }));
        }
        assert(self.start + self.done * PAGE_SIZE <= u64::MAX) by (nonlinear_arith)
            requires
                self.done < self.pages,
                self.start + self.pages * PAGE_SIZE <= u64::MAX + 1,
                PAGE_SIZE == 4096,
        ;
        let page = self.start + self.done * PAGE_SIZE;
        let frame = match self.map_type {
            MapType::Identity => page,
            MapType::Allocate => match frames.allocate_frame() {
                Some(frame) => frame,
                None => {
                    return Err(PagingError::OutOfFrames);
                },
            },
        };
        let mapping = PageMapping { page, frame, flags: self.flags, zero_first: self.zeroed };
        Ok(WalkStep::Install(PendingPage { walk: self, mapping }))
    }
}

impl<T> PendingPage<T> {
    #[verifier::type_invariant]
    spec fn inv(&self) -> bool {
        &&& self.walk@.wf()
        &&& self.walk@.done < self.walk@.pages
    }

    /// The walk that waits.
    pub closed spec fn walk(&self) -> WalkState {
        self.walk@
    }

    /// The value that the walk carries.
    pub closed spec fn carried(&self) -> T {
        self.walk.carried
    }

    /// The translation that is to be installed.
    pub closed spec fn spec_mapping(&self) -> PageMapping {
        self.mapping
    }

    /// The translation that is to be installed.
    #[verifier::when_used_as_spec(spec_mapping)]
    pub fn mapping(&self) -> (mapping: PageMapping)
        ensures
            mapping == self.spec_mapping(),
    {
        self.mapping
    }

    /// The value that the walk carries.
    pub fn payload(&self) -> (carried: &T)
        ensures
            *carried == self.carried(),
    {
        &self.walk.carried
    }

    /// Takes the outcome of the installation. Where the page table took the
    /// translation the walk goes on with the next page; where it refused,
    /// the walk ends with `MapFailed`, and the pages installed before stay
    /// installed.
    pub fn resolve(self, installed: bool) -> (walk: PagingResult<RegionWalk<T>>)
        ensures
            !self.walk().complete(),
            match walk {
                Ok(w) => {
                    &&& installed
                    &&& w@ == self.walk().advanced()
                    &&& w@.wf()
                    &&& w.carried() == self.carried()
                },
                Err(e) => !installed && e == PagingError::MapFailed,
            },
    {
        proof {
            use_type_invariant(&self);
        }
        if !installed {
            return Err(PagingError::MapFailed);
        }
        let walk = self.walk;
        Ok(
            RegionWalk {
                start: walk.start,
                pages: walk.pages,
                done: walk.done + 1,
                flags: walk.flags,
                map_type: walk.map_type,
                zeroed: walk.zeroed,
                carried: walk.carried,
            },
        )
    }
}

impl<T> MappedRegion<T> {
    #[verifier::type_invariant]
    spec fn inv(&self) -> bool {
        &&& self.walk@.wf()
        &&& self.walk@.complete()
    }

    /// The value that the walk carried.
    pub closed spec fn carried(&self) -> T {
        self.walk.carried
    }

    /// Start address of the region.
    pub fn start(&self) -> (start: u64)
        ensures
            start == self@.start,
    {
        self.walk.start
    }

    /// Number of pages that were installed.
    pub fn pages(&self) -> (pages: u64)
        ensures
            pages == self@.pages,
            self@.complete(),
            self@.wf(),
    {
        proof {
            use_type_invariant(self);
        }
        self.walk.pages
    }

    /// Whether the region counts as user memory.
    pub fn is_user(&self) -> (user: bool)
        ensures
            user == self@.user(),
    {
        match self.walk.map_type {
            MapType::Identity => false,
            MapType::Allocate => self.walk.start < USER_SPACE_END,
        }
    }

    /// Gives up the region for the value that its walk carried.
    pub fn into_payload(self) -> (carried: T)
        ensures
            carried == self.carried(),
    {
        self.walk.carried
    }
}

} // verus!
