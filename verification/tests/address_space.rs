use os_core::paging::address_space::{
    AddressSpace, AddressSpaceId, MemoryStats, NewSpace, KERNEL_REGION_FLAGS, USER_REGION_FLAGS,
};
use os_core::paging::error::PagingError;
use os_core::paging::frame_allocator::EarlyFrameAllocator;
use os_core::paging::memory_map::{MemoryRegion, MemoryRegionKind};
use os_core::paging::init::init;
use os_core::paging::mapper::{
    MappedRegion, PageMapping, RegionWalk, WalkStep, GLOBAL, KERNEL_SPACE_START, PRESENT,
    USER_ACCESSIBLE, WRITABLE,
};
use os_core::paging::pt::{PageTableRoot, TableAccess};

fn frames_from(start: u64, end: u64) -> EarlyFrameAllocator {
    let map = [MemoryRegion { start, end, kind: MemoryRegionKind::Usable }];
    EarlyFrameAllocator::new(&map, 0, 0)
}

/// Walks a region to its end as a page table would that takes every page.
fn drive<T>(
    mut walk: RegionWalk<T>,
    frames: &mut EarlyFrameAllocator,
    seen: &mut Vec<PageMapping>,
) -> Result<MappedRegion<T>, PagingError> {
    loop {
        match walk.advance(frames)? {
            WalkStep::Finished(mapped) => return Ok(mapped),
            WalkStep::Install(pending) => {
                seen.push(pending.mapping());
                walk = pending.resolve(true)?;
            }
        }
    }
}

fn create(frames: &mut EarlyFrameAllocator, start: u64, end: u64) -> AddressSpace {
    let walk: RegionWalk<NewSpace> =
        AddressSpace::create(AddressSpaceId::new(1), frames, 0, start, end).unwrap();
    let mapped = drive(walk, frames, &mut Vec::new()).unwrap();
    AddressSpace::from_created(mapped)
}

#[test]
fn test_address_space_id() {
    assert!(AddressSpaceId::kernel().is_kernel());
    assert!(!AddressSpaceId::new_unchecked(1).is_kernel());
    assert!(!AddressSpaceId::new_unchecked(100).is_kernel());
}

#[test]
fn address_space_id_keeps_its_value() {
    assert_eq!(AddressSpaceId::kernel(), AddressSpaceId(0));
    assert_eq!(AddressSpaceId::new(7), AddressSpaceId(7));
    assert_eq!(AddressSpaceId::new_unchecked(u64::MAX).0, u64::MAX);
    assert!(!AddressSpaceId::new(7).is_kernel());
}

#[test]
fn region_flags_are_fixed() {
    assert_eq!(KERNEL_REGION_FLAGS, PRESENT | WRITABLE | GLOBAL);
    assert_eq!(USER_REGION_FLAGS, PRESENT | WRITABLE | USER_ACCESSIBLE);
    assert_eq!(KERNEL_REGION_FLAGS, 0x103);
    assert_eq!(USER_REGION_FLAGS, 0x7);
}

#[test]
fn from_existing_wraps_the_root_and_counts_nothing() {
    let space = AddressSpace::from_existing(AddressSpaceId::kernel(), 0x1000, 0xFFFF_8000_0000_0000);
    assert_eq!(space.id(), AddressSpaceId(0));
    assert_eq!(space.root_frame(), 0x1000);
    assert_eq!(space.kernel_offset(), 0xFFFF_8000_0000_0000);
    assert_eq!(space.stats(), MemoryStats { mapped_pages: 0, user_pages: 0, kernel_pages: 0 });
    assert_eq!(space.stats(), MemoryStats::default());
}

#[test]
fn create_counts_the_kernel_region_as_kernel_pages() {
    let mut frames = frames_from(0x200000, 0x20000000);
    let space = create(&mut frames, 0x100000, 0x200000);
    assert_eq!(space.stats().kernel_pages, 256);
    assert_eq!(space.stats().user_pages, 0);
    assert_eq!(space.stats().mapped_pages, 256);
    assert_eq!(space.id(), AddressSpaceId(1));
}

#[test]
fn create_draws_the_root_frame_and_identity_maps_the_kernel() {
    let mut frames = frames_from(0x200000, 0x20000000);
    let walk =
        AddressSpace::create(AddressSpaceId::new(3), &mut frames, 0x8000, 0x100000, 0x102000)
            .unwrap();
    assert_eq!(walk.payload().id(), AddressSpaceId(3));
    assert_eq!(walk.payload().root().frame(), 0x200000);
    assert_eq!(walk.payload().root().phys_offset(), 0x8000);
    assert_eq!(frames.allocated_memory(), 4096);
    let mut seen = Vec::new();
    let mapped = drive(walk, &mut frames, &mut seen).unwrap();
    assert_eq!(
        seen,
        vec![
            PageMapping { page: 0x100000, frame: 0x100000, flags: 0x103, zero_first: false },
            PageMapping { page: 0x101000, frame: 0x101000, flags: 0x103, zero_first: false },
        ]
    );
    // Only the root frame was drawn.
    assert_eq!(frames.allocated_memory(), 4096);
    let space = AddressSpace::from_created(mapped);
    assert_eq!(space.root_frame(), 0x200000);
    assert_eq!(space.kernel_offset(), 0x8000);
    assert_eq!(space.stats(), MemoryStats { mapped_pages: 2, user_pages: 0, kernel_pages: 2 });
}

#[test]
fn create_counts_a_partial_last_page() {
    let mut frames = frames_from(0x200000, 0x20000000);
    let space = create(&mut frames, 0x100000, 0x100001);
    assert_eq!(space.stats().kernel_pages, 1);
}

#[test]
fn create_fails_without_a_frame_for_the_root() {
    let mut frames = frames_from(0x200000, 0x200000);
    let walk = AddressSpace::create(AddressSpaceId::new(1), &mut frames, 0, 0x100000, 0x200000);
    assert_eq!(walk.err(), Some(PagingError::OutOfFrames));
}

#[test]
fn create_refuses_a_bad_kernel_region_before_it_draws_a_frame() {
    let mut frames = frames_from(0x200000, 0x20000000);
    let walk = AddressSpace::create(AddressSpaceId::new(1), &mut frames, 0, 0x100800, 0x200000);
    assert_eq!(walk.err(), Some(PagingError::Misaligned { addr: 0x100800, required: 4096 }));
    let walk = AddressSpace::create(AddressSpaceId::new(1), &mut frames, 0, 0x100000, 0x100000);
    assert_eq!(walk.err(), Some(PagingError::SizeTooSmall { provided: 0, required: 4096 }));
    let walk =
        AddressSpace::create(AddressSpaceId::new(1), &mut frames, 0, 0x7FFF_FFFF_F000, 0x8000_0000_1000);
    assert_eq!(walk.err(), Some(PagingError::InvalidRange));
    assert_eq!(frames.allocated_memory(), 0);
    // The region is looked at first, the allocator second.
    let mut empty = frames_from(0x200000, 0x200000);
    let walk = AddressSpace::create(AddressSpaceId::new(1), &mut empty, 0, 0x100800, 0x200000);
    assert_eq!(walk.err(), Some(PagingError::Misaligned { addr: 0x100800, required: 4096 }));
}

#[test]
fn create_surfaces_a_failed_installation() {
    let mut frames = frames_from(0x200000, 0x20000000);
    let walk =
        AddressSpace::create(AddressSpaceId::new(1), &mut frames, 0, 0x100000, 0x200000).unwrap();
    let pending = match walk.advance(&mut frames).unwrap() {
        WalkStep::Install(pending) => pending,
        WalkStep::Finished(_) => panic!("the kernel region has pages"),
    };
    assert_eq!(pending.payload().id(), AddressSpaceId(1));
    assert_eq!(pending.resolve(false).err(), Some(PagingError::MapFailed));
}

#[test]
fn two_user_regions_of_three_pages_count_six_user_pages() {
    let mut frames = frames_from(0x200000, 0x20000000);
    let mut space = create(&mut frames, 0x100000, 0x200000);
    let before = space.stats();

    let walk = space.map_user_region(0x4000_0000, 0x3000).unwrap();
    let mapped = drive(walk, &mut frames, &mut Vec::new()).unwrap();
    space.record(mapped);
    assert_eq!(space.stats().user_pages, before.user_pages + 3);

    let walk = space.map_user_region(0x5000_0000, 0x3000).unwrap();
    let mapped = drive(walk, &mut frames, &mut Vec::new()).unwrap();
    space.record(mapped);
    assert_eq!(space.stats().user_pages, before.user_pages + 6);
    assert_eq!(space.stats().user_pages, 6);
    assert_eq!(space.stats().kernel_pages, 256);
    assert_eq!(space.stats().mapped_pages, 262);
}

#[test]
fn user_region_gets_user_flags_and_fresh_frames() {
    let mut frames = frames_from(0x200000, 0x20000000);
    let space = AddressSpace::from_existing(AddressSpaceId::new(2), 0x1000, 0);
    let walk = space.map_user_region(0x4000_0000, 0x1800).unwrap();
    let mut seen = Vec::new();
    let mapped = drive(walk, &mut frames, &mut seen).unwrap();
    assert_eq!(
        seen,
        vec![
            PageMapping { page: 0x4000_0000, frame: 0x200000, flags: 0x7, zero_first: false },
            PageMapping { page: 0x4000_1000, frame: 0x201000, flags: 0x7, zero_first: false },
        ]
    );
    assert!(mapped.is_user());
}

#[test]
fn user_region_is_refused_in_kernel_space() {
    let space = AddressSpace::from_existing(AddressSpaceId::new(2), 0x1000, 0);
    assert_eq!(
        space.map_user_region(KERNEL_SPACE_START, 0x1000).err(),
        Some(PagingError::InvalidFlags)
    );
    assert_eq!(
        space.map_user_region(0x4000_0001, 0x1000).err(),
        Some(PagingError::Misaligned { addr: 0x4000_0001, required: 4096 })
    );
    assert_eq!(
        space.map_user_region(0x4000_0000, 0).err(),
        Some(PagingError::SizeTooSmall { provided: 0, required: 4096 })
    );
    assert_eq!(
        space.map_user_region(0x7FFF_FFFF_F000, 0x2000).err(),
        Some(PagingError::InvalidRange)
    );
}

#[test]
fn kernel_region_is_identity_mapped_and_counted_as_kernel_pages() {
    let mut frames = frames_from(0x200000, 0x20000000);
    let mut space = AddressSpace::from_existing(AddressSpaceId::kernel(), 0x1000, 0);
    let walk = space.map_kernel_region(0x300000, 0x2000).unwrap();
    let mut seen = Vec::new();
    let mapped = drive(walk, &mut frames, &mut seen).unwrap();
    assert_eq!(
        seen,
        vec![
            PageMapping { page: 0x300000, frame: 0x300000, flags: 0x103, zero_first: false },
            PageMapping { page: 0x301000, frame: 0x301000, flags: 0x103, zero_first: false },
        ]
    );
    assert!(!mapped.is_user());
    space.record(mapped);
    assert_eq!(space.stats(), MemoryStats { mapped_pages: 2, user_pages: 0, kernel_pages: 2 });
    assert_eq!(frames.allocated_memory(), 0);
}

#[test]
fn kernel_region_errors() {
    let space = AddressSpace::from_existing(AddressSpaceId::kernel(), 0x1000, 0);
    assert_eq!(
        space.map_kernel_region(0x300010, 0x2000).err(),
        Some(PagingError::Misaligned { addr: 0x300010, required: 4096 })
    );
    assert_eq!(
        space.map_kernel_region(0xFFFF_FFFF_FFFF_F000, 0x1001).err(),
        Some(PagingError::SizeOverflow { start: 0xFFFF_FFFF_FFFF_F000, size: 0x1001 })
    );
    assert!(space.map_kernel_region(KERNEL_SPACE_START, 0x1000).is_ok());
}

#[test]
fn stats_change_only_when_a_mapping_is_recorded() {
    let mut frames = frames_from(0x200000, 0x20000000);
    let space = AddressSpace::from_existing(AddressSpaceId::new(2), 0x1000, 0);
    let walk = space.map_user_region(0x4000_0000, 0x3000).unwrap();
    let _ = drive(walk, &mut frames, &mut Vec::new()).unwrap();
    assert_eq!(space.stats(), MemoryStats::default());
}

#[test]
fn is_active_compares_root_frames() {
    let space = AddressSpace::from_existing(AddressSpaceId::new(2), 0x5000, 0);
    assert!(space.is_active(0x5000));
    assert!(!space.is_active(0x6000));
}

#[test]
fn destroy_gives_the_root_frame_back_to_the_allocator() {
    let mut frames = frames_from(0x200000, 0x20000000);
    let total = frames.total_memory();
    let before = frames.available_memory();
    let space = create(&mut frames, 0x100000, 0x200000);
    let root = space.root_frame();
    assert_eq!(root, 0x200000);
    assert_eq!(frames.available_memory(), before - 4096);
    assert_eq!(frames.range(0), Some((0x201000, 0x20000000)));
    assert_eq!(space.check_destroy(0x1000), Ok(()));

    assert_eq!(space.destroy(&mut frames, 0x1000), Ok(()));
    assert_eq!(frames.available_memory(), before);
    assert_eq!(frames.allocated_memory(), 0);
    assert_eq!(frames.total_memory(), total);
    assert_eq!(frames.range(0), Some((0x200000, 0x20000000)));
    // The frame is free again: the next allocation hands it out.
    assert_eq!(frames.allocate_frame(), Some(root));
}

#[test]
fn the_kernel_s_and_the_active_address_space_are_not_for_destruction() {
    let kernel = AddressSpace::from_existing(AddressSpaceId::kernel(), 0x1000, 0);
    assert_eq!(kernel.check_destroy(0x9000), Err(PagingError::CannotDestroyKernel));
    // The kernel's is refused as the kernel's, active or not.
    assert_eq!(kernel.check_destroy(0x1000), Err(PagingError::CannotDestroyKernel));

    let user = AddressSpace::from_existing(AddressSpaceId::new(7), 0x5000, 0);
    assert_eq!(
        user.check_destroy(0x5000),
        Err(PagingError::CannotDestroyActive { id: AddressSpaceId(7) })
    );
    assert_eq!(user.check_destroy(0x1000), Ok(()));
    assert_eq!(user.check_destroy(0x5001), Ok(()));
}

#[test]
fn destroy_reclaims_the_root_and_nothing_below_it() {
    let mut frames = frames_from(0x200000, 0x20000000);
    let mut space = create(&mut frames, 0x100000, 0x200000);
    let walk = space.map_user_region(0x4000_0000, 0x3000).unwrap();
    let mapped = drive(walk, &mut frames, &mut Vec::new()).unwrap();
    space.record(mapped);
    // The root and three user frames are out.
    assert_eq!(frames.allocated_memory(), 4 * 4096);
    assert_eq!(space.destroy(&mut frames, 0x1000), Ok(()));
    assert_eq!(frames.allocated_memory(), 3 * 4096);
    // The root has a range of its own now; the user frames stay out.
    assert_eq!(frames.range(0), Some((0x204000, 0x20000000)));
    assert_eq!(frames.range(1), Some((0x200000, 0x201000)));
    assert_eq!(frames.range_count(), 2);
}

#[test]
fn destroy_hands_the_root_to_the_caller_where_the_allocator_refuses_it() {
    // Nothing is out, so the allocator takes nothing back.
    let mut frames = frames_from(0x200000, 0x20000000);
    let space = AddressSpace::from_existing(AddressSpaceId::new(5), 0x7000, 0);
    let before = frames.available_memory();
    assert_eq!(space.destroy(&mut frames, 0x1000), Err(0x7000));
    assert_eq!(frames.available_memory(), before);
    assert_eq!(frames.range_count(), 1);

    // A root that is free already is not taken twice.
    frames.allocate_frame().unwrap();
    let space = AddressSpace::from_existing(AddressSpaceId::new(5), 0x300000, 0);
    assert_eq!(space.destroy(&mut frames, 0x1000), Err(0x300000));
    // A root off a page boundary is no frame.
    let space = AddressSpace::from_existing(AddressSpaceId::new(5), 0x7800, 0);
    assert_eq!(space.destroy(&mut frames, 0x1000), Err(0x7800));
    assert_eq!(frames.available_memory(), before - 4096);
}

#[test]
fn mapper_gives_the_root_table_seen_through_the_offset() {
    let space = AddressSpace::from_existing(AddressSpaceId::kernel(), 0x1000, 0xFFFF_8000_0000_0000);
    assert_eq!(
        space.mapper(),
        Some(TableAccess { table: 0xFFFF_8000_0000_1000, phys_offset: 0xFFFF_8000_0000_0000 })
    );
    let root = PageTableRoot::new(0x7000, 0);
    assert_eq!(root.frame(), 0x7000);
    assert_eq!(root.phys_offset(), 0);
    assert_eq!(root.mapper(), Some(TableAccess { table: 0x7000, phys_offset: 0 }));
    assert_eq!(PageTableRoot::new(0x7000, 0x10_0000).translate(0x9000), Some(0x10_9000));
}

#[test]
fn a_frame_beyond_the_offset_s_reach_has_no_address() {
    let root = PageTableRoot::new(0x2000, 0xFFFF_FFFF_FFFF_F000);
    assert_eq!(root.translate(0xFFF), Some(u64::MAX));
    assert_eq!(root.translate(0x1000), None);
    assert_eq!(root.mapper(), None);
    let space = AddressSpace::from_existing(AddressSpaceId::new(9), 0x2000, u64::MAX);
    assert_eq!(space.mapper(), None);
}

#[test]
fn init_adopts_the_active_root_as_the_kernel_space() {
    let map = [
        MemoryRegion { start: 0x0, end: 0x9FFFF, kind: MemoryRegionKind::Usable },
        MemoryRegion { start: 0x9FFFF, end: 0x100000, kind: MemoryRegionKind::Reserved },
        MemoryRegion { start: 0x100000, end: 0x20000000, kind: MemoryRegionKind::Usable },
    ];
    let state = init(&map, 0x100000, 0x100000, Some(0xFFFF_8000_0000_0000), 0x1000).unwrap();
    assert!(state.kernel_space.id().is_kernel());
    assert_eq!(state.kernel_space.root_frame(), 0x1000);
    assert_eq!(state.kernel_space.kernel_offset(), 0xFFFF_8000_0000_0000);
    assert_eq!(state.kernel_space.stats(), MemoryStats::default());
    assert!(state.kernel_space.is_active(0x1000));
    assert_eq!(state.frame_allocator.range_count(), 1);
    assert_eq!(state.frame_allocator.range(0), Some((0x200000, 0x20000000)));
}

#[test]
fn init_without_an_offset_uses_identity() {
    let map = [MemoryRegion { start: 0x100000, end: 0x400000, kind: MemoryRegionKind::Usable }];
    let state = init(&map, 0x100000, 0x1000, None, 0x2000).unwrap();
    assert_eq!(state.kernel_space.kernel_offset(), 0);
    assert_eq!(state.frame_allocator.range(0), Some((0x101000, 0x400000)));
}
