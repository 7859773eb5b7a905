//! The physical memory map, as the loader hands it over, and what the
//! frame allocator keeps of it.

use vstd::prelude::*;
use crate::paging::addr::{PAGE_SIZE, LAST_PAGE, ceil_to, floor_to, lemma_page_size_power_of_two};
use crate::paging::frame_allocator::{LOW_MEMORY_END, MAX_USABLE_RANGES};
use crate::paging::ranges::{
    lemma_disjoint_span, lemma_span_prefix, range_wf, ranges_disjoint, span,
};

verus! {

/// What the firmware says a physical region may be used for.
#[derive(Clone, Copy, Debug, PartialEq, Eq, Structural)]
pub enum MemoryRegionKind {
    /// Conventional memory that the kernel may use.
    Usable,
    /// Anything else: firmware data, devices, the loader's own mappings.
    Reserved,
}

/// One entry of the physical memory map: the bytes `[start, end)` and their kind.
#[derive(Clone, Copy, Debug, PartialEq, Eq, Structural)]
pub struct MemoryRegion {
    /// Physical address of the first byte.
    pub start: u64,
    /// Physical address after the last byte.
    pub end: u64,
    /// What the bytes may be used for.
    pub kind: MemoryRegionKind,
}

/// End of the reserved prefix of physical memory: the kernel's end, and never
/// less than the first mebibyte.
pub open spec fn reserved_end(kernel_end: u64) -> u64 {
    if kernel_end > LOW_MEMORY_END {
        kernel_end
    } else {
        LOW_MEMORY_END
    }
}

/// The part of `region` that the allocator keeps: the whole pages of a usable
/// region that lie at or above `reserved`, if there are any.
pub open spec fn trimmed(region: MemoryRegion, reserved: u64) -> Option<(u64, u64)> {
    let lowest = if region.start > reserved {
        region.start
    } else {
        reserved
    };
    let start = ceil_to(lowest as int, PAGE_SIZE as int);
    let end = floor_to(region.end as int, PAGE_SIZE as int);
    if region.kind is Usable && start < end {
        Some((start as u64, end as u64))
    } else {
        None
    }
}

/// The ranges kept from a memory map, in map order. Once
/// `MAX_USABLE_RANGES` ranges are kept, the rest of the map is dropped.
pub open spec fn retained(regions: Seq<MemoryRegion>, reserved: u64) -> Seq<(u64, u64)>
    decreases regions.len(),
{
    if regions.len() == 0 {
        Seq::empty()
    } else {
        let before = retained(regions.drop_last(), reserved);
        match trimmed(regions.last(), reserved) {
            Some(r) => if before.len() < MAX_USABLE_RANGES {
                before.push(r)
            } else {
                before
            },
            None => before,
        }
    }
}

/// No two usable regions of the map share an address.
pub open spec fn usable_disjoint(regions: Seq<MemoryRegion>) -> bool {
    forall|i: int, j: int|
        0 <= i < j < regions.len() && (#[trigger] regions[i]).kind is Usable && (
        #[trigger] regions[j]).kind is Usable ==> {
            ||| regions[i].end <= regions[j].start
            ||| regions[j].end <= regions[i].start
        }
}

/// Whether the range `r` lies inside a usable region of the map.
pub open spec fn from_usable(regions: Seq<MemoryRegion>, r: (u64, u64)) -> bool {
    exists|k: int|
        0 <= k < regions.len() && (#[trigger] regions[k]).kind is Usable && regions[k].start
            <= r.0 && r.1 <= regions[k].end
}

/// The part of `region` that the allocator keeps.
pub(crate) fn trim(region: &MemoryRegion, reserved: u64) -> (kept: Option<(u64, u64)>)
    ensures
        kept == trimmed(*region, reserved),
{
    match region.kind {
        MemoryRegionKind::Usable => {},
        MemoryRegionKind::Reserved => {
            return None;
        },
    }
    let lowest = if region.start > reserved {
        region.start
    } else {
        reserved
    };
    if lowest > LAST_PAGE {
        // Rounded up, the start leaves the address space: no page is left.
        return None;
    }
    proof {
        lemma_page_size_power_of_two();
    }
    let start = x86_64::addr::align_up(lowest, PAGE_SIZE);
    let end = x86_64::addr::align_down(region.end, PAGE_SIZE);
    if start >= end {
        return None;
    }
    Some((start, end))
}

/// What `trimmed` keeps is a non-empty page-aligned range inside the region
/// and at or above the reserved prefix.
pub proof fn lemma_trimmed(region: MemoryRegion, reserved: u64)
    ensures
        trimmed(region, reserved) matches Some(r) ==> {
            &&& range_wf(r)
            &&& r.0 < r.1
            &&& r.0 >= reserved
            &&& region.kind is Usable
            &&& region.start <= r.0
            &&& r.1 <= region.end
        },
{
}

/// The ranges kept from a memory map: at most `MAX_USABLE_RANGES`, each
/// non-empty, page-aligned, at or above the reserved prefix and inside a
/// usable region; and disjoint where the usable regions are.
pub proof fn lemma_retained(regions: Seq<MemoryRegion>, reserved: u64)
    ensures
        retained(regions, reserved).len() <= MAX_USABLE_RANGES,
        retained(regions, reserved).len() <= regions.len(),
        forall|i: int|
            0 <= i < retained(regions, reserved).len() ==> {
                let r = #[trigger] retained(regions, reserved)[i];
                &&& range_wf(r)
                &&& r.0 < r.1
                &&& r.0 >= reserved
                &&& from_usable(regions, r)
            },
        usable_disjoint(regions) ==> ranges_disjoint(retained(regions, reserved)),
    decreases regions.len(),
{
    if regions.len() > 0 {
        let front = regions.drop_last();
        let before = retained(front, reserved);
        let kept = retained(regions, reserved);
        let m = regions.len() - 1;
        lemma_retained(front, reserved);
        lemma_trimmed(regions.last(), reserved);
        assert forall|i: int| 0 <= i < kept.len() implies {
            let r = #[trigger] kept[i];
            &&& range_wf(r)
            &&& r.0 < r.1
            &&& r.0 >= reserved
            &&& from_usable(regions, r)
        } by {
            if i < before.len() {
                assert(kept[i] == before[i]);
                let k = choose|k: int|
                    0 <= k < front.len() && (#[trigger] front[k]).kind is Usable && front[k].start
                        <= before[i].0 && before[i].1 <= front[k].end;
                assert(regions[k] == front[k]);
            } else {
                assert(regions[m] == regions.last());
            }
        }
        if usable_disjoint(regions) {
            assert(usable_disjoint(front)) by {
                assert forall|i: int, j: int|
                    0 <= i < j < front.len() && (#[trigger] front[i]).kind is Usable && (
                    #[trigger] front[j]).kind is Usable implies {
                    ||| front[i].end <= front[j].start
                    ||| front[j].end <= front[i].start
                } by {
                    assert(regions[i] == front[i]);
                    assert(regions[j] == front[j]);
                }
            }
            assert forall|i: int, j: int| 0 <= i < j < kept.len() implies {
                ||| (#[trigger] kept[i]).1 <= (#[trigger] kept[j]).0
                ||| kept[j].1 <= kept[i].0
            } by {
                if j < before.len() {
                    assert(kept[i] == before[i]);
                    assert(kept[j] == before[j]);
                } else {
                    assert(kept[i] == before[i]);
                    let k = choose|k: int|
                        0 <= k < front.len() && (#[trigger] front[k]).kind is Usable
                            && front[k].start <= before[i].0 && before[i].1 <= front[k].end;
                    assert(regions[k] == front[k]);
                    assert(regions[m] == regions.last());
                }
            }
        }
    }
}

/// What is kept from the first `n` regions of a map is the beginning of what
/// is kept from the whole map.
pub proof fn lemma_retained_prefix(regions: Seq<MemoryRegion>, reserved: u64, n: int)
    requires
        0 <= n <= regions.len(),
    ensures
        retained(regions.take(n), reserved).len() <= retained(regions, reserved).len(),
        retained(regions.take(n), reserved) == retained(regions, reserved).take(
            retained(regions.take(n), reserved).len() as int,
        ),
        span(retained(regions.take(n), reserved)) <= span(retained(regions, reserved)),
    decreases regions.len(),
{
    let whole = retained(regions, reserved);
    if n == regions.len() {
        assert(regions.take(n) =~= regions);
        assert(whole.take(whole.len() as int) =~= whole);
    } else {
        let front = regions.drop_last();
        lemma_retained_prefix(front, reserved, n);
        assert(front.take(n) =~= regions.take(n));
        let part = retained(regions.take(n), reserved);
        let before = retained(front, reserved);
        assert(part =~= whole.take(part.len() as int)) by {
            assert(part =~= before.take(part.len() as int));
            assert(before =~= whole.take(before.len() as int));
        }
    }
    lemma_span_prefix(whole, retained(regions.take(n), reserved).len() as int);
}

/// Whatever the map holds and wherever the kernel ends: every range that is
/// kept starts at or above the kernel's end and the first mebibyte, and lies
/// inside a region that the map marks usable.
pub proof fn lemma_kept_above_kernel(regions: Seq<MemoryRegion>, kernel_end: u64)
    ensures
        forall|i: int|
            0 <= i < retained(regions, reserved_end(kernel_end)).len() ==> {
                let r = #[trigger] retained(regions, reserved_end(kernel_end))[i];
                &&& r.0 >= kernel_end
                &&& r.0 >= LOW_MEMORY_END
                &&& from_usable(regions, r)
            },
{
    lemma_retained(regions, reserved_end(kernel_end));
}

/// A map whose usable regions do not overlap keeps a number of bytes that
/// fits in 64 bits: `EarlyFrameAllocator::new` takes every such map.
pub proof fn lemma_disjoint_map_fits(regions: Seq<MemoryRegion>, reserved: u64)
    requires
        usable_disjoint(regions),
    ensures
        span(retained(regions, reserved)) <= u64::MAX,
{
    lemma_retained(regions, reserved);
    let kept = retained(regions, reserved);
    assert forall|i: int| 0 <= i < kept.len() implies (#[trigger] kept[i]).1 <= u64::MAX by {}
    lemma_disjoint_span(kept, u64::MAX as int);
}

} // verus!
