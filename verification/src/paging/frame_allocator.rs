//! Physical frame allocator.
//!
//! The allocator owns a short list of page-aligned physical ranges, taken
//! from the usable regions of the firmware's memory map. It hands out one
//! frame at a time from the front of a range, and takes a frame back at
//! either end of a range or in a range of its own.

use vstd::prelude::*;
use crate::paging::addr::{LAST_PAGE, PAGE_SIZE, is_page_aligned};
use crate::paging::allocator_model::AllocatorState;
use crate::paging::memory_map::{
    lemma_retained, lemma_retained_prefix, lemma_trimmed, from_usable, reserved_end, retained,
    trim, usable_disjoint, MemoryRegion,
};
use crate::paging::ranges::{
    lemma_span_aligned, lemma_span_prefix, lemma_span_zero, range_holds, range_len, span,
};

verus! {

/// Upper limit on the number of ranges the allocator keeps.
pub const MAX_USABLE_RANGES: usize = 32;

/// Below this many available bytes the allocator reports low memory (16 MiB).
pub const LOW_WATERMARK_BYTES: u64 = 16 * 1024 * 1024;

/// Below this many available bytes the allocator reports critical memory (4 MiB).
pub const MIN_WATERMARK_BYTES: u64 = 4 * 1024 * 1024;

/// Everything below this address is reserved whatever the kernel's size (1 MiB).
pub const LOW_MEMORY_END: u64 = 0x100000;

/// A snapshot of the allocator's counters.
#[derive(Clone, Copy, Debug)]
pub struct AllocatorStats {
    /// Frames owned at construction.
    pub total_frames: u64,
    /// Frames handed out.
    pub allocated_frames: u64,
    /// Frames that can still be handed out.
    pub available_frames: u64,
    /// Bytes owned at construction.
    pub total_bytes: u64,
    /// Bytes handed out.
    pub allocated_bytes: u64,
    /// Bytes that can still be handed out.
    pub available_bytes: u64,
    /// Number of ranges kept.
    pub range_count: usize,
    /// Available bytes are below `LOW_WATERMARK_BYTES`.
    pub below_low_watermark: bool,
    /// Available bytes are below `MIN_WATERMARK_BYTES`.
    pub below_min_watermark: bool,
}

/// Why an allocation failed.
#[derive(Clone, Copy, Debug, PartialEq, Eq, Structural)]
pub enum AllocationError {
    /// No frame is left.
    OutOfMemory,
    /// Bytes are left, but no range can serve a frame.
    Fragmented,
}

/// Physical frame allocator over the usable regions of a memory map.
///
/// Allocation is first-fit, starting at the range that served the last
/// allocation, so that depleted ranges are not scanned again and again.
pub struct EarlyFrameAllocator {
    /// Ranges `(start, end)` still owned; only the first `len` entries count.
    ranges: [(u64, u64); MAX_USABLE_RANGES],
    /// Number of ranges in use.
    len: usize,
    /// Index at which the next scan starts.
    next: usize,
    /// Bytes owned at construction.
    initial_total: u64,
}

impl View for EarlyFrameAllocator {
    type V = AllocatorState;

    closed spec fn view(&self) -> AllocatorState {
        AllocatorState {
            ranges: self.ranges@.take(self.len as int),
            next: self.next as nat,
            total: self.initial_total as nat,
        }
    }
}

impl EarlyFrameAllocator {
    #[verifier::type_invariant]
    spec fn inv(&self) -> bool {
        &&& self.len <= MAX_USABLE_RANGES
        &&& self@.wf()
    }

    /// Builds the allocator from the firmware's memory map.
    ///
    /// Everything below `kernel_end`, and below the first mebibyte in any
    /// case, stays reserved. Of each usable region the whole pages above that
    /// are kept, in map order, up to `MAX_USABLE_RANGES` ranges; the rest of
    /// the map is dropped. `_kernel_start` is not used.
    ///
    /// The bytes kept must be countable in 64 bits, which they are whenever
    /// the usable regions do not overlap; `retained_bytes` tests it.
    pub fn new(memory_regions: &[MemoryRegion], _kernel_start: u64, kernel_end: u64) -> (allocator:
        Self)
        requires
            span(retained(memory_regions@, reserved_end(kernel_end))) <= u64::MAX,
        ensures
            allocator@.wf(),
            allocator@.ranges == retained(memory_regions@, reserved_end(kernel_end)),
            allocator@.next == 0,
            allocator@.total == allocator@.available(),
            forall|i: int|
                0 <= i < allocator@.ranges.len() ==> {
                    let r = #[trigger] allocator@.ranges[i];
                    &&& r.0 < r.1
                    &&& r.0 >= kernel_end
                    &&& r.0 >= LOW_MEMORY_END
                    &&& from_usable(memory_regions@, r)
                },
            allocator@.confined(memory_regions@, reserved_end(kernel_end)),
            allocator@.within(memory_regions@, reserved_end(kernel_end)),
            usable_disjoint(memory_regions@) ==> allocator@.disjoint(),
    {
        let reserved = if kernel_end > LOW_MEMORY_END {
            kernel_end
        } else {
            LOW_MEMORY_END
        };
        let mut ranges = [(0u64, 0u64); MAX_USABLE_RANGES];
        let mut len: usize = 0;
        let mut total: u64 = 0;
        let mut idx: usize = 0;
        proof {
            assert(memory_regions@.take(0) =~= Seq::<MemoryRegion>::empty());
            assert(ranges@.take(0) =~= Seq::<(u64, u64)>::empty());
        }
        while idx < memory_regions.len()
            invariant
                idx <= memory_regions@.len(),
                len <= MAX_USABLE_RANGES,
                reserved == reserved_end(kernel_end),
                ranges@.take(len as int) == retained(memory_regions@.take(idx as int), reserved),
                total == span(ranges@.take(len as int)),
                span(retained(memory_regions@, reserved)) <= u64::MAX,
            decreases memory_regions@.len() - idx,
        {
            proof {
                lemma_retained_prefix(memory_regions@, reserved, idx + 1);
                assert(memory_regions@.take(idx + 1).drop_last() =~= memory_regions@.take(
                    idx as int,
                ));
            }
            match trim(&memory_regions[idx], reserved) {
                Some(r) => {
                    if len < MAX_USABLE_RANGES {
                        proof {
                            lemma_trimmed(memory_regions@[idx as int], reserved);
                            assert(ranges@.update(len as int, r).take(len + 1) =~= ranges@.take(
                                len as int,
                            ).push(r));
                            assert(ranges@.take(len as int).push(r).drop_last() =~= ranges@.take(
                                len as int,
                            ));
                        }
                        ranges[len] = r;
                        total += r.1 - r.0;
                        len += 1;
                    }
                },
                None => {},
            }
            idx += 1;
        }
        proof {
            assert(memory_regions@.take(idx as int) =~= memory_regions@);
            lemma_retained(memory_regions@, reserved);
            lemma_span_aligned(ranges@.take(len as int));
            let state = AllocatorState {
                ranges: ranges@.take(len as int),
                next: 0,
                total: total as nat,
            };
            state.lemma_confined_within(memory_regions@, reserved);
        }
        EarlyFrameAllocator { ranges, len, next: 0, initial_total: total }
    }

    /// The number of bytes that `new` would keep from this map, or `None`
    /// where that number does not fit in 64 bits.
    pub fn retained_bytes(memory_regions: &[MemoryRegion], kernel_end: u64) -> (bytes: Option<u64>)
        ensures
            bytes == if span(retained(memory_regions@, reserved_end(kernel_end))) <= u64::MAX {
                Some(span(retained(memory_regions@, reserved_end(kernel_end))) as u64)
            } else {
                None
            },
    {
        let reserved = if kernel_end > LOW_MEMORY_END {
            kernel_end
        } else {
            LOW_MEMORY_END
        };
        let mut kept: usize = 0;
        let mut total: u64 = 0;
        let mut idx: usize = 0;
        proof {
            assert(memory_regions@.take(0) =~= Seq::<MemoryRegion>::empty());
        }
        while idx < memory_regions.len()
            invariant
                idx <= memory_regions@.len(),
                reserved == reserved_end(kernel_end),
                kept == retained(memory_regions@.take(idx as int), reserved).len(),
                total == span(retained(memory_regions@.take(idx as int), reserved)),
            decreases memory_regions@.len() - idx,
        {
            proof {
                lemma_retained_prefix(memory_regions@, reserved, idx + 1);
                lemma_retained(memory_regions@.take(idx as int), reserved);
                assert(memory_regions@.take(idx + 1).drop_last() =~= memory_regions@.take(
                    idx as int,
                ));
            }
            match trim(&memory_regions[idx], reserved) {
                Some(r) => {
                    if kept < MAX_USABLE_RANGES {
                        proof {
                            lemma_trimmed(memory_regions@[idx as int], reserved);
                            let before = retained(memory_regions@.take(idx as int), reserved);
                            assert(before.push(r).drop_last() =~= before);
                        }
                        match total.checked_add(r.1 - r.0) {
                            Some(sum) => {
                                total = sum;
                            },
                            None => {
                                return None;
                            },
                        }
                        kept += 1;
                    }
                },
                None => {},
            }
            idx += 1;
        }
        proof {
            assert(memory_regions@.take(idx as int) =~= memory_regions@);
        }
        Some(total)
    }

    /// Number of ranges the allocator keeps.
    pub fn range_count(&self) -> (count: usize)
        ensures
            count == self@.ranges.len(),
            self@.wf(),
    {
        proof {
            use_type_invariant(self);
        }
        self.len
    }

    /// Bytes owned at construction, handed out or not.
    pub fn total_memory(&self) -> (bytes: u64)
        ensures
            bytes == self@.total,
            self@.wf(),
    {
        proof {
            use_type_invariant(self);
        }
        self.initial_total
    }

    /// The range at `index`, as `(start, end)`, or `None` past the last range.
    pub fn range(&self, index: usize) -> (r: Option<(u64, u64)>)
        ensures
            r == if index < self@.ranges.len() {
                Some(self@.ranges[index as int])
            } else {
                None
            },
    {
        proof {
            use_type_invariant(self);
        }
        if index < self.len {
            Some(self.ranges[index])
        } else {
            None
        }
    }

    /// Bytes that can still be handed out: the sum over the ranges.
    pub fn available_memory(&self) -> (bytes: u64)
        ensures
            bytes == self@.available(),
            self@.wf(),
    {
        proof {
            use_type_invariant(self);
            assert(self@.ranges.take(0) =~= Seq::<(u64, u64)>::empty());
        }
        let mut sum: u64 = 0;
        let mut i: usize = 0;
        while i < self.len
            invariant
                i <= self.len,
                self.len <= MAX_USABLE_RANGES,
                self@.wf(),
                sum == span(self@.ranges.take(i as int)),
            decreases self.len - i,
        {
            proof {
                lemma_span_prefix(self@.ranges, i + 1);
                assert(self@.ranges.take(i + 1).drop_last() =~= self@.ranges.take(i as int));
                assert(self@.ranges.take(i + 1).last() == self@.ranges[i as int]);
            }
            let (start, end) = self.ranges[i];
            if end > start {
                sum += end - start;
            }
            i += 1;
        }
        proof {
            assert(self@.ranges.take(i as int) =~= self@.ranges);
        }
        sum
    }

    /// Bytes handed out so far: what was owned at construction and is no
    /// longer available.
    pub fn allocated_memory(&self) -> (bytes: u64)
        ensures
            bytes == self@.allocated(),
            bytes == self@.total - self@.available(),
            self@.wf(),
    {
        let available = self.available_memory();
        self.initial_total - available
    }

    /// All counters at once.
    pub fn stats(&self) -> (stats: AllocatorStats)
        ensures
            self@.wf(),
            stats.total_bytes == self@.total,
            stats.available_bytes == self@.available(),
            stats.allocated_bytes == self@.allocated(),
            stats.total_frames == self@.total / (PAGE_SIZE as nat),
            stats.available_frames == self@.available() / (PAGE_SIZE as nat),
            stats.allocated_frames == self@.allocated() / (PAGE_SIZE as nat),
            stats.range_count == self@.ranges.len(),
            stats.below_low_watermark == (self@.available() < LOW_WATERMARK_BYTES),
            stats.below_min_watermark == (self@.available() < MIN_WATERMARK_BYTES),
    {
        proof {
            use_type_invariant(self);
        }
        let available_bytes = self.available_memory();
        let allocated_bytes = self.allocated_memory();
        let total_bytes = self.initial_total;
        AllocatorStats {
            total_frames: total_bytes / PAGE_SIZE,
            allocated_frames: allocated_bytes / PAGE_SIZE,
            available_frames: available_bytes / PAGE_SIZE,
            total_bytes,
            allocated_bytes,
            available_bytes,
            range_count: self.len,
            below_low_watermark: available_bytes < LOW_WATERMARK_BYTES,
            below_min_watermark: available_bytes < MIN_WATERMARK_BYTES,
        }
    }

    /// Whether fewer than `LOW_WATERMARK_BYTES` bytes are available.
    pub fn is_low_memory(&self) -> (low: bool)
        ensures
            low == (self@.available() < LOW_WATERMARK_BYTES),
    {
        self.available_memory() < LOW_WATERMARK_BYTES
    }

    /// Whether fewer than `MIN_WATERMARK_BYTES` bytes are available.
    pub fn is_critical_memory(&self) -> (critical: bool)
        ensures
            critical == (self@.available() < MIN_WATERMARK_BYTES),
    {
        self.available_memory() < MIN_WATERMARK_BYTES
    }

    /// Hands out one frame as `allocate_frame` does, and says why where it
    /// cannot. With whole frames in every range the reason is always
    /// `OutOfMemory`.
    pub fn try_allocate(&mut self) -> (frame: Result<u64, AllocationError>)
        ensures
            old(self)@.wf(),
            final(self)@.wf(),
            final(self)@ == old(self)@.allocate().1,
            frame == match old(self)@.allocate().0 {
                Some(addr) => Ok::<u64, AllocationError>(addr),
                None => Err(AllocationError::OutOfMemory),
            },
    {
        match self.allocate_frame() {
            Some(addr) => Ok(addr),
            None => {
                let stats = self.stats();
                proof {
                    lemma_span_zero(self@.ranges);
                }
                if stats.available_bytes == 0 {
                    Err(AllocationError::OutOfMemory)
                } else {
                    Err(AllocationError::Fragmented)
                }
            },
        }
    }

    /// Hands out one frame, or `None` when every range is used up.
    ///
    /// The scan starts at the range that served the last allocation and goes
    /// round once. The frame comes from the front of the first range that has
    /// one left.
    pub fn allocate_frame(&mut self) -> (frame: Option<u64>)
        ensures
            old(self)@.wf(),
            final(self)@.wf(),
            (frame, final(self)@) == old(self)@.allocate(),
            frame is None <==> old(self)@.available() == 0,
            frame matches Some(addr) ==> is_page_aligned(addr) && old(self)@.holds(addr),
    {
        proof {
            use_type_invariant(&*self);
            self@.lemma_allocate();
        }
        let n = self.len;
        let mut j: usize = 0;
        while j < n
            invariant
                j <= n,
                n == self.len,
                n <= MAX_USABLE_RANGES,
                *self == *old(self),
                self@.wf(),
                forall|k: int|
                    0 <= k < self@.ranges.len() && self@.distance(k) < j ==> range_len(
                        #[trigger] self@.ranges[k],
                    ) == 0,
            decreases n - j,
        {
            proof {
                if self.next + j < n {
                    vstd::arithmetic::div_mod::lemma_small_mod((self.next + j) as nat, n as nat);
                } else {
                    vstd::arithmetic::div_mod::lemma_mod_sub_multiples_vanish(
                        (self.next + j) as int,
                        n as int,
                    );
                    vstd::arithmetic::div_mod::lemma_small_mod(
                        (self.next + j - n) as nat,
                        n as nat,
                    );
                }
            }
            let i = (self.next + j) % n;
            let (start, end) = self.ranges[i];
            proof {
                assert(self@.distance(i as int) == j);
                assert(self@.ranges[i as int] == (start, end));
            }
            if start < end {
                proof {
                    assert(self@.is_first_fit(i as int));
                    self@.lemma_first_fit_unique(i as int, self@.first_fit());
                    self@.lemma_take_from(i as int);
                    let shrunk = ((start + PAGE_SIZE) as u64, end);
                    assert(self.ranges@.update(i as int, shrunk).take(n as int)
                        =~= self@.take_from(i as int).ranges);
                }
                self.ranges[i] = (start + PAGE_SIZE, end);
                self.next = i;
                proof {
                    assert(self@ =~= old(self)@.take_from(i as int));
                }
                return Some(start);
            }
            proof {
                assert forall|k: int|
                    0 <= k < self@.ranges.len() && self@.distance(k) < j + 1 implies range_len(
                    #[trigger] self@.ranges[k],
                ) == 0 by {
                    if self@.distance(k) == j {
                        assert(k == i);
                    }
                }
            }
            j += 1;
        }
        proof {
            assert forall|k: int| 0 <= k < self@.ranges.len() implies range_len(
                #[trigger] self@.ranges[k],
            ) == 0 by {
                assert(self@.distance(k) < n);
            }
        }
        None
    }
    /// Takes one frame back, and says whether it did.
    ///
    /// The frame is refused, and nothing changes, where it is off a page
    /// boundary or the last page of the address space, where it is free
    /// already, where the allocator has got back as much as it has handed
    /// out, and where it has no place for the frame. A frame has its place
    /// in the first range that starts right after it, ends right before it
    /// or has no bytes left, or else in a new range, as long as fewer than
    /// `MAX_USABLE_RANGES` are in use.
    #[verifier::rlimit(40)]
    pub fn deallocate_frame(&mut self, frame: u64) -> (taken: bool)
        ensures
            old(self)@.wf(),
            final(self)@.wf(),
            (taken, final(self)@) == old(self)@.release(frame),
            taken == old(self)@.can_release(frame),
            final(self)@.total == old(self)@.total,
            taken ==> final(self)@.holds(frame) && final(self)@.available() == old(
                self,
            )@.available() + PAGE_SIZE,
            forall|other: u64| #[trigger] old(self)@.holds(other) ==> final(self)@.holds(other),
            forall|other: u64|
                other != frame ==> (#[trigger] final(self)@.holds(other) <==> old(self)@.holds(
                    other,
                )),
    {
        proof {
            use_type_invariant(&*self);
            self@.lemma_release(frame);
            lemma_span_aligned(self@.ranges);
        }
        if frame % PAGE_SIZE != 0 || frame >= LAST_PAGE {
            return false;
        }
        if self.available_memory() == self.initial_total {
            return false;
        }
        let n = self.len;
        let mut slot: usize = n;
        let mut i: usize = 0;
        while i < n
            invariant
                i <= n,
                n == self.len,
                n <= MAX_USABLE_RANGES,
                slot <= n,
                is_page_aligned(frame),
                frame < LAST_PAGE,
                *self == *old(self),
                self@.wf(),
                forall|k: int| 0 <= k < i ==> !range_holds(#[trigger] self@.ranges[k], frame),
                slot == n ==> forall|k: int| 0 <= k < i ==> !self@.takes(k, frame),
                slot < n ==> slot < i && self@.is_first_taker(slot as int, frame),
            decreases n - i,
        {
            let (start, end) = self.ranges[i];
            proof {
                assert(self@.ranges[i as int] == (start, end));
            }
            if start <= frame && frame < end {
                proof {
                    assert(range_holds(self@.ranges[i as int], frame));
                }
                return false;
            }
            if slot == n && (start == frame + PAGE_SIZE || end == frame || start >= end) {
                slot = i;
            }
            i += 1;
        }
        proof {
            if self@.holds(frame) {
                let k = choose|k: int|
                    0 <= k < self@.ranges.len() && range_holds(#[trigger] self@.ranges[k], frame);
                assert(!range_holds(self@.ranges[k], frame));
            }
        }
        if slot == n {
            proof {
                if exists|k: int| self@.takes(k, frame) {
                    let k = choose|k: int| self@.takes(k, frame);
                    assert(!self@.takes(k, frame));
                }
            }
            if n == MAX_USABLE_RANGES {
                return false;
            }
            let put = (frame, frame + PAGE_SIZE);
            proof {
                assert(self.ranges@.update(n as int, put).take(n as int) =~= self@.ranges);
                assert(self.ranges@.update(n as int, put).take(n + 1) =~= self@.ranges.push(put));
            }
            self.ranges[n] = put;
            self.len = n + 1;
            proof {
                assert(self@ =~= old(self)@.put_back(frame));
            }
        } else {
            let (start, end) = self.ranges[slot];
            let put = if start == frame + PAGE_SIZE {
                (frame, end)
            } else if end == frame && start < end {
                (start, frame + PAGE_SIZE)
            } else {
                (frame, frame + PAGE_SIZE)
            };
            proof {
                self@.lemma_first_taker(frame, slot as int);
                assert(self@.takes(slot as int, frame));
                assert(self.ranges@.update(slot as int, put).take(n as int)
                    =~= self@.ranges.update(slot as int, put));
            }
            self.ranges[slot] = put;
            proof {
                assert(self@ =~= old(self)@.put_back(frame));
            }
        }
        true
    }
}

} // verus!
