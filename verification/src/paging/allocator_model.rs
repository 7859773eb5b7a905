//! The frame allocator as a mathematical value, and what holds of it.

use vstd::prelude::*;
use crate::paging::addr::{PAGE_SIZE, is_page_aligned};
use crate::paging::frame_allocator::MAX_USABLE_RANGES;
use crate::paging::memory_map::{MemoryRegion, from_usable};
use crate::paging::ranges::{
    apart, lemma_span_update, lemma_span_zero, range_holds, range_len, range_wf,
    ranges_disjoint, span,
};

verus! {

/// Whether the frame at `frame` lies inside a usable region of the map.
pub open spec fn frame_in_usable(regions: Seq<MemoryRegion>, frame: u64) -> bool {
    exists|k: int|
        0 <= k < regions.len() && (#[trigger] regions[k]).kind is Usable && regions[k].start
            <= frame && frame + PAGE_SIZE <= regions[k].end
}

/// The allocator as a mathematical value.
pub struct AllocatorState {
    /// The ranges `[start, end)` still owned, in the order they were retained.
    pub ranges: Seq<(u64, u64)>,
    /// Index of the range that served the last allocation.
    pub next: nat,
    /// Number of bytes owned when the allocator was built.
    pub total: nat,
}

impl AllocatorState {
    /// Structural validity of an allocator.
    pub open spec fn wf(self) -> bool {
        &&& self.ranges.len() <= MAX_USABLE_RANGES
        &&& (self.next < self.ranges.len() || self.next == 0)
        &&& forall|i: int| 0 <= i < self.ranges.len() ==> range_wf(#[trigger] self.ranges[i])
        &&& span(self.ranges) <= self.total
        &&& self.total <= u64::MAX
        &&& self.total % (PAGE_SIZE as nat) == 0
    }

    /// No two ranges share an address.
    pub open spec fn disjoint(self) -> bool {
        ranges_disjoint(self.ranges)
    }

    /// Bytes that can still be handed out.
    pub open spec fn available(self) -> nat {
        span(self.ranges)
    }

    /// Bytes handed out and not taken back.
    pub open spec fn allocated(self) -> nat {
        (self.total - self.available()) as nat
    }

    /// Whether `frame` can still be handed out.
    pub open spec fn holds(self, frame: u64) -> bool {
        exists|i: int| 0 <= i < self.ranges.len() && range_holds(#[trigger] self.ranges[i], frame)
    }

    /// No range has a frame left.
    pub open spec fn exhausted(self) -> bool {
        forall|i: int| 0 <= i < self.ranges.len() ==> range_len(#[trigger] self.ranges[i]) == 0
    }

    /// How many steps the round-robin scan takes from the hint to range `i`.
    pub open spec fn distance(self, i: int) -> int {
        if i >= self.next {
            i - self.next
        } else {
            i - self.next + self.ranges.len()
        }
    }

    /// Range `i` has a frame left, and no range nearer to the hint in
    /// round-robin order has one.
    pub open spec fn is_first_fit(self, i: int) -> bool {
        &&& 0 <= i < self.ranges.len()
        &&& range_len(self.ranges[i]) > 0
        &&& forall|k: int|
            0 <= k < self.ranges.len() && range_len(#[trigger] self.ranges[k]) > 0
                ==> self.distance(i) <= self.distance(k)
    }

    /// The range that serves the next allocation.
    pub open spec fn first_fit(self) -> int {
        choose|i: int| self.is_first_fit(i)
    }

    /// The allocator after one frame has left the front of range `i`.
    pub open spec fn take_from(self, i: int) -> AllocatorState {
        AllocatorState {
            ranges: self.ranges.update(
                i,
                ((self.ranges[i].0 + PAGE_SIZE) as u64, self.ranges[i].1),
            ),
            next: i as nat,
            total: self.total,
        }
    }

    /// One allocation: the frame handed out, if any, and the allocator afterwards.
    pub open spec fn allocate(self) -> (Option<u64>, AllocatorState) {
        if self.exhausted() {
            (None, self)
        } else {
            let i = self.first_fit();
            (Some(self.ranges[i].0), self.take_from(i))
        }
    }

    /// The allocator after `n` allocations.
    pub open spec fn after(self, n: nat) -> AllocatorState
        decreases n,
    {
        if n == 0 {
            self
        } else {
            self.after((n - 1) as nat).allocate().1
        }
    }

    /// The frame that allocation number `n` hands out, counting from zero.
    pub open spec fn nth_frame(self, n: nat) -> Option<u64> {
        self.after(n).allocate().0
    }

    /// Range `i` can take `frame` back: it starts right after the frame, or
    /// ends right before it, or has no bytes and so no place of its own.
    pub open spec fn takes(self, i: int, frame: u64) -> bool {
        &&& 0 <= i < self.ranges.len()
        &&& (self.ranges[i].0 == frame + PAGE_SIZE || self.ranges[i].1 == frame || range_len(
            self.ranges[i],
        ) == 0)
    }

    /// Range `i` can take `frame` back, and no range before it can.
    pub open spec fn is_first_taker(self, i: int, frame: u64) -> bool {
        &&& self.takes(i, frame)
        &&& forall|k: int| 0 <= k < i ==> !self.takes(k, frame)
    }

    /// The range that takes `frame` back, where one can.
    pub open spec fn first_taker(self, frame: u64) -> int {
        choose|i: int| self.is_first_taker(i, frame)
    }

    /// Whether the allocator takes `frame` back. It does so for a
    /// page-aligned frame that ends within 64 bits and is not free already,
    /// as long as it has handed out more than it has got back, and has a
    /// place for the frame: a range that takes it, or room for one more
    /// range.
    pub open spec fn can_release(self, frame: u64) -> bool {
        &&& is_page_aligned(frame)
        &&& frame + PAGE_SIZE <= u64::MAX
        &&& !self.holds(frame)
        &&& self.available() + PAGE_SIZE <= self.total
        &&& ((exists|i: int| self.takes(i, frame)) || self.ranges.len() < MAX_USABLE_RANGES)
    }

    /// Range `r` with `frame` put in front of it or behind it, or the frame
    /// alone where the range has no bytes next to it.
    pub open spec fn with_frame(r: (u64, u64), frame: u64) -> (u64, u64) {
        if r.0 == frame + PAGE_SIZE {
            (frame, r.1)
        } else if r.1 == frame && r.0 < r.1 {
            (r.0, (frame + PAGE_SIZE) as u64)
        } else {
            (frame, (frame + PAGE_SIZE) as u64)
        }
    }

    /// The allocator with `frame` back in it: in the first range that takes
    /// it, or else in a new range at the end.
    pub open spec fn put_back(self, frame: u64) -> AllocatorState {
        if exists|i: int| self.takes(i, frame) {
            let i = self.first_taker(frame);
            AllocatorState {
                ranges: self.ranges.update(i, Self::with_frame(self.ranges[i], frame)),
                ..self
            }
        } else {
            AllocatorState {
                ranges: self.ranges.push((frame, (frame + PAGE_SIZE) as u64)),
                ..self
            }
        }
    }

    /// One release: whether the frame was taken back, and the allocator
    /// afterwards. A frame that is refused changes nothing.
    pub open spec fn release(self, frame: u64) -> (bool, AllocatorState) {
        if self.can_release(frame) {
            (true, self.put_back(frame))
        } else {
            (false, self)
        }
    }

    /// Every range starts at or above `floor`, and every free frame lies
    /// inside a usable region of `regions`.
    pub open spec fn within(self, regions: Seq<MemoryRegion>, floor: u64) -> bool {
        &&& forall|i: int| 0 <= i < self.ranges.len() ==> (#[trigger] self.ranges[i]).0 >= floor
        &&& forall|frame: u64| #[trigger] self.holds(frame) ==> frame_in_usable(regions, frame)
    }

    /// Every range starts at or above `floor` and lies inside a usable
    /// region of `regions`.
    pub open spec fn confined(self, regions: Seq<MemoryRegion>, floor: u64) -> bool {
        forall|i: int|
            0 <= i < self.ranges.len() ==> (#[trigger] self.ranges[i]).0 >= floor && from_usable(
                regions,
                self.ranges[i],
            )
    }
}

/// Allocating `a` times and then `b` times is allocating `a + b` times.
pub proof fn lemma_after_add(s: AllocatorState, a: nat, b: nat)
    ensures
        s.after(a).after(b) == s.after(a + b),
    decreases b,
{
    if b > 0 {
        lemma_after_add(s, a, (b - 1) as nat);
    }
}

impl AllocatorState {
    /// At most one range is the first fit.
    pub proof fn lemma_first_fit_unique(self, i: int, j: int)
        requires
            self.wf(),
            self.is_first_fit(i),
            self.is_first_fit(j),
        ensures
            i == j,
    {
        assert(self.distance(i) <= self.distance(j));
        assert(self.distance(j) <= self.distance(i));
    }

    /// Scans on from step `j` of the round and returns the first fit, given
    /// that no earlier step found a frame.
    proof fn lemma_scan(self, j: int) -> (i: int)
        requires
            self.wf(),
            !self.exhausted(),
            0 <= j <= self.ranges.len(),
            forall|k: int|
                0 <= k < self.ranges.len() && self.distance(k) < j ==> range_len(
                    #[trigger] self.ranges[k],
                ) == 0,
        ensures
            self.is_first_fit(i),
        decreases self.ranges.len() - j,
    {
        let n = self.ranges.len() as int;
        if j == n {
            assert forall|k: int| 0 <= k < n implies range_len(#[trigger] self.ranges[k]) == 0 by {
                assert(self.distance(k) < n);
            }
            arbitrary()
        } else {
            let at = if self.next + j < n {
                self.next + j
            } else {
                self.next + j - n
            };
            assert(self.distance(at) == j);
            if range_len(self.ranges[at]) > 0 {
                at
            } else {
                assert forall|k: int|
                    0 <= k < n && self.distance(k) < j + 1 implies range_len(
                    #[trigger] self.ranges[k],
                ) == 0 by {
                    if self.distance(k) == j {
                        assert(k == at);
                    }
                }
                self.lemma_scan(j + 1)
            }
        }
    }

    /// An allocator that is not exhausted has a first fit.
    pub proof fn lemma_first_fit_exists(self)
        requires
            self.wf(),
            !self.exhausted(),
        ensures
            self.is_first_fit(self.first_fit()),
    {
        let i = self.lemma_scan(0);
    }

    /// Taking a frame from a range that has one keeps the allocator valid and
    /// lowers the available bytes by one page.
    pub proof fn lemma_take_from(self, i: int)
        requires
            self.wf(),
            0 <= i < self.ranges.len(),
            range_len(self.ranges[i]) > 0,
        ensures
            self.take_from(i).wf(),
            self.take_from(i).available() + PAGE_SIZE == self.available(),
            self.ranges[i].0 + PAGE_SIZE <= self.ranges[i].1,
    {
        let r = self.ranges[i];
        assert(range_wf(r));
        let shrunk = ((r.0 + PAGE_SIZE) as u64, r.1);
        lemma_span_update(self.ranges, i, shrunk);
        let after = self.take_from(i);
        assert forall|k: int| 0 <= k < after.ranges.len() implies range_wf(
            #[trigger] after.ranges[k],
        ) by {
            assert(range_wf(self.ranges[k]));
        }
    }

    /// What one allocation does: it fails exactly when no byte is available
    /// and then changes nothing; otherwise the frame is page-aligned, was
    /// free, and the available bytes go down by one page. The allocator stays
    /// valid, and its ranges only shrink from the front.
    pub proof fn lemma_allocate(self)
        requires
            self.wf(),
        ensures
            self.allocate().1.wf(),
            self.allocate().1.total == self.total,
            self.allocate().1.ranges.len() == self.ranges.len(),
            self.allocate().0 is None <==> self.available() == 0,
            self.allocate().0 is None ==> self.allocate().1 == self,
            self.allocate().0 matches Some(frame) ==> {
                &&& is_page_aligned(frame)
                &&& self.holds(frame)
                &&& self.allocate().1.available() + PAGE_SIZE == self.available()
                &&& self.allocate().1.allocated() == self.allocated() + PAGE_SIZE
            },
            forall|i: int|
                0 <= i < self.ranges.len() ==> {
                    &&& self.ranges[i].0 <= (#[trigger] self.allocate().1.ranges[i]).0
                    &&& self.allocate().1.ranges[i].0 <= self.ranges[i].1
                    &&& self.allocate().1.ranges[i].1 == self.ranges[i].1
                },
    {
        lemma_span_zero(self.ranges);
        if !self.exhausted() {
            self.lemma_first_fit_exists();
            let i = self.first_fit();
            self.lemma_take_from(i);
            assert(range_wf(self.ranges[i]));
            assert(range_holds(self.ranges[i], self.ranges[i].0));
            assert forall|k: int| 0 <= k < self.ranges.len() implies {
                &&& self.ranges[k].0 <= (#[trigger] self.allocate().1.ranges[k]).0
                &&& self.allocate().1.ranges[k].0 <= self.ranges[k].1
                &&& self.allocate().1.ranges[k].1 == self.ranges[k].1
            } by {
                assert(range_wf(self.ranges[k]));
            }
        } else {
            assert forall|k: int| 0 <= k < self.ranges.len() implies {
                &&& self.ranges[k].0 <= (#[trigger] self.allocate().1.ranges[k]).0
                &&& self.allocate().1.ranges[k].0 <= self.ranges[k].1
                &&& self.allocate().1.ranges[k].1 == self.ranges[k].1
            } by {
                assert(range_wf(self.ranges[k]));
            }
        }
    }

    /// With disjoint ranges, the frame handed out is no longer free, every
    /// other frame is free exactly if it was, and the ranges stay disjoint.
    pub proof fn lemma_allocate_disjoint(self)
        requires
            self.wf(),
            self.disjoint(),
        ensures
            self.allocate().1.disjoint(),
            self.allocate().0 matches Some(frame) ==> !self.allocate().1.holds(frame),
            forall|other: u64|
                self.allocate().0 != Some(other) ==> (#[trigger] self.allocate().1.holds(other)
                    <==> self.holds(other)),
    {
        self.lemma_allocate();
        let after = self.allocate().1;
        if !self.exhausted() {
            self.lemma_first_fit_exists();
            let i = self.first_fit();
            let frame = self.ranges[i].0;
            assert(range_wf(self.ranges[i]));
            assert forall|a: int, b: int| 0 <= a < b < after.ranges.len() implies apart(
                #[trigger] after.ranges[a],
                #[trigger] after.ranges[b],
            ) by {
                assert(apart(self.ranges[a], self.ranges[b]));
                assert(range_wf(self.ranges[a]) && range_wf(self.ranges[b]));
            }
            if after.holds(frame) {
                let k = choose|k: int|
                    0 <= k < after.ranges.len() && range_holds(#[trigger] after.ranges[k], frame);
                if k < i {
                    assert(apart(self.ranges[k], self.ranges[i]));
                } else if k > i {
                    assert(apart(self.ranges[i], self.ranges[k]));
                }
                assert(false);
            }
            assert forall|other: u64| self.allocate().0 != Some(other) implies (
            #[trigger] after.holds(other) <==> self.holds(other)) by {
                if after.holds(other) {
                    let k = choose|k: int|
                        0 <= k < after.ranges.len() && range_holds(
                            #[trigger] after.ranges[k],
                            other,
                        );
                    assert(range_holds(self.ranges[k], other));
                }
                if self.holds(other) {
                    let k = choose|k: int|
                        0 <= k < self.ranges.len() && range_holds(#[trigger] self.ranges[k], other);
                    assert(range_holds(after.ranges[k], other));
                }
            }
        }
    }

    /// The frame handed out is never below a floor that no range starts
    /// below, and the ranges stay above that floor and inside the usable
    /// regions they were cut from.
    pub proof fn lemma_allocate_confined(self, regions: Seq<MemoryRegion>, floor: u64)
        requires
            self.wf(),
            self.confined(regions, floor),
        ensures
            self.allocate().1.confined(regions, floor),
            self.allocate().0 matches Some(frame) ==> frame >= floor,
    {
        self.lemma_allocate();
        let after = self.allocate().1;
        if !self.exhausted() {
            self.lemma_first_fit_exists();
        }
        assert forall|i: int| 0 <= i < after.ranges.len() implies (#[trigger] after.ranges[i]).0
            >= floor && from_usable(regions, after.ranges[i]) by {
            let r = self.ranges[i];
            assert(r.0 >= floor && from_usable(regions, r));
            let k = choose|k: int|
                0 <= k < regions.len() && (#[trigger] regions[k]).kind is Usable
                    && regions[k].start <= r.0 && r.1 <= regions[k].end;
            assert(regions[k].start <= after.ranges[i].0 && after.ranges[i].1 <= regions[k].end);
        }
    }

    /// Any number of allocations keeps the allocator valid, its ranges
    /// disjoint, and frees no frame.
    pub proof fn lemma_after(self, n: nat)
        requires
            self.wf(),
            self.disjoint(),
        ensures
            self.after(n).wf(),
            self.after(n).disjoint(),
            forall|frame: u64| #[trigger] self.after(n).holds(frame) ==> self.holds(frame),
        decreases n,
    {
        if n > 0 {
            let before = self.after((n - 1) as nat);
            self.lemma_after((n - 1) as nat);
            before.lemma_allocate();
            before.lemma_allocate_disjoint();
            assert forall|frame: u64| #[trigger] self.after(n).holds(frame) implies self.holds(
                frame,
            ) by {
                if before.allocate().0 == Some(frame) {
                    assert(before.holds(frame));
                } else {
                    assert(before.allocate().1.holds(frame) <==> before.holds(frame));
                }
            }
        }
    }

    /// Any number of allocations keeps the ranges above the floor and inside
    /// the usable regions they were cut from, and so every frame handed out.
    pub proof fn lemma_after_confined(self, regions: Seq<MemoryRegion>, floor: u64, n: nat)
        requires
            self.wf(),
            self.confined(regions, floor),
        ensures
            self.after(n).wf(),
            self.after(n).confined(regions, floor),
            self.nth_frame(n) matches Some(frame) ==> frame >= floor && exists|k: int|
                0 <= k < regions.len() && (#[trigger] regions[k]).kind is Usable
                    && regions[k].start <= frame && frame + PAGE_SIZE <= regions[k].end,
        decreases n,
    {
        if n > 0 {
            let before = self.after((n - 1) as nat);
            self.lemma_after_confined(regions, floor, (n - 1) as nat);
            before.lemma_allocate();
            before.lemma_allocate_confined(regions, floor);
        }
        let now = self.after(n);
        now.lemma_allocate();
        now.lemma_allocate_confined(regions, floor);
        if now.allocate().0 is Some {
            let frame = now.allocate().0->0;
            now.lemma_first_fit_exists();
            let i = now.first_fit();
            now.lemma_take_from(i);
            assert(from_usable(regions, now.ranges[i]));
        }
    }

    /// Two allocations in a row never hand out the same frame.
    pub proof fn lemma_consecutive_frames_differ(self)
        requires
            self.wf(),
            self.disjoint(),
        ensures
            self.nth_frame(0) is Some && self.nth_frame(1) is Some ==> self.nth_frame(0)
                != self.nth_frame(1),
    {
        self.lemma_frames_never_repeat(0, 1);
    }

    /// No frame is handed out twice: two different allocations of one
    /// allocator, however many lie between them, give different frames.
    pub proof fn lemma_frames_never_repeat(self, m: nat, n: nat)
        requires
            self.wf(),
            self.disjoint(),
            m < n,
        ensures
            self.nth_frame(m) is Some && self.nth_frame(n) is Some ==> self.nth_frame(m)
                != self.nth_frame(n),
    {
        self.lemma_after(m);
        let at_m = self.after(m);
        at_m.lemma_allocate();
        at_m.lemma_allocate_disjoint();
        let next = self.after(m + 1);
        assert(next == at_m.allocate().1);
        next.lemma_after((n - m - 1) as nat);
        lemma_after_add(self, m + 1, (n - m - 1) as nat);
        let at_n = self.after(n);
        at_n.lemma_allocate();
        if self.nth_frame(m) is Some && self.nth_frame(n) is Some {
            let frame = self.nth_frame(n)->0;
            assert(at_n.holds(frame));
            assert(next.holds(frame));
        }
    }

    /// Looks on from range `j` for the first range that takes `frame`,
    /// given that none before `j` does.
    proof fn lemma_seek_taker(self, frame: u64, j: int) -> (i: int)
        requires
            0 <= j <= self.ranges.len(),
            exists|i: int| self.takes(i, frame),
            forall|k: int| 0 <= k < j ==> !self.takes(k, frame),
        ensures
            self.is_first_taker(i, frame),
        decreases self.ranges.len() - j,
    {
        if j == self.ranges.len() {
            let w = choose|i: int| self.takes(i, frame);
            assert(!self.takes(w, frame));
            arbitrary()
        } else if self.takes(j, frame) {
            j
        } else {
            self.lemma_seek_taker(frame, j + 1)
        }
    }

    /// Where a range takes the frame, there is a first one, and only one.
    pub proof fn lemma_first_taker(self, frame: u64, i: int)
        requires
            self.is_first_taker(i, frame),
        ensures
            self.first_taker(frame) == i,
    {
        let c = self.first_taker(frame);
        assert(self.is_first_taker(c, frame));
        if c < i {
            assert(!self.takes(c, frame));
        } else if i < c {
            assert(!self.takes(i, frame));
        }
    }

    /// A range that takes a frame holds, with it, the frames it held and
    /// that frame, and is one page longer.
    pub proof fn lemma_with_frame(r: (u64, u64), frame: u64)
        requires
            range_wf(r),
            is_page_aligned(frame),
            frame + PAGE_SIZE <= u64::MAX,
            !range_holds(r, frame),
            r.0 == frame + PAGE_SIZE || r.1 == frame || range_len(r) == 0,
        ensures
            range_wf(Self::with_frame(r, frame)),
            range_len(Self::with_frame(r, frame)) == range_len(r) + PAGE_SIZE,
            forall|other: u64| #[trigger]
                range_holds(Self::with_frame(r, frame), other) <==> (other == frame
                    || range_holds(r, other)),
    {
    }

    /// A range that takes a frame stays apart from every range that it was
    /// apart from and that does not hold the frame.
    pub proof fn lemma_with_frame_apart(r: (u64, u64), frame: u64, k: (u64, u64))
        requires
            range_wf(r),
            range_wf(k),
            is_page_aligned(frame),
            frame + PAGE_SIZE <= u64::MAX,
            !range_holds(r, frame),
            !range_holds(k, frame),
            r.0 == frame + PAGE_SIZE || r.1 == frame || range_len(r) == 0,
            apart(r, k),
        ensures
            apart(Self::with_frame(r, frame), k),
            apart(k, Self::with_frame(r, frame)),
    {
    }

    /// The range that a release changes or adds: its place, what it was,
    /// and what it becomes.
    proof fn lemma_put_back(self, frame: u64) -> (at: int)
        requires
            self.wf(),
            self.can_release(frame),
        ensures
            0 <= at <= self.ranges.len(),
            self.put_back(frame).total == self.total,
            self.put_back(frame).next == self.next,
            at < self.ranges.len() ==> self.takes(at, frame) && self.put_back(frame).ranges
                == self.ranges.update(at, Self::with_frame(self.ranges[at], frame)),
            at == self.ranges.len() ==> self.ranges.len() < MAX_USABLE_RANGES && self.put_back(
                frame,
            ).ranges == self.ranges.push((frame, (frame + PAGE_SIZE) as u64)),
    {
        if exists|i: int| self.takes(i, frame) {
            let i = self.lemma_seek_taker(frame, 0);
            self.lemma_first_taker(frame, i);
            i
        } else {
            self.ranges.len() as int
        }
    }

    /// What one release does. A frame that is taken back is free
    /// afterwards, every other frame is free exactly if it was, the
    /// available bytes go up by one page, and what the allocator owned at
    /// construction is unchanged. The allocator stays valid, and its ranges
    /// stay disjoint where they were.
    #[verifier::rlimit(40)]
    pub proof fn lemma_release(self, frame: u64)
        requires
            self.wf(),
        ensures
            self.release(frame).0 == self.can_release(frame),
            !self.release(frame).0 ==> self.release(frame).1 == self,
            self.release(frame).1.wf(),
            self.release(frame).1.total == self.total,
            self.release(frame).1.next == self.next,
            self.release(frame).0 ==> {
                &&& self.release(frame).1.holds(frame)
                &&& self.release(frame).1.available() == self.available() + PAGE_SIZE
                &&& self.release(frame).1.allocated() + PAGE_SIZE == self.allocated()
            },
            forall|other: u64|
                other != frame ==> (#[trigger] self.release(frame).1.holds(other) <==> self.holds(
                    other,
                )),
            forall|other: u64| #[trigger] self.holds(other) ==> self.release(frame).1.holds(other),
            self.disjoint() ==> self.release(frame).1.disjoint(),
    {
        if self.can_release(frame) {
            let after = self.put_back(frame);
            let at = self.lemma_put_back(frame);
            let n = self.ranges.len() as int;
            let was = if at < n {
                self.ranges[at]
            } else {
                (frame, frame)
            };
            let put = Self::with_frame(was, frame);
            assert(range_wf(was) && !range_holds(was, frame)) by {
                if at < n {
                    assert(range_wf(self.ranges[at]));
                }
            }
            Self::lemma_with_frame(was, frame);
            assert(after.ranges[at] == put);
            assert(after.ranges.len() == if at < n {
                n
            } else {
                n + 1
            });
            assert(span(after.ranges) == span(self.ranges) + PAGE_SIZE) by {
                if at < n {
                    lemma_span_update(self.ranges, at, put);
                } else {
                    assert(after.ranges.drop_last() =~= self.ranges);
                }
            }
            assert forall|k: int| 0 <= k < after.ranges.len() implies range_wf(
                #[trigger] after.ranges[k],
            ) by {
                if k != at {
                    assert(after.ranges[k] == self.ranges[k]);
                    assert(range_wf(self.ranges[k]));
                }
            }
            assert(after.holds(frame)) by {
                assert(range_holds(after.ranges[at], frame));
            }
            assert forall|other: u64| other != frame implies (#[trigger] after.holds(other)
                <==> self.holds(other)) by {
                if after.holds(other) {
                    let k = choose|k: int|
                        0 <= k < after.ranges.len() && range_holds(
                            #[trigger] after.ranges[k],
                            other,
                        );
                    if k == at {
                        assert(range_holds(was, other));
                        assert(range_holds(self.ranges[at], other));
                    } else {
                        assert(range_holds(self.ranges[k], other));
                    }
                }
                if self.holds(other) {
                    let k = choose|k: int|
                        0 <= k < self.ranges.len() && range_holds(#[trigger] self.ranges[k], other);
                    if k == at {
                        assert(range_holds(put, other));
                    }
                    assert(range_holds(after.ranges[k], other));
                }
            }
            if self.disjoint() {
                assert forall|a: int, b: int| 0 <= a < b < after.ranges.len() implies apart(
                    #[trigger] after.ranges[a],
                    #[trigger] after.ranges[b],
                ) by {
                    if a != at && b != at {
                        assert(apart(self.ranges[a], self.ranges[b]));
                    } else {
                        let k = if a == at {
                            b
                        } else {
                            a
                        };
                        let r = self.ranges[k];
                        assert(after.ranges[k] == r);
                        assert(range_wf(r));
                        assert(!range_holds(r, frame));
                        assert(apart(was, r)) by {
                            if at < n {
                                if k < at {
                                    assert(apart(self.ranges[k], self.ranges[at]));
                                } else {
                                    assert(apart(self.ranges[at], self.ranges[k]));
                                }
                            }
                        }
                        Self::lemma_with_frame_apart(was, frame, r);
                    }
                }
            }
        }
    }

    /// A frame that was just handed out is taken back, and every frame is
    /// free then exactly if it was free before the allocation.
    pub proof fn lemma_release_undoes_allocate(self)
        requires
            self.wf(),
            self.disjoint(),
        ensures
            self.allocate().0 matches Some(frame) ==> {
                &&& self.allocate().1.can_release(frame)
                &&& forall|other: u64| #[trigger]
                    self.allocate().1.release(frame).1.holds(other) <==> self.holds(other)
                &&& self.allocate().1.release(frame).1.available() == self.available()
            },
    {
        self.lemma_allocate();
        self.lemma_allocate_disjoint();
        if !self.exhausted() {
            self.lemma_first_fit_exists();
            let i = self.first_fit();
            let frame = self.ranges[i].0;
            let mid = self.allocate().1;
            self.lemma_take_from(i);
            assert(mid.takes(i, frame));
            mid.lemma_release(frame);
            let end = mid.release(frame).1;
            assert forall|other: u64| #[trigger] end.holds(other) <==> self.holds(other) by {
                if other != frame {
                    assert(end.holds(other) <==> mid.holds(other));
                    assert(mid.holds(other) <==> self.holds(other));
                }
            }
        }
    }

    /// Ranges that lie inside usable regions hold only frames that do.
    pub proof fn lemma_confined_within(self, regions: Seq<MemoryRegion>, floor: u64)
        requires
            self.wf(),
            self.confined(regions, floor),
        ensures
            self.within(regions, floor),
    {
        assert forall|frame: u64| #[trigger] self.holds(frame) implies frame_in_usable(
            regions,
            frame,
        ) by {
            let i = choose|i: int|
                0 <= i < self.ranges.len() && range_holds(#[trigger] self.ranges[i], frame);
            let r = self.ranges[i];
            assert(range_wf(r));
            assert(r.0 >= floor && from_usable(regions, r));
            let k = choose|k: int|
                0 <= k < regions.len() && (#[trigger] regions[k]).kind is Usable
                    && regions[k].start <= r.0 && r.1 <= regions[k].end;
            assert(regions[k].start <= frame && frame + PAGE_SIZE <= regions[k].end);
        }
    }

    /// Whatever is allocated and released, the ranges stay above the floor
    /// and the free frames inside the usable regions, as long as every
    /// frame that is released lies there: an allocation frees nothing, and
    /// the frame it hands out lies there too.
    pub proof fn lemma_within_kept(self, regions: Seq<MemoryRegion>, floor: u64, frame: u64)
        requires
            self.wf(),
            self.within(regions, floor),
        ensures
            self.allocate().1.within(regions, floor),
            self.allocate().0 matches Some(out) ==> out >= floor && frame_in_usable(regions, out),
            frame >= floor && frame_in_usable(regions, frame) ==> self.release(frame).1.within(
                regions,
                floor,
            ),
    {
        self.lemma_allocate();
        self.lemma_release(frame);
        let drawn = self.allocate().1;
        assert forall|other: u64| #[trigger] drawn.holds(other) implies frame_in_usable(
            regions,
            other,
        ) by {
            self.lemma_allocate_frees_nothing(other);
        }
        assert forall|i: int| 0 <= i < drawn.ranges.len() implies (#[trigger] drawn.ranges[i]).0
            >= floor by {
            assert(self.ranges[i].0 >= floor);
        }
        if !self.exhausted() {
            self.lemma_first_fit_exists();
        }
        if frame >= floor && frame_in_usable(regions, frame) {
            let back = self.release(frame).1;
            assert forall|other: u64| #[trigger] back.holds(other) implies frame_in_usable(
                regions,
                other,
            ) by {
                if other != frame {
                    assert(back.holds(other) <==> self.holds(other));
                }
            }
            if self.can_release(frame) {
                let at = self.lemma_put_back(frame);
                assert forall|i: int| 0 <= i < back.ranges.len() implies (
                #[trigger] back.ranges[i]).0 >= floor by {
                    if i < self.ranges.len() {
                        assert(self.ranges[i].0 >= floor);
                    }
                }
            }
        }
    }

    /// A frame that is free after an allocation was free before it.
    pub proof fn lemma_allocate_frees_nothing(self, frame: u64)
        requires
            self.wf(),
            self.allocate().1.holds(frame),
        ensures
            self.holds(frame),
    {
        self.lemma_allocate();
        let after = self.allocate().1;
        let k = choose|k: int|
            0 <= k < after.ranges.len() && range_holds(#[trigger] after.ranges[k], frame);
        assert(self.ranges[k].0 <= after.ranges[k].0);
        assert(range_holds(self.ranges[k], frame));
    }
}

} // verus!
