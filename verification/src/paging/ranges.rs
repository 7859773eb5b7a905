//! Lists of physical ranges `[start, end)` and the bytes they hold.

use vstd::prelude::*;
use crate::paging::addr::{PAGE_SIZE, is_page_aligned};

verus! {

/// Number of bytes left in the range `[r.0, r.1)`.
pub open spec fn range_len(r: (u64, u64)) -> nat {
    if r.0 < r.1 {
        (r.1 - r.0) as nat
    } else {
        0
    }
}

/// A range as the allocator keeps it: page-aligned bounds, start not above end.
pub open spec fn range_wf(r: (u64, u64)) -> bool {
    &&& r.0 <= r.1
    &&& is_page_aligned(r.0)
    &&& is_page_aligned(r.1)
}

/// Whether `frame` is the start of a frame inside `r`.
pub open spec fn range_holds(r: (u64, u64), frame: u64) -> bool {
    is_page_aligned(frame) && r.0 <= frame < r.1
}

/// Total number of bytes in a list of ranges.
pub open spec fn span(ranges: Seq<(u64, u64)>) -> nat
    decreases ranges.len(),
{
    if ranges.len() == 0 {
        0
    } else {
        span(ranges.drop_last()) + range_len(ranges.last())
    }
}

/// The two ranges share no address. A range without bytes shares none,
/// wherever it lies.
pub open spec fn apart(a: (u64, u64), b: (u64, u64)) -> bool {
    ||| a.1 <= b.0
    ||| b.1 <= a.0
    ||| range_len(a) == 0
    ||| range_len(b) == 0
}

/// No two of the ranges share an address.
pub open spec fn ranges_disjoint(ranges: Seq<(u64, u64)>) -> bool {
    forall|i: int, j: int|
        0 <= i < j < ranges.len() ==> apart(#[trigger] ranges[i], #[trigger] ranges[j])
}

/// Index of a range whose end no other range's end exceeds.
pub open spec fn highest(ranges: Seq<(u64, u64)>) -> int
    decreases ranges.len(),
{
    if ranges.len() <= 1 {
        0
    } else {
        let before = highest(ranges.drop_last());
        if ranges.last().1 >= ranges[before].1 {
            ranges.len() - 1
        } else {
            before
        }
    }
}

/// Replacing one range changes the total by the difference of the two lengths.
pub proof fn lemma_span_update(ranges: Seq<(u64, u64)>, i: int, r: (u64, u64))
    requires
        0 <= i < ranges.len(),
    ensures
        span(ranges.update(i, r)) + range_len(ranges[i]) == span(ranges) + range_len(r),
    decreases ranges.len(),
{
    let updated = ranges.update(i, r);
    if i == ranges.len() - 1 {
        assert(updated.drop_last() =~= ranges.drop_last());
    } else {
        lemma_span_update(ranges.drop_last(), i, r);
        assert(updated.drop_last() =~= ranges.drop_last().update(i, r));
    }
}

/// Taking one range out lowers the total by that range's length.
pub proof fn lemma_span_remove(ranges: Seq<(u64, u64)>, i: int)
    requires
        0 <= i < ranges.len(),
    ensures
        span(ranges.remove(i)) + range_len(ranges[i]) == span(ranges),
    decreases ranges.len(),
{
    let rest = ranges.remove(i);
    if i == ranges.len() - 1 {
        assert(rest =~= ranges.drop_last());
    } else {
        lemma_span_remove(ranges.drop_last(), i);
        assert(rest.drop_last() =~= ranges.drop_last().remove(i));
        assert(rest.last() == ranges.last());
    }
}

/// A list of ranges has no bytes exactly when each of its ranges has none.
pub proof fn lemma_span_zero(ranges: Seq<(u64, u64)>)
    ensures
        span(ranges) == 0 <==> forall|i: int|
            0 <= i < ranges.len() ==> range_len(#[trigger] ranges[i]) == 0,
    decreases ranges.len(),
{
    if ranges.len() > 0 {
        let front = ranges.drop_last();
        lemma_span_zero(front);
        if span(ranges) == 0 {
            assert forall|i: int| 0 <= i < ranges.len() implies range_len(
                #[trigger] ranges[i],
            ) == 0 by {
                if i < ranges.len() - 1 {
                    assert(front[i] == ranges[i]);
                }
            }
        } else if span(front) != 0 {
            let i = choose|i: int| 0 <= i < front.len() && range_len(#[trigger] front[i]) != 0;
            assert(front[i] == ranges[i]);
        }
    }
}

/// Page-aligned ranges hold a whole number of pages.
pub proof fn lemma_span_aligned(ranges: Seq<(u64, u64)>)
    requires
        forall|i: int| 0 <= i < ranges.len() ==> range_wf(#[trigger] ranges[i]),
    ensures
        span(ranges) % (PAGE_SIZE as nat) == 0,
    decreases ranges.len(),
{
    if ranges.len() > 0 {
        let front = ranges.drop_last();
        assert forall|i: int| 0 <= i < front.len() implies range_wf(#[trigger] front[i]) by {
            assert(front[i] == ranges[i]);
        }
        lemma_span_aligned(front);
        assert(range_wf(ranges.last()));
    }
}

/// The total of a prefix is not above the total of the whole list.
pub proof fn lemma_span_prefix(ranges: Seq<(u64, u64)>, n: int)
    requires
        0 <= n <= ranges.len(),
    ensures
        span(ranges.take(n)) <= span(ranges),
    decreases ranges.len(),
{
    if n == ranges.len() {
        assert(ranges.take(n) =~= ranges);
    } else {
        lemma_span_prefix(ranges.drop_last(), n);
        assert(ranges.drop_last().take(n) =~= ranges.take(n));
    }
}

/// Two lists whose ranges have the same lengths, place by place, have the
/// same total.
pub proof fn lemma_span_same_lengths(a: Seq<(u64, u64)>, b: Seq<(u64, u64)>)
    requires
        a.len() == b.len(),
        forall|i: int| 0 <= i < a.len() ==> range_len(#[trigger] a[i]) == range_len(b[i]),
    ensures
        span(a) == span(b),
    decreases a.len(),
{
    if a.len() > 0 {
        assert forall|i: int| 0 <= i < a.drop_last().len() implies range_len(
            #[trigger] a.drop_last()[i],
        ) == range_len(b.drop_last()[i]) by {
            assert(a.drop_last()[i] == a[i]);
            assert(b.drop_last()[i] == b[i]);
        }
        lemma_span_same_lengths(a.drop_last(), b.drop_last());
        assert(range_len(a[a.len() - 1]) == range_len(b[a.len() - 1]));
    }
}

/// `highest` names a range, and no range ends above it.
pub proof fn lemma_highest(ranges: Seq<(u64, u64)>)
    requires
        ranges.len() > 0,
    ensures
        0 <= highest(ranges) < ranges.len(),
        forall|i: int| 0 <= i < ranges.len() ==> (#[trigger] ranges[i]).1 <= ranges[highest(ranges)].1,
    decreases ranges.len(),
{
    if ranges.len() > 1 {
        let front = ranges.drop_last();
        lemma_highest(front);
        assert forall|i: int| 0 <= i < ranges.len() implies (#[trigger] ranges[i]).1
            <= ranges[highest(ranges)].1 by {
            if i < front.len() {
                assert(front[i] == ranges[i]);
                assert(front[highest(front)] == ranges[highest(front)]);
            }
        }
    }
}

/// Disjoint ranges that end at or below `bound` hold no more than `bound`
/// bytes between them.
pub proof fn lemma_disjoint_span(ranges: Seq<(u64, u64)>, bound: int)
    requires
        0 <= bound,
        ranges_disjoint(ranges),
        forall|i: int| 0 <= i < ranges.len() ==> (#[trigger] ranges[i]).1 <= bound,
    ensures
        span(ranges) <= bound,
    decreases ranges.len(),
{
    if ranges.len() > 0 {
        lemma_highest(ranges);
        let m = highest(ranges);
        let top = ranges[m];
        let rest = ranges.remove(m);
        lemma_span_remove(ranges, m);
        assert forall|i: int, j: int| 0 <= i < j < rest.len() implies apart(
            #[trigger] rest[i],
            #[trigger] rest[j],
        ) by {
            let a = if i < m {
                i
            } else {
                i + 1
            };
            let b = if j < m {
                j
            } else {
                j + 1
            };
            assert(rest[i] == ranges[a]);
            assert(rest[j] == ranges[b]);
        }
        if top.0 < top.1 {
            // Whatever else there is ends at or below the start of the
            // highest range, or is empty.
            let lowered = rest.map_values(
                |r: (u64, u64)|
                    if r.0 < r.1 {
                        r
                    } else {
                        (0u64, 0u64)
                    },
            );
            assert forall|i: int| 0 <= i < lowered.len() implies (#[trigger] lowered[i]).1
                <= top.0 by {
                let a = if i < m {
                    i
                } else {
                    i + 1
                };
                assert(rest[i] == ranges[a]);
                assert(ranges[a].1 <= top.1);
                if a < m {
                    assert(apart(ranges[a], ranges[m]));
                } else {
                    assert(apart(ranges[m], ranges[a]));
                }
            }
            assert forall|i: int, j: int| 0 <= i < j < lowered.len() implies apart(
                #[trigger] lowered[i],
                #[trigger] lowered[j],
            ) by {
                assert(apart(rest[i], rest[j]));
            }
            lemma_disjoint_span(lowered, top.0 as int);
            lemma_span_same_lengths(rest, lowered);
        } else {
            assert forall|i: int| 0 <= i < rest.len() implies (#[trigger] rest[i]).1 <= bound by {
                let a = if i < m {
                    i
                } else {
                    i + 1
                };
                assert(rest[i] == ranges[a]);
            }
            lemma_disjoint_span(rest, bound);
        }
    }
}

} // verus!
