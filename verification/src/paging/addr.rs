//! Page-granular address arithmetic.

use vstd::prelude::*;

verus! {

/// Size of a physical frame and of a virtual page, in bytes.
pub const PAGE_SIZE: u64 = 4096;

/// The largest page-aligned 64-bit address.
pub const LAST_PAGE: u64 = 0xFFFF_FFFF_FFFF_F000;

/// Whether `addr` lies on a page boundary.
pub open spec fn is_page_aligned(addr: u64) -> bool {
    addr % PAGE_SIZE == 0
}

/// Whether `align` is a power of two, as `u64::is_power_of_two` has it.
pub open spec fn is_power_of_two(align: u64) -> bool {
    align != 0 && align & ((align - 1) as u64) == 0
}

/// The greatest multiple of `align` that is not above `addr`.
pub open spec fn floor_to(addr: int, align: int) -> int {
    addr - addr % align
}

/// The smallest multiple of `align` that is not below `addr`.
pub open spec fn ceil_to(addr: int, align: int) -> int {
    if addr % align == 0 {
        addr
    } else {
        addr - addr % align + align
    }
}

/// `x86_64::addr::align_down` returns the greatest address with alignment
/// `align` that is not above `addr`. It panics unless `align` is a power of
/// two.
pub assume_specification[ x86_64::addr::align_down ](addr: u64, align: u64) -> (aligned: u64)
    requires
        is_power_of_two(align),
    ensures
        aligned == floor_to(addr as int, align as int),
;

/// `x86_64::addr::align_up` returns the smallest address with alignment
/// `align` that is not below `addr`. It panics unless `align` is a power of
/// two, and when that address does not fit in 64 bits.
pub assume_specification[ x86_64::addr::align_up ](addr: u64, align: u64) -> (aligned: u64)
    requires
        is_power_of_two(align),
        ceil_to(addr as int, align as int) <= u64::MAX,
    ensures
        aligned == ceil_to(addr as int, align as int),
;

/// The page size is a power of two.
pub proof fn lemma_page_size_power_of_two()
    ensures
        is_power_of_two(PAGE_SIZE),
{
    assert(4096u64 & 4095u64 == 0) by (bit_vector);
}

} // verus!
