//! The test for 64-bit long mode, on the values of three registers.

use vstd::prelude::*;

verus! {

/// CR0: protected mode is on.
pub const CR0_PE: u64 = 0x1;

/// CR0: paging is on.
pub const CR0_PG: u64 = 0x8000_0000;

/// CR4: physical address extension is on.
pub const CR4_PAE: u64 = 0x20;

/// Number of the extended-feature-enable register among the model-specific
/// registers.
pub const EFER_MSR: u32 = 0xC000_0080;

/// EFER: long mode is enabled.
pub const EFER_LME: u64 = 0x100;

/// EFER: long mode is active.
pub const EFER_LMA: u64 = 0x400;

/// The 64-bit value of a model-specific register that was read as two
/// halves.
pub fn msr_value(low: u32, high: u32) -> (value: u64)
    ensures
        value == (high as u64) << 32 | (low as u64),
        value == high as u64 * 0x1_0000_0000 + low as u64,
{
    assert(((high as u64) << 32 | (low as u64)) == high as u64 * 0x1_0000_0000 + low as u64)
        by (bit_vector);
    (high as u64) << 32 | (low as u64)
}

/// Whether the processor runs in 64-bit long mode, given the values of
/// CR0, CR4 and EFER: protected mode, paging and physical address extension
/// are on, and long mode is both enabled and active.
pub fn is_long_mode(cr0: u64, cr4: u64, efer: u64) -> (long_mode: bool)
    ensures
        long_mode == (cr0 & CR0_PE != 0 && cr0 & CR0_PG != 0 && cr4 & CR4_PAE != 0 && efer
            & EFER_LME != 0 && efer & EFER_LMA != 0),
{
    (cr0 & CR0_PE) != 0 && (cr0 & CR0_PG) != 0 && (cr4 & CR4_PAE) != 0 && (efer & EFER_LME) != 0
        && (efer & EFER_LMA) != 0
}

} // verus!
