//! Failure kinds of the paging core.

use vstd::prelude::*;
use vstd::string::StringExecFns;
use crate::paging::address_space::AddressSpaceId;
use crate::text::{dec_digits, hex_digits, push_dec, push_hex};

verus! {

/// Everything that a paging operation can fail with. A kind that depends on
/// an input carries that input.
#[derive(Clone, Copy, Debug, PartialEq, Eq, Structural)]
pub enum PagingError {
    /// The root-table pointer is zero or otherwise unusable.
    InvalidRootPointer,
    /// The frame allocator has no frame left.
    OutOfFrames,
    /// The page table refused a translation.
    MapFailed,
    /// The flags do not suit the region they are meant for.
    InvalidFlags,
    /// The range straddles the boundary between user and kernel addresses.
    InvalidRange,
    /// A kernel address was given where a user address is needed.
    KernelAddressInUserSpace {
        /// The offending address.
        addr: u64,
    },
    /// The page already has a translation.
    AlreadyMapped {
        /// Start address of the page.
        page: u64,
    },
    /// The address is not on the required boundary.
    Misaligned {
        /// The offending address.
        addr: u64,
        /// The alignment that was asked for.
        required: u64,
    },
    /// `start + size` does not fit in 64 bits.
    SizeOverflow {
        /// Start of the region.
        start: u64,
        /// Size of the region in bytes.
        size: u64,
    },
    /// The address space is loaded in the root-table register.
    CannotDestroyActive {
        /// The address space in question.
        id: AddressSpaceId,
    },
    /// The kernel address space is never destroyed.
    CannotDestroyKernel,
    /// The size is below the minimum.
    SizeTooSmall {
        /// The size that was given.
        provided: u64,
        /// The least size that is accepted.
        required: u64,
    },
    /// The region overlaps an existing mapping.
    RegionOverlap {
        /// Start of the new region.
        new_start: u64,
        /// End of the new region.
        new_end: u64,
    },
}

/// Result of a paging operation.
pub type PagingResult<T> = Result<T, PagingError>;

impl PagingError {
    /// The fixed text that names each kind of failure.
    pub open spec fn description_text(self) -> Seq<char> {
        match self {
            PagingError::InvalidRootPointer => "CR3 register contains invalid page table address"@,
            PagingError::OutOfFrames => "physical memory exhausted"@,
            PagingError::MapFailed => "page mapping operation failed"@,
            PagingError::InvalidFlags => "invalid page table flags combination"@,
            PagingError::InvalidRange => "invalid address range"@,
            PagingError::KernelAddressInUserSpace { .. } => "attempted to map kernel address in user space"@,
            PagingError::AlreadyMapped { .. } => "page is already mapped"@,
            PagingError::Misaligned { .. } => "address is not properly aligned"@,
            PagingError::SizeOverflow { .. } => "size calculation overflow"@,
            PagingError::CannotDestroyActive { .. } => "cannot destroy active address space"@,
            PagingError::CannotDestroyKernel => "cannot destroy kernel address space"@,
            PagingError::SizeTooSmall { .. } => "size is smaller than required minimum"@,
            PagingError::RegionOverlap { .. } => "memory region overlaps with existing mapping"@,
        }
    }

    /// The full message: the description and, for a kind that carries
    /// context, the context after a colon, addresses and sizes in
    /// hexadecimal.
    pub open spec fn message_text(self) -> Seq<char> {
        match self {
            PagingError::KernelAddressInUserSpace { addr } => self.description_text()
                + ": address 0x"@ + hex_digits(addr as nat) + " is in kernel space"@,
            PagingError::AlreadyMapped { page } => self.description_text() + ": page at 0x"@
                + hex_digits(page as nat),
            PagingError::Misaligned { addr, required } => self.description_text()
                + ": address 0x"@ + hex_digits(addr as nat) + " must be aligned to 0x"@
                + hex_digits(required as nat),
            PagingError::SizeOverflow { start, size } => self.description_text() + ": start 0x"@
                + hex_digits(start as nat) + " + size 0x"@ + hex_digits(size as nat)
                + " overflows"@,
            PagingError::CannotDestroyActive { id } => self.description_text()
                + ": address space "@ + dec_digits(id.0 as nat) + " is currently active"@,
            PagingError::SizeTooSmall { provided, required } => self.description_text()
                + ": provided 0x"@ + hex_digits(provided as nat) + ", required at least 0x"@
                + hex_digits(required as nat),
            PagingError::RegionOverlap { new_start, new_end } => self.description_text()
                + ": region 0x"@ + hex_digits(new_start as nat) + "-0x"@ + hex_digits(
                new_end as nat,
            ),
            _ => self.description_text(),
        }
    }

    /// The full message for a log.
    pub fn to_string(&self) -> (text: String)
        ensures
            text@ == self.message_text(),
    {
        let mut out = String::from_str(self.description());
        match self {
            PagingError::KernelAddressInUserSpace { addr } => {
                out.append(": address 0x");
                push_hex(&mut out, *addr);
                out.append(" is in kernel space");
            },
            PagingError::AlreadyMapped { page } => {
                out.append(": page at 0x");
                push_hex(&mut out, *page);
            },
            PagingError::Misaligned { addr, required } => {
                out.append(": address 0x");
                push_hex(&mut out, *addr);
                out.append(" must be aligned to 0x");
                push_hex(&mut out, *required);
            },
            PagingError::SizeOverflow { start, size } => {
                out.append(": start 0x");
                push_hex(&mut out, *start);
                out.append(" + size 0x");
                push_hex(&mut out, *size);
                out.append(" overflows");
            },
            PagingError::CannotDestroyActive { id } => {
                out.append(": address space ");
                push_dec(&mut out, id.0);
                out.append(" is currently active");
            },
            PagingError::SizeTooSmall { provided, required } => {
                out.append(": provided 0x");
                push_hex(&mut out, *provided);
                out.append(", required at least 0x");
                push_hex(&mut out, *required);
            },
            PagingError::RegionOverlap { new_start, new_end } => {
                out.append(": region 0x");
                push_hex(&mut out, *new_start);
                out.append("-0x");
                push_hex(&mut out, *new_end);
            },
            _ => {},
        }
        out
    }

    /// A short description of the kind of failure, without its context.
    pub fn description(&self) -> (text: &'static str)
        ensures
            text@ == self.description_text(),
    {
        match self {
            PagingError::InvalidRootPointer => "CR3 register contains invalid page table address",
            PagingError::OutOfFrames => "physical memory exhausted",
            PagingError::MapFailed => "page mapping operation failed",
            PagingError::InvalidFlags => "invalid page table flags combination",
            PagingError::InvalidRange => "invalid address range",
            PagingError::KernelAddressInUserSpace { .. } => "attempted to map kernel address in user space",
            PagingError::AlreadyMapped { .. } => "page is already mapped",
            PagingError::Misaligned { .. } => "address is not properly aligned",
            PagingError::SizeOverflow { .. } => "size calculation overflow",
            PagingError::CannotDestroyActive { .. } => "cannot destroy active address space",
            PagingError::CannotDestroyKernel => "cannot destroy kernel address space",
            PagingError::SizeTooSmall { .. } => "size is smaller than required minimum",
            PagingError::RegionOverlap { .. } => "memory region overlaps with existing mapping",
        }
    }
}

} // verus!
