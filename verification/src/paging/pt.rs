//! Page-table root: the physical frame of a root table, and the offset at
//! which physical memory can be reached.

use vstd::prelude::*;

verus! {

/// Where a root table can be read and written: the two values that a mapper
/// over the table is made from.
#[derive(Clone, Copy, Debug, PartialEq, Eq, Structural)]
pub struct TableAccess {
    /// Virtual address of the root table.
    pub table: u64,
    /// Virtual address at which physical address zero is mapped.
    pub phys_offset: u64,
}

/// The root table of one address space.
///
/// Whoever makes one vouches that the frame holds a root table, that the
/// offset maps physical memory, and that nothing else edits the table
/// meanwhile. The root does not own the frame; the address space around it
/// does.
#[derive(Clone, Copy, Debug, PartialEq, Eq, Structural)]
pub struct PageTableRoot {
    pml4: u64,
    phys_offset: u64,
}

impl PageTableRoot {
    /// Start address of the root table's frame.
    pub closed spec fn spec_frame(&self) -> u64 {
        self.pml4
    }

    /// Virtual address at which physical address zero is mapped.
    pub closed spec fn spec_phys_offset(&self) -> u64 {
        self.phys_offset
    }

    /// Whether the frame at `phys` has a 64-bit virtual address under this
    /// root's offset.
    pub open spec fn reaches(&self, phys: u64) -> bool {
        self.spec_phys_offset() + phys <= u64::MAX
    }

    /// Binds the root table in the frame at `pml4` to the offset at which
    /// physical memory is mapped.
    pub fn new(pml4: u64, phys_offset: u64) -> (root: PageTableRoot)
        ensures
            root.spec_frame() == pml4,
            root.spec_phys_offset() == phys_offset,
    {
        PageTableRoot { pml4, phys_offset }
    }

    /// Start address of the root table's frame.
    #[verifier::when_used_as_spec(spec_frame)]
    pub fn frame(&self) -> (frame: u64)
        ensures
            frame == self.spec_frame(),
    {
        self.pml4
    }

    /// Virtual address at which physical address zero is mapped.
    #[verifier::when_used_as_spec(spec_phys_offset)]
    pub fn phys_offset(&self) -> (offset: u64)
        ensures
            offset == self.spec_phys_offset(),
    {
        self.phys_offset
    }

    /// Virtual address of the physical address `phys`, or `None` where it
    /// does not fit in 64 bits.
    pub fn translate(&self, phys: u64) -> (virt: Option<u64>)
        ensures
            virt == if self.reaches(phys) {
                Some((self.spec_phys_offset() + phys) as u64)
            } else {
                None
            },
    {
        self.phys_offset.checked_add(phys)
    }

    /// Where the root table itself can be edited: its frame, seen through
    /// the offset. `None` where the table's address does not fit in 64
    /// bits.
    pub fn mapper(&self) -> (access: Option<TableAccess>)
        ensures
            access == if self.reaches(self.spec_frame()) {
                Some(
                    TableAccess {
                        table: (self.spec_phys_offset() + self.spec_frame()) as u64,
                        phys_offset: self.spec_phys_offset(),
                    },
                )
            } else {
                None
            },
    {
        match self.translate(self.pml4) {
            Some(table) => Some(TableAccess { table, phys_offset: self.phys_offset }),
            None => None,
        }
    }
}

} // verus!
