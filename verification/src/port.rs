//! Writes to I/O ports, as values.

use vstd::prelude::*;

verus! {

/// One byte to write to one I/O port.
#[derive(Clone, Copy, Debug, PartialEq, Eq, Structural)]
pub struct PortWrite {
    /// Number of the port.
    pub port: u16,
    /// The byte to write.
    pub value: u8,
}

} // verus!
