//! The pair of 8259 interrupt controllers: what is written to them.
//!
//! The controllers are remapped so that IRQ 0 to 15 arrive at the vectors 32
//! to 47, clear of the processor's exceptions.

use vstd::prelude::*;
use crate::port::PortWrite;

verus! {

/// Command port of the master controller.
pub const MASTER_CMD: u16 = 0x20;

/// Data port of the master controller.
pub const MASTER_DATA: u16 = 0x21;

/// Command port of the slave controller.
pub const SLAVE_CMD: u16 = 0xA0;

/// Data port of the slave controller.
pub const SLAVE_DATA: u16 = 0xA1;

/// First initialization word: start, a fourth word follows.
pub const ICW1_INIT: u8 = 0x11;

/// Fourth initialization word: 8086 mode.
pub const ICW4_8086: u8 = 0x01;

/// Vector of the master's first interrupt.
pub const MASTER_VECTOR: u8 = 0x20;

/// Vector of the slave's first interrupt.
pub const SLAVE_VECTOR: u8 = 0x28;

/// The master has the slave on its input 2.
pub const MASTER_CASCADE: u8 = 0x04;

/// The slave hangs on the master's input 2.
pub const SLAVE_CASCADE: u8 = 0x02;

/// Command: end of interrupt.
pub const EOI: u8 = 0x20;

/// The timer's interrupt line.
pub const IRQ_TIMER: u8 = 0;

/// The keyboard's interrupt line.
pub const IRQ_KEYBOARD: u8 = 1;

/// Stands for an interrupt that nobody expected.
pub const IRQ_UNKNOWN: u8 = 0xFF;

/// The writes that initialize both controllers, in order: start, vectors,
/// cascade, mode, and last the masks, which are the masks read before with
/// the timer's line opened.
pub open spec fn init_writes(mask_master: u8, mask_slave: u8) -> Seq<PortWrite> {
    seq![
        PortWrite { port: MASTER_CMD, value: ICW1_INIT },
        PortWrite { port: SLAVE_CMD, value: ICW1_INIT },
        PortWrite { port: MASTER_DATA, value: MASTER_VECTOR },
        PortWrite { port: SLAVE_DATA, value: SLAVE_VECTOR },
        PortWrite { port: MASTER_DATA, value: MASTER_CASCADE },
        PortWrite { port: SLAVE_DATA, value: SLAVE_CASCADE },
        PortWrite { port: MASTER_DATA, value: ICW4_8086 },
        PortWrite { port: SLAVE_DATA, value: ICW4_8086 },
        PortWrite { port: MASTER_DATA, value: mask_master & 0xFE },
        PortWrite { port: SLAVE_DATA, value: mask_slave },
    ]
}

/// What is written to initialize both controllers, given the masks that
/// were read from their data ports.
pub fn init(mask_master: u8, mask_slave: u8) -> (writes: [PortWrite; 10])
    ensures
        writes@ == init_writes(mask_master, mask_slave),
{
    let writes = [
        PortWrite { port: MASTER_CMD, value: ICW1_INIT },
        PortWrite { port: SLAVE_CMD, value: ICW1_INIT },
        PortWrite { port: MASTER_DATA, value: MASTER_VECTOR },
        PortWrite { port: SLAVE_DATA, value: SLAVE_VECTOR },
        PortWrite { port: MASTER_DATA, value: MASTER_CASCADE },
        PortWrite { port: SLAVE_DATA, value: SLAVE_CASCADE },
        PortWrite { port: MASTER_DATA, value: ICW4_8086 },
        PortWrite { port: SLAVE_DATA, value: ICW4_8086 },
        PortWrite { port: MASTER_DATA, value: mask_master & 0xFE },
        PortWrite { port: SLAVE_DATA, value: mask_slave },
    ];
    assert(writes@ =~= init_writes(mask_master, mask_slave));
    writes
}

/// Which controllers are told that interrupt line `irq` has been served:
/// the master always, and the slave too for a line of its own, 8 and up.
/// Returns whether the slave is told.
pub fn notify_end_of_interrupt(irq: u8) -> (slave_too: bool)
    ensures
        slave_too == (irq >= 8),
{
    irq >= 8
}

} // verus!
