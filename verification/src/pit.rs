//! Programmable interval timer, channel 0: the bytes that set its rate.

use vstd::prelude::*;
use crate::port::PortWrite;

verus! {

/// Input clock of the timer, in hertz.
pub const PIT_BASE_HZ: u32 = 1_193_182;

/// Rate of the system tick, in hertz.
pub const TICK_HZ: u32 = 100;

/// Port of channel 0's data register.
pub const CH0_DATA: u16 = 0x40;

/// Port of the command register.
pub const CMD: u16 = 0x43;

/// Command: channel 0, low byte then high byte, square wave, binary.
pub const CMD_CH0_SQUARE: u8 = 0x36;

/// The number by which the input clock is divided to tick at `TICK_HZ`.
pub open spec fn divisor() -> int {
    PIT_BASE_HZ as int / TICK_HZ as int
}

/// What is written to make channel 0 tick at `TICK_HZ`, in order: the
/// command, then the divisor's low byte and its high byte.
pub fn init() -> (writes: [PortWrite; 3])
    ensures
        writes@ == seq![
            PortWrite { port: CMD, value: CMD_CH0_SQUARE },
            PortWrite { port: CH0_DATA, value: (divisor() % 256) as u8 },
            PortWrite { port: CH0_DATA, value: (divisor() / 256) as u8 },
        ],
        divisor() == 11931,
{
    let divisor: u32 = PIT_BASE_HZ / TICK_HZ;
    assert(divisor == 11931);
    assert(11931u32 & 0xFF == 0x9B) by (bit_vector);
    assert(11931u32 >> 8 == 0x2E) by (bit_vector);
    let divisor_lo = (divisor & 0xFF) as u8;
    let divisor_hi = (divisor >> 8) as u8;
    let writes = [
        PortWrite { port: CMD, value: CMD_CH0_SQUARE },
        PortWrite { port: CH0_DATA, value: divisor_lo },
        PortWrite { port: CH0_DATA, value: divisor_hi },
    ];
    assert(writes@ =~= seq![
        PortWrite { port: CMD, value: CMD_CH0_SQUARE },
        PortWrite { port: CH0_DATA, value: (self::divisor() % 256) as u8 },
        PortWrite { port: CH0_DATA, value: (self::divisor() / 256) as u8 },
    ]);
    writes
}

} // verus!
