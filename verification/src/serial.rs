//! Debug output over the first serial line: how the line is set up, when it
//! takes a byte, and what is written for a number.

use vstd::prelude::*;
use vstd::string::StringExecFns;
use crate::port::PortWrite;
use crate::text::{hex_digits, push_hex};

verus! {

/// Base port of the first serial line.
pub const COM1: u16 = 0x3F8;

/// Offset of the line control register.
pub const LCR_OFF: u16 = 3;

/// Line control: eight data bits, no parity, one stop bit.
pub const LCR_8N1: u8 = 0x03;

/// Offset of the modem control register.
pub const MCR_OFF: u16 = 4;

/// Modem control: data terminal ready, request to send.
pub const MCR_DTR_RTS: u8 = 0x03;

/// Offset of the line status register.
pub const LSR_OFF: u16 = 5;

/// Line status: the transmit holding register is empty.
pub const LSR_THRE: u8 = 0x20;

/// What is written to set the line up: the frame format, then the modem
/// lines. Interrupts stay off.
pub fn init() -> (writes: [PortWrite; 2])
    ensures
        writes@ == seq![
            PortWrite { port: 0x3FB, value: LCR_8N1 },
            PortWrite { port: 0x3FC, value: MCR_DTR_RTS },
        ],
{
    let writes = [
        PortWrite { port: COM1 + LCR_OFF, value: LCR_8N1 },
        PortWrite { port: COM1 + MCR_OFF, value: MCR_DTR_RTS },
    ];
    assert(writes@ =~= seq![
        PortWrite { port: 0x3FB, value: LCR_8N1 },
        PortWrite { port: 0x3FC, value: MCR_DTR_RTS },
    ]);
    writes
}

/// Whether the line takes another byte, given the value of its status
/// register.
pub fn is_transmit_empty(line_status: u8) -> (empty: bool)
    ensures
        empty == (line_status & LSR_THRE != 0),
{
    (line_status & LSR_THRE) != 0
}

/// The line that shows a 64-bit number.
pub open spec fn hex_line(n: u64) -> Seq<char> {
    "0x"@ + hex_digits(n as nat) + "\n"@
}

/// The text written for a 64-bit number: `0x`, the number in lower-case
/// hexadecimal without leading zeros, and a line feed.
pub fn write_u64_hex(n: u64) -> (line: String)
    ensures
        line@ == hex_line(n),
{
    let mut line = String::from_str("0x");
    push_hex(&mut line, n);
    line.append("\n");
    line
}

/// The text written for a 16-bit number, as `write_u64_hex` has it.
pub fn write_u16_hex(n: u16) -> (line: String)
    ensures
        line@ == hex_line(n as u64),
{
    write_u64_hex(n as u64)
}

} // verus!
