//! The deciding core of a small x86-64 kernel.
//!
//! The crate holds what the kernel computes and decides: which physical
//! frames are free, which translations an address space gets, what a number
//! looks like on the serial line. It never touches hardware. Whatever has to
//! be written into a page table, a port or a control register is handed to
//! the caller as a plain value, and the caller reports back what the
//! hardware made of it.

pub mod idt;
pub mod long_mode;
pub mod paging;
pub mod pic;
pub mod pit;
pub mod port;
pub mod serial;
pub mod text;
