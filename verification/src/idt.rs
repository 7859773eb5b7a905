//! Interrupt handling: what a handler decides.

use vstd::prelude::*;
use vstd::string::StringExecFns;

verus! {

/// The timer handler marks every tenth tick on the console.
pub const TICKS_PER_DOT: u64 = 10;

/// Page fault error code: the page was present, and access to it was
/// refused.
pub const PROTECTION_VIOLATION: u64 = 0x1;

/// Page fault error code: the access was a write.
pub const CAUSED_BY_WRITE: u64 = 0x2;

/// Page fault error code: the access came from user mode.
pub const USER_MODE: u64 = 0x4;

/// Whether the tick that follows `ticks_before` earlier ticks is marked on
/// the console.
pub fn on_timer_tick(ticks_before: u64) -> (mark: bool)
    ensures
        mark == ((ticks_before + 1) % TICKS_PER_DOT as int == 0),
{
    ticks_before % TICKS_PER_DOT == TICKS_PER_DOT - 1
}

/// What the page fault handler says of an error code: the kind of access,
/// where it came from, and why it failed.
pub open spec fn page_fault_text(error_code: u64) -> Seq<char> {
    (if error_code & CAUSED_BY_WRITE != 0 {
        "WRITE "@
    } else {
        "READ "@
    }) + (if error_code & USER_MODE != 0 {
        "USER "@
    } else {
        "SUPERVISOR "@
    }) + (if error_code & PROTECTION_VIOLATION != 0 {
        "PROTECTION_VIOLATION "@
    } else {
        "NOT_PRESENT "@
    })
}

/// The words that the page fault handler writes for an error code.
pub fn page_fault_flags(error_code: u64) -> (text: String)
    ensures
        text@ == page_fault_text(error_code),
{
    let mut text = String::from_str(
        if error_code & CAUSED_BY_WRITE != 0 {
            "WRITE "
        } else {
            "READ "
        },
    );
    text.append(
        if error_code & USER_MODE != 0 {
            "USER "
        } else {
            "SUPERVISOR "
        },
    );
    text.append(
        if error_code & PROTECTION_VIOLATION != 0 {
            "PROTECTION_VIOLATION "
        } else {
            "NOT_PRESENT "
        },
    );
    text
}

} // verus!
