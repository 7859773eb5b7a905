use os_core::paging::address_space::AddressSpaceId;
use os_core::paging::error::PagingError;
use os_core::idt::{
    on_timer_tick, page_fault_flags, CAUSED_BY_WRITE, PROTECTION_VIOLATION, TICKS_PER_DOT, USER_MODE,
};
use os_core::long_mode::{is_long_mode, msr_value, CR0_PE, CR0_PG, CR4_PAE, EFER_LMA, EFER_LME};
use os_core::pic::{
    notify_end_of_interrupt, EOI, ICW1_INIT, IRQ_KEYBOARD, IRQ_TIMER, IRQ_UNKNOWN, MASTER_CMD,
    SLAVE_CMD,
};
use os_core::pit::{CH0_DATA, CMD, CMD_CH0_SQUARE, PIT_BASE_HZ, TICK_HZ};
use os_core::port::PortWrite;
use os_core::serial::{is_transmit_empty, write_u16_hex, write_u64_hex, COM1, LSR_OFF};
use os_core::text::{push_dec, push_hex};

fn hex(n: u64) -> String {
    let mut out = String::new();
    push_hex(&mut out, n);
    out
}

fn dec(n: u64) -> String {
    let mut out = String::new();
    push_dec(&mut out, n);
    out
}

#[test]
fn long_mode_needs_all_five_bits() {
    let cr0 = CR0_PE | CR0_PG;
    let cr4 = CR4_PAE;
    let efer = EFER_LME | EFER_LMA;
    assert!(is_long_mode(cr0, cr4, efer));
    assert!(is_long_mode(0x8005_0033, 0x0000_0668, 0x0000_0D01));
    assert!(!is_long_mode(CR0_PG, cr4, efer));
    assert!(!is_long_mode(CR0_PE, cr4, efer));
    assert!(!is_long_mode(cr0, 0, efer));
    assert!(!is_long_mode(cr0, cr4, EFER_LMA));
    assert!(!is_long_mode(cr0, cr4, EFER_LME));
    assert!(!is_long_mode(0, 0, 0));
    assert!(is_long_mode(u64::MAX, u64::MAX, u64::MAX));
}

#[test]
fn long_mode_bits_are_the_architecture_s() {
    assert_eq!(CR0_PE, 1 << 0);
    assert_eq!(CR0_PG, 1 << 31);
    assert_eq!(CR4_PAE, 1 << 5);
    assert_eq!(EFER_LME, 1 << 8);
    assert_eq!(EFER_LMA, 1 << 10);
}

#[test]
fn msr_value_joins_the_halves() {
    assert_eq!(msr_value(0x0000_0D01, 0), 0xD01);
    assert_eq!(msr_value(0x89AB_CDEF, 0x0123_4567), 0x0123_4567_89AB_CDEF);
    assert_eq!(msr_value(0, 1), 0x1_0000_0000);
    assert_eq!(msr_value(u32::MAX, u32::MAX), u64::MAX);
}

#[test]
fn pit_is_programmed_for_a_hundred_hertz() {
    assert_eq!(PIT_BASE_HZ / TICK_HZ, 11931);
    assert_eq!(
        os_core::pit::init(),
        [
            PortWrite { port: 0x43, value: 0x36 },
            PortWrite { port: 0x40, value: 0x9B },
            PortWrite { port: 0x40, value: 0x2E },
        ]
    );
    let writes = os_core::pit::init();
    assert_eq!((writes[0].port, writes[0].value), (CMD, CMD_CH0_SQUARE));
    assert_eq!((writes[1].port, writes[2].port), (CH0_DATA, CH0_DATA));
    assert_eq!(u32::from(writes[2].value) << 8 | u32::from(writes[1].value), PIT_BASE_HZ / TICK_HZ);
}

#[test]
fn pic_is_remapped_and_keeps_its_masks_but_for_the_timer() {
    assert_eq!(
        os_core::pic::init(0xFF, 0xFF),
        [
            PortWrite { port: 0x20, value: 0x11 },
            PortWrite { port: 0xA0, value: 0x11 },
            PortWrite { port: 0x21, value: 0x20 },
            PortWrite { port: 0xA1, value: 0x28 },
            PortWrite { port: 0x21, value: 0x04 },
            PortWrite { port: 0xA1, value: 0x02 },
            PortWrite { port: 0x21, value: 0x01 },
            PortWrite { port: 0xA1, value: 0x01 },
            PortWrite { port: 0x21, value: 0xFE },
            PortWrite { port: 0xA1, value: 0xFF },
        ]
    );
    let writes = os_core::pic::init(0xB9, 0x3C);
    assert_eq!(writes[8], PortWrite { port: 0x21, value: 0xB8 });
    assert_eq!(writes[9], PortWrite { port: 0xA1, value: 0x3C });
    assert_eq!(os_core::pic::init(0x00, 0x00)[8].value, 0x00);
    assert_eq!(writes[0], PortWrite { port: MASTER_CMD, value: ICW1_INIT });
    assert_eq!(writes[1], PortWrite { port: SLAVE_CMD, value: ICW1_INIT });
}

#[test]
fn end_of_interrupt_goes_to_the_slave_for_its_own_lines() {
    assert_eq!(EOI, 0x20);
    assert!(!notify_end_of_interrupt(IRQ_TIMER));
    assert!(!notify_end_of_interrupt(IRQ_KEYBOARD));
    assert!(!notify_end_of_interrupt(7));
    assert!(notify_end_of_interrupt(8));
    assert!(notify_end_of_interrupt(15));
    assert!(notify_end_of_interrupt(IRQ_UNKNOWN));
}

#[test]
fn serial_line_is_set_to_eight_bits_no_parity() {
    assert_eq!(
        os_core::serial::init(),
        [PortWrite { port: 0x3FB, value: 0x03 }, PortWrite { port: 0x3FC, value: 0x03 }]
    );
    assert_eq!(COM1 + LSR_OFF, 0x3FD);
}

#[test]
fn serial_line_takes_a_byte_when_the_holding_register_is_empty() {
    assert!(is_transmit_empty(0x20));
    assert!(is_transmit_empty(0x60));
    assert!(is_transmit_empty(0xFF));
    assert!(!is_transmit_empty(0x00));
    assert!(!is_transmit_empty(0x40));
    assert!(!is_transmit_empty(0xDF));
}

#[test]
fn every_tenth_tick_is_marked() {
    assert_eq!(TICKS_PER_DOT, 10);
    let marked: Vec<u64> = (0..30).filter(|n| on_timer_tick(*n)).collect();
    assert_eq!(marked, vec![9, 19, 29]);
    assert!(!on_timer_tick(0));
    assert!(!on_timer_tick(u64::MAX));
    assert!(on_timer_tick(u64::MAX - 6));
}

#[test]
fn page_fault_flags_name_access_origin_and_cause() {
    assert_eq!(page_fault_flags(0), "READ SUPERVISOR NOT_PRESENT ");
    assert_eq!(page_fault_flags(CAUSED_BY_WRITE), "WRITE SUPERVISOR NOT_PRESENT ");
    assert_eq!(page_fault_flags(USER_MODE), "READ USER NOT_PRESENT ");
    assert_eq!(page_fault_flags(PROTECTION_VIOLATION), "READ SUPERVISOR PROTECTION_VIOLATION ");
    assert_eq!(page_fault_flags(0x7), "WRITE USER PROTECTION_VIOLATION ");
    assert_eq!(page_fault_flags(0x18), "READ SUPERVISOR NOT_PRESENT ");
}

#[test]
fn hex_has_no_leading_zeros() {
    assert_eq!(hex(0), "0");
    assert_eq!(hex(9), "9");
    assert_eq!(hex(10), "a");
    assert_eq!(hex(15), "f");
    assert_eq!(hex(16), "10");
    assert_eq!(hex(0x1234_abcd), "1234abcd");
    assert_eq!(hex(0x0FED_CBA9_8765_4321), "fedcba987654321");
    assert_eq!(hex(u64::MAX), "ffffffffffffffff");
    for n in [0u64, 1, 255, 256, 4096, 0xdead_beef, u64::MAX - 1] {
        assert_eq!(hex(n), format!("{:x}", n));
    }
}

#[test]
fn decimal_has_no_leading_zeros() {
    assert_eq!(dec(0), "0");
    assert_eq!(dec(7), "7");
    assert_eq!(dec(10), "10");
    assert_eq!(dec(1234567890), "1234567890");
    assert_eq!(dec(u64::MAX), "18446744073709551615");
}

#[test]
fn digits_are_appended_to_what_is_there() {
    let mut out = String::from("frame ");
    push_hex(&mut out, 0x200000);
    out.push('/');
    push_dec(&mut out, 512);
    assert_eq!(out, "frame 200000/512");
}

#[test]
fn serial_lines_for_numbers() {
    assert_eq!(write_u64_hex(0), "0x0\n");
    assert_eq!(write_u64_hex(0x1234abcd), "0x1234abcd\n");
    assert_eq!(write_u64_hex(0xFFFF_8000_0000_0000), "0xffff800000000000\n");
    assert_eq!(write_u16_hex(0), "0x0\n");
    assert_eq!(write_u16_hex(0x8), "0x8\n");
    assert_eq!(write_u16_hex(0xFFFF), "0xffff\n");
}

#[test]
fn address_space_id_text() {
    assert_eq!(AddressSpaceId::kernel().to_string(), "AddressSpace(KERNEL)");
    assert_eq!(AddressSpaceId::new(1).to_string(), "AddressSpace(1)");
    assert_eq!(AddressSpaceId::new(100).to_string(), "AddressSpace(100)");
    assert_eq!(AddressSpaceId::new(u64::MAX).to_string(), "AddressSpace(18446744073709551615)");
}

#[test]
fn descriptions_name_the_kind() {
    assert_eq!(PagingError::InvalidRootPointer.description(), "CR3 register contains invalid page table address");
    assert_eq!(PagingError::OutOfFrames.description(), "physical memory exhausted");
    assert_eq!(PagingError::MapFailed.description(), "page mapping operation failed");
    assert_eq!(PagingError::InvalidFlags.description(), "invalid page table flags combination");
    assert_eq!(PagingError::InvalidRange.description(), "invalid address range");
    assert_eq!(
        PagingError::KernelAddressInUserSpace { addr: 1 }.description(),
        "attempted to map kernel address in user space"
    );
    assert_eq!(PagingError::AlreadyMapped { page: 0 }.description(), "page is already mapped");
    assert_eq!(
        PagingError::Misaligned { addr: 1, required: 2 }.description(),
        "address is not properly aligned"
    );
    assert_eq!(
        PagingError::SizeOverflow { start: 1, size: 2 }.description(),
        "size calculation overflow"
    );
    assert_eq!(
        PagingError::CannotDestroyActive { id: AddressSpaceId::new(4) }.description(),
        "cannot destroy active address space"
    );
    assert_eq!(
        PagingError::CannotDestroyKernel.description(),
        "cannot destroy kernel address space"
    );
    assert_eq!(
        PagingError::SizeTooSmall { provided: 0, required: 1 }.description(),
        "size is smaller than required minimum"
    );
    assert_eq!(
        PagingError::RegionOverlap { new_start: 0, new_end: 1 }.description(),
        "memory region overlaps with existing mapping"
    );
}

#[test]
fn messages_carry_the_context() {
    assert_eq!(PagingError::OutOfFrames.to_string(), "physical memory exhausted");
    assert_eq!(PagingError::MapFailed.to_string(), "page mapping operation failed");
    assert_eq!(PagingError::InvalidFlags.to_string(), "invalid page table flags combination");
    assert_eq!(PagingError::InvalidRange.to_string(), "invalid address range");
    assert_eq!(PagingError::InvalidRootPointer.to_string(), "CR3 register contains invalid page table address");
    assert_eq!(
        PagingError::CannotDestroyKernel.to_string(),
        "cannot destroy kernel address space"
    );
    assert_eq!(
        PagingError::KernelAddressInUserSpace { addr: 0xFFFF_8000_0000_0000 }.to_string(),
        "attempted to map kernel address in user space: address 0xffff800000000000 is in kernel space"
    );
    assert_eq!(
        PagingError::AlreadyMapped { page: 0x4000_1000 }.to_string(),
        "page is already mapped: page at 0x40001000"
    );
    assert_eq!(
        PagingError::Misaligned { addr: 0x1001, required: 4096 }.to_string(),
        "address is not properly aligned: address 0x1001 must be aligned to 0x1000"
    );
    assert_eq!(
        PagingError::SizeOverflow { start: u64::MAX - 0x100, size: 0x1000 }.to_string(),
        "size calculation overflow: start 0xfffffffffffffeff + size 0x1000 overflows"
    );
    assert_eq!(
        PagingError::CannotDestroyActive { id: AddressSpaceId::new(42) }.to_string(),
        "cannot destroy active address space: address space 42 is currently active"
    );
    assert_eq!(
        PagingError::SizeTooSmall { provided: 0, required: 4096 }.to_string(),
        "size is smaller than required minimum: provided 0x0, required at least 0x1000"
    );
    assert_eq!(
        PagingError::RegionOverlap { new_start: 0x1000, new_end: 0x3000 }.to_string(),
        "memory region overlaps with existing mapping: region 0x1000-0x3000"
    );
}
