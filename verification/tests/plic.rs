//! PLIC emulation behavior: claim/complete, priority tie-break and the
//! enable bitmap.

use hikami::memmap::HostPhysicalAddress;
use hikami::plic::DeviceEmulateError;
use hikami::plic::Plic;
use hikami::plic::CONTEXT_BASE;
use hikami::plic::CONTEXT_CLAIM;
use hikami::plic::ENABLE_BASE;

const BASE: u64 = 0x0c00_0000;
const SIZE: u64 = 0x60_0000;

fn plic() -> Plic {
    Plic::new(HostPhysicalAddress(BASE), SIZE)
}

fn addr(off: u64) -> HostPhysicalAddress {
    HostPhysicalAddress(BASE + off)
}

#[test]
fn claim_then_complete() {
    let mut p = plic();
    // priority of source 7 = 1
    p.emulate_write(addr(7 * 4), 1).unwrap();
    // enable source 7 for context 0
    p.emulate_write(addr(ENABLE_BASE), 1 << 7).unwrap();
    p.inject_interrupt(7).unwrap();

    let claimed = p.emulate_read(addr(CONTEXT_BASE + CONTEXT_CLAIM)).unwrap();
    assert_eq!(claimed, 7);
    assert_eq!(p.contexts[0].claim, 7);

    // nothing left pending
    let again = p.emulate_read(addr(CONTEXT_BASE + CONTEXT_CLAIM)).unwrap();
    assert_eq!(again, 0);

    // completing the claim clears it
    p.emulate_write(addr(CONTEXT_BASE + CONTEXT_CLAIM), 7).unwrap();
    assert_eq!(p.contexts[0].claim, 0);
}

#[test]
fn priority_tie_break_prefers_lower_id() {
    let mut p = plic();
    p.emulate_write(addr(3 * 4), 1).unwrap();
    p.emulate_write(addr(5 * 4), 1).unwrap();
    p.emulate_write(addr(ENABLE_BASE), (1 << 3) | (1 << 5)).unwrap();
    p.inject_interrupt(3).unwrap();
    p.inject_interrupt(5).unwrap();

    let first = p.emulate_read(addr(CONTEXT_BASE + CONTEXT_CLAIM)).unwrap();
    assert_eq!(first, 3);
    let second = p.emulate_read(addr(CONTEXT_BASE + CONTEXT_CLAIM)).unwrap();
    assert_eq!(second, 5);
}

#[test]
fn higher_priority_wins() {
    let mut p = plic();
    p.emulate_write(addr(3 * 4), 1).unwrap();
    p.emulate_write(addr(9 * 4), 7).unwrap();
    p.emulate_write(addr(ENABLE_BASE), (1 << 3) | (1 << 9)).unwrap();
    p.inject_interrupt(3).unwrap();
    p.inject_interrupt(9).unwrap();

    assert_eq!(p.emulate_read(addr(CONTEXT_BASE + CONTEXT_CLAIM)).unwrap(), 9);
}

#[test]
fn enable_bitmap_readback() {
    let mut p = plic();
    p.emulate_write(addr(ENABLE_BASE), 0x5).unwrap();
    assert_eq!(p.emulate_read(addr(ENABLE_BASE)).unwrap(), 0x5);

    // source 0 is never claimable: injecting it sets no claim
    p.inject_interrupt(0).unwrap();
    assert_eq!(p.emulate_read(addr(CONTEXT_BASE + CONTEXT_CLAIM)).unwrap(), 0);
}

#[test]
fn priority_registers_pass_through() {
    let mut p = plic();
    p.emulate_write(addr(4), 5).unwrap();
    assert_eq!(p.emulate_read(addr(4)).unwrap(), 5);
    assert_eq!(p.emulate_read(addr(127 * 4)).unwrap(), 0);
}

#[test]
fn threshold_register_stores() {
    let mut p = plic();
    p.emulate_write(addr(CONTEXT_BASE), 3).unwrap();
    assert_eq!(p.emulate_read(addr(CONTEXT_BASE)).unwrap(), 3);
}

#[test]
fn error_cases() {
    let mut p = plic();
    assert_eq!(
        p.emulate_read(HostPhysicalAddress(BASE - 4)),
        Err(DeviceEmulateError::InvalidAddress)
    );
    assert_eq!(
        p.emulate_read(HostPhysicalAddress(BASE + SIZE)),
        Err(DeviceEmulateError::InvalidAddress)
    );
    assert_eq!(p.emulate_read(addr(2)), Err(DeviceEmulateError::InvalidAddress));
    // priority of source 0 is reserved
    assert_eq!(p.emulate_read(addr(0)), Err(DeviceEmulateError::ReservedRegister));
    // a context beyond the emulated set
    assert_eq!(
        p.emulate_read(addr(ENABLE_BASE + 16 * 0x80)),
        Err(DeviceEmulateError::InvalidContextId)
    );
    // the pending bitmap is read-only
    assert_eq!(p.emulate_write(addr(0x1000), 1), Err(DeviceEmulateError::ReservedRegister));
    // injecting a source beyond the bitmap
    assert_eq!(p.inject_interrupt(32), Err(DeviceEmulateError::InvalidAddress));
}

#[test]
fn disabled_or_zero_priority_is_not_claimed() {
    let mut p = plic();
    // pending and enabled, but priority 0
    p.emulate_write(addr(ENABLE_BASE), 1 << 4).unwrap();
    p.inject_interrupt(4).unwrap();
    assert_eq!(p.emulate_read(addr(CONTEXT_BASE + CONTEXT_CLAIM)).unwrap(), 0);

    // pending with priority, but not enabled
    p.emulate_write(addr(6 * 4), 1).unwrap();
    p.inject_interrupt(6).unwrap();
    assert_eq!(p.emulate_read(addr(CONTEXT_BASE + CONTEXT_CLAIM)).unwrap(), 0);
}
