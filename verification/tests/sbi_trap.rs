//! Trap dispatch behavior: the SBI path, forwarding, rdtime and emulated
//! MMIO.

use hikami::context::Context;
use hikami::memmap::HostPhysicalAddress;
use hikami::plic::Plic;
use hikami::plic::CONTEXT_BASE;
use hikami::plic::CONTEXT_CLAIM;
use hikami::plic::ENABLE_BASE;
use hikami::sbi::FenceAction;
use hikami::sbi::HostCsrs;
use hikami::trap::trap_exception;
use hikami::trap::ForwardedException;
use hikami::trap::TrapCsrs;
use hikami::trap::TrapFatal;
use hikami::trap::TrapOutcome;
use hikami::zicfiss::Zicfiss;

const PLIC_BASE: u64 = 0x0c00_0000;

fn host() -> HostCsrs {
    HostCsrs { mvendorid: 0x111, marchid: 0x222, mimpid: 0x333 }
}

fn csrs() -> TrapCsrs {
    TrapCsrs {
        scause_code: 0,
        stval: 0,
        htval: 0,
        htinst: 0,
        vstvec: 0x8000_4000,
        senvcfg: 0,
        time: 0,
        host: host(),
    }
}

fn fresh() -> (Context, Zicfiss, Plic) {
    let mut ctx = Context::default();
    ctx.set_sepc(0x8000_1000);
    (ctx, Zicfiss::new(), Plic::new(HostPhysicalAddress(PLIC_BASE), 0x60_0000))
}

#[test]
fn ecall_returns_spec_version_and_keeps_registers() {
    let (mut ctx, mut z, mut p) = fresh();
    for i in 1..32 {
        ctx.set_xreg(i, 0x1000 + i as u64);
    }
    ctx.set_xreg(17, 0x10); // a7: Base extension
    ctx.set_xreg(16, 0); // a6: get spec version
    ctx.set_xreg(10, 0); // a0

    let mut c = csrs();
    c.scause_code = 10;
    let r = trap_exception(&mut ctx, &mut z, &mut p, &c);
    assert_eq!(r, TrapOutcome::Resume(FenceAction::NoFence));
    assert_eq!(ctx.xreg(10), 0); // SBI_SUCCESS
    assert_eq!(ctx.xreg(11), 1); // spec version 1.0
    assert_eq!(ctx.sepc(), 0x8000_1004);
    for i in 1..32 {
        if i != 10 && i != 11 && i != 17 && i != 16 {
            assert_eq!(ctx.xreg(i), 0x1000 + i as u64);
        }
    }
}

#[test]
fn ecall_probe_extension() {
    let (mut ctx, mut z, mut p) = fresh();
    ctx.set_xreg(17, 0x10);
    ctx.set_xreg(16, 3);
    ctx.set_xreg(10, 0x5246_4E43); // RFENCE is known
    let mut c = csrs();
    c.scause_code = 10;
    trap_exception(&mut ctx, &mut z, &mut p, &c);
    assert_eq!(ctx.xreg(11), 1);

    let (mut ctx2, mut z2, mut p2) = fresh();
    ctx2.set_xreg(17, 0x10);
    ctx2.set_xreg(16, 3);
    ctx2.set_xreg(10, 0x1234);
    trap_exception(&mut ctx2, &mut z2, &mut p2, &c);
    assert_eq!(ctx2.xreg(11), 0);
}

#[test]
fn ecall_machine_ids_forwarded() {
    for (fid, want) in [(4u64, 0x111u64), (5, 0x222), (6, 0x333)] {
        let (mut ctx, mut z, mut p) = fresh();
        ctx.set_xreg(17, 0x10);
        ctx.set_xreg(16, fid);
        let mut c = csrs();
        c.scause_code = 10;
        trap_exception(&mut ctx, &mut z, &mut p, &c);
        assert_eq!(ctx.xreg(10), 0);
        assert_eq!(ctx.xreg(11), want);
    }
}

#[test]
fn ecall_rfence_owes_a_fence() {
    let (mut ctx, mut z, mut p) = fresh();
    ctx.set_xreg(17, 0x5246_4E43);
    ctx.set_xreg(16, 1); // remote sfence.vma
    let mut c = csrs();
    c.scause_code = 10;
    let r = trap_exception(&mut ctx, &mut z, &mut p, &c);
    assert_eq!(r, TrapOutcome::Resume(FenceAction::HfenceVvma));
}

#[test]
fn ecall_fwft_not_supported() {
    let (mut ctx, mut z, mut p) = fresh();
    ctx.set_xreg(17, 0x4657_4654);
    ctx.set_xreg(16, 0);
    let mut c = csrs();
    c.scause_code = 10;
    trap_exception(&mut ctx, &mut z, &mut p, &c);
    assert_eq!(ctx.xreg(10) as i64, -2);
}

#[test]
fn ecall_unknown_extension_is_fatal() {
    let (mut ctx, mut z, mut p) = fresh();
    ctx.set_xreg(17, 0xdead);
    let mut c = csrs();
    c.scause_code = 10;
    let r = trap_exception(&mut ctx, &mut z, &mut p, &c);
    match r {
        TrapOutcome::Fatal(TrapFatal::UnsupportedSbi(u)) => assert_eq!(u.eid, 0xdead),
        other => panic!("unexpected outcome {:?}", other),
    }
}

#[test]
fn load_fault_outside_devices_forwards() {
    let (mut ctx, mut z, mut p) = fresh();
    let mut c = csrs();
    c.scause_code = 21;
    c.stval = 0x4000_0123;
    c.htval = 0x4000_0123 >> 2;
    c.htinst = 0x0005_a503; // lw a0, 0(a1), as hardware transforms it

    let r = trap_exception(&mut ctx, &mut z, &mut p, &c);
    assert_eq!(
        r,
        TrapOutcome::Forward(ForwardedException {
            vsepc: 0x8000_1000,
            vscause: 21,
            vstval: 0x4000_0123,
        })
    );
    assert_eq!(ctx.sepc(), 0x8000_4000); // the guest's trap vector
}

#[test]
fn load_fault_at_claim_register_is_emulated() {
    let (mut ctx, mut z, mut p) = fresh();
    p.emulate_write(HostPhysicalAddress(PLIC_BASE + 7 * 4), 1).unwrap();
    p.emulate_write(HostPhysicalAddress(PLIC_BASE + ENABLE_BASE), 1 << 7).unwrap();
    p.inject_interrupt(7).unwrap();

    let claim_addr = PLIC_BASE + CONTEXT_BASE + CONTEXT_CLAIM;
    let mut c = csrs();
    c.scause_code = 21;
    c.stval = claim_addr;
    c.htval = claim_addr >> 2;
    c.htinst = 0x0005_a503; // lw a0, 0(a1): a full-size instruction

    let r = trap_exception(&mut ctx, &mut z, &mut p, &c);
    assert_eq!(r, TrapOutcome::Resume(FenceAction::NoFence));
    assert_eq!(ctx.xreg(10), 7); // rd = a0 receives the claim
    assert_eq!(ctx.sepc(), 0x8000_1004); // advanced by 4
}

#[test]
fn store_fault_at_enable_register_is_emulated() {
    let (mut ctx, mut z, mut p) = fresh();
    ctx.set_xreg(12, 0x5); // rs2 = a2
    let enable_addr = PLIC_BASE + ENABLE_BASE;
    let mut c = csrs();
    c.scause_code = 23;
    c.stval = enable_addr;
    c.htval = enable_addr >> 2;
    // sw a2, 0(a1): opcode 0x23, funct3 2, rs2 = 12, rs1 = 11
    c.htinst = (12 << 20) | (11 << 15) | (2 << 12) | 0x23;

    let r = trap_exception(&mut ctx, &mut z, &mut p, &c);
    assert_eq!(r, TrapOutcome::Resume(FenceAction::NoFence));
    assert_eq!(
        p.emulate_read(HostPhysicalAddress(enable_addr)).unwrap(),
        0x5
    );
}

#[test]
fn rdtime_reads_host_time() {
    let (mut ctx, mut z, mut p) = fresh();
    let mut c = csrs();
    c.scause_code = 22;
    // rdtime t0 == csrrs x5, time, x0
    c.stval = (0xc01 << 20) | (2 << 12) | (5 << 7) | 0x73;
    c.time = 0xdead_beef;

    let r = trap_exception(&mut ctx, &mut z, &mut p, &c);
    assert_eq!(r, TrapOutcome::Resume(FenceAction::NoFence));
    assert_eq!(ctx.xreg(5), 0xdead_beef);
    assert_eq!(ctx.sepc(), 0x8000_1004);
}

#[test]
fn unhandled_exception_forwards_to_guest() {
    let (mut ctx, mut z, mut p) = fresh();
    let mut c = csrs();
    c.scause_code = 0; // instruction address misaligned
    c.stval = 0x33;
    let r = trap_exception(&mut ctx, &mut z, &mut p, &c);
    assert_eq!(
        r,
        TrapOutcome::Forward(ForwardedException { vsepc: 0x8000_1000, vscause: 0, vstval: 0x33 })
    );
}

#[test]
fn fatal_exceptions() {
    let (mut ctx, mut z, mut p) = fresh();
    let mut c = csrs();
    c.scause_code = 20;
    assert_eq!(
        trap_exception(&mut ctx, &mut z, &mut p, &c),
        TrapOutcome::Fatal(TrapFatal::InstructionGuestPageFault)
    );
    c.scause_code = 9;
    assert_eq!(
        trap_exception(&mut ctx, &mut z, &mut p, &c),
        TrapOutcome::Fatal(TrapFatal::SupervisorEnvCall)
    );
}
