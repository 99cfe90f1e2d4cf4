//! Zicfiss emulation behavior: the shadow stack push/pop/check flow, the
//! `ssp` CSR and the virtualized `senvcfg.SSE` bit.

use hikami::context::Context;
use hikami::memmap::HostPhysicalAddress;
use hikami::plic::Plic;
use hikami::sbi::HostCsrs;
use hikami::trap::trap_exception;
use hikami::trap::TrapCsrs;
use hikami::trap::TrapOutcome;
use hikami::zicfiss::Zicfiss;

const SS_BASE: u64 = 0x9000_0000;
const SS_WORDS: usize = 512;

fn csrs() -> TrapCsrs {
    TrapCsrs {
        scause_code: 2, // illegal instruction
        stval: 0,
        htval: 0,
        htinst: 0,
        vstvec: 0x8000_4000,
        senvcfg: 0,
        time: 0,
        host: HostCsrs { mvendorid: 0, marchid: 0, mimpid: 0 },
    }
}

fn fresh() -> (Context, Zicfiss, Plic) {
    let mut ctx = Context::default();
    ctx.set_sepc(0x8000_1000);
    let mut z = Zicfiss::new();
    z.set_shadow_stack(SS_BASE, vec![0u64; SS_WORDS]);
    z.ssp = SS_BASE + 8 * SS_WORDS as u64;
    (ctx, z, Plic::new(HostPhysicalAddress(0x0c00_0000), 0x60_0000))
}

// encodings, from the Zicfiss specification
fn sspush(rs2: u64) -> u64 {
    (0xce0 << 20) | (rs2 << 20) | (4 << 12) | 0x73
}

fn sspopchk(rs1: u64) -> u64 {
    (0xcdc << 20) | (rs1 << 15) | (4 << 12) | 0x73
}

fn csrrs(rd: u64, csr: u64, rs1: u64) -> u64 {
    (csr << 20) | (rs1 << 15) | (2 << 12) | (rd << 7) | 0x73
}

fn csrrw(rd: u64, csr: u64, rs1: u64) -> u64 {
    (csr << 20) | (rs1 << 15) | (1 << 12) | (rd << 7) | 0x73
}

#[test]
fn shadow_stack_push_then_matching_pop() {
    let (mut ctx, mut z, mut p) = fresh();

    // enable Zicfiss for VU-mode: csrrs x0, senvcfg, x9 with x9 bit 3 set
    ctx.set_xreg(9, 0x8);
    let mut c = csrs();
    c.stval = csrrs(0, 0x10a, 9);
    let r = trap_exception(&mut ctx, &mut z, &mut p, &c);
    assert_eq!(r, TrapOutcome::Resume(hikami::sbi::FenceAction::NoFence));
    assert!(z.senv_sse);

    // sspush x5 with x5 = 0xDEAD
    ctx.set_xreg(5, 0xdead);
    c.stval = sspush(5);
    let r = trap_exception(&mut ctx, &mut z, &mut p, &c);
    assert_eq!(r, TrapOutcome::Resume(hikami::sbi::FenceAction::NoFence));
    assert_eq!(z.ssp, SS_BASE + 8 * SS_WORDS as u64 - 8);

    // sspopchk x6 with x6 = 0xDEAD: no exception
    ctx.set_xreg(6, 0xdead);
    c.stval = sspopchk(6);
    let r = trap_exception(&mut ctx, &mut z, &mut p, &c);
    assert_eq!(r, TrapOutcome::Resume(hikami::sbi::FenceAction::NoFence));
    assert_eq!(z.ssp, SS_BASE + 8 * SS_WORDS as u64);
}

#[test]
fn shadow_stack_mismatch_raises_software_check() {
    let (mut ctx, mut z, mut p) = fresh();
    z.senv_sse = true;

    ctx.set_xreg(5, 0xdead);
    let mut c = csrs();
    c.stval = sspush(5);
    trap_exception(&mut ctx, &mut z, &mut p, &c);

    // sspopchk x6 with x6 = 0xBEEF: cause 18, tval 3
    ctx.set_xreg(6, 0xbeef);
    c.stval = sspopchk(6);
    let r = trap_exception(&mut ctx, &mut z, &mut p, &c);
    match r {
        TrapOutcome::Forward(f) => {
            assert_eq!(f.vscause, 18);
            assert_eq!(f.vstval, 3);
        }
        other => panic!("unexpected outcome {:?}", other),
    }
}

#[test]
fn push_is_silent_when_disabled() {
    let (mut ctx, mut z, mut p) = fresh();
    let before = z.ssp;
    ctx.set_xreg(5, 0xdead);
    let mut c = csrs();
    c.stval = sspush(5);
    let r = trap_exception(&mut ctx, &mut z, &mut p, &c);
    assert_eq!(r, TrapOutcome::Resume(hikami::sbi::FenceAction::NoFence));
    assert_eq!(z.ssp, before);
}

#[test]
fn ssp_csr_read_write() {
    let (mut ctx, mut z, mut p) = fresh();
    // csrrw x7, ssp, x8 with x8 = 0x1234
    ctx.set_xreg(8, 0x1234);
    let mut c = csrs();
    c.stval = csrrw(7, 0x11, 8);
    let r = trap_exception(&mut ctx, &mut z, &mut p, &c);
    assert_eq!(r, TrapOutcome::Resume(hikami::sbi::FenceAction::NoFence));
    assert_eq!(ctx.xreg(7), SS_BASE + 8 * SS_WORDS as u64); // the old ssp
    assert_eq!(z.ssp, 0x1234);
}

#[test]
fn senvcfg_read_overlays_emulated_bit() {
    let (mut ctx, mut z, mut p) = fresh();
    z.senv_sse = true;
    // csrrs x7, senvcfg, x0: read only
    let mut c = csrs();
    c.stval = csrrs(7, 0x10a, 0);
    c.senvcfg = 0x40;
    trap_exception(&mut ctx, &mut z, &mut p, &c);
    assert_eq!(ctx.xreg(7), 0x48); // hardware bits with SSE overlaid
    assert!(z.senv_sse);
}

#[test]
fn direct_push_pop_bounds() {
    let mut z = Zicfiss::new();
    z.set_shadow_stack(0x1000, vec![0u64; 2]);
    z.ssp = 0x1010;
    assert_eq!(z.ss_push(11), Ok(()));
    assert_eq!(z.ss_push(22), Ok(()));
    // the region is full
    assert!(z.ss_push(33).is_err());
    assert_eq!(z.ss_pop(), Ok(22));
    assert_eq!(z.ss_pop(), Ok(11));
    // the region is empty again
    assert!(z.ss_pop().is_err());
}

#[test]
fn ssrdp_reads_pointer_or_zero() {
    let (mut ctx, mut z, mut p) = fresh();
    // ssrdp x3: funct7_rs2 = 0xcdc, rs1 = 0, rd = 3
    let ssrdp = (0xcdc << 20) | (4 << 12) | (3 << 7) | 0x73;
    let mut c = csrs();
    c.stval = ssrdp;
    trap_exception(&mut ctx, &mut z, &mut p, &c);
    assert_eq!(ctx.xreg(3), 0); // disabled: reads zero

    z.senv_sse = true;
    trap_exception(&mut ctx, &mut z, &mut p, &c);
    assert_eq!(ctx.xreg(3), SS_BASE + 8 * SS_WORDS as u64);
}

#[test]
fn senvcfg_write_with_clear_bit_disables() {
    // read-modify-write semantics: a csrrw writing bit 3 = 0 clears SSE
    let (mut ctx, mut z, mut p) = fresh();
    z.senv_sse = true;
    ctx.set_xreg(9, 0);
    let mut c = csrs();
    c.stval = csrrw(0, 0x10a, 9);
    trap_exception(&mut ctx, &mut z, &mut p, &c);
    assert!(!z.senv_sse);

    // while a csrrc with bit 3 = 0 leaves the bit alone
    z.senv_sse = true;
    let csrrc = (0x10au64 << 20) | (9 << 15) | (3 << 12) | 0x73;
    c.stval = csrrc;
    trap_exception(&mut ctx, &mut z, &mut p, &c);
    assert!(z.senv_sse);
}

#[test]
fn oversized_instruction_word_is_rejected() {
    // an stval beyond the decoder's 32-bit domain is handed back, not decoded
    let (mut ctx, mut z, mut p) = fresh();
    let mut c = csrs();
    c.stval = 0x1_0000_0003; // low bits 11 but wider than 32 bits
    let r = trap_exception(&mut ctx, &mut z, &mut p, &c);
    match r {
        TrapOutcome::Forward(f) => assert_eq!(f.vscause, 2),
        other => panic!("unexpected outcome {:?}", other),
    }
}
