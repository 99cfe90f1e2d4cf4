//! VS-mode trap dispatch: decide, for each exception taken from the guest,
//! whether to emulate it, answer it, or forward it back to the guest.
//!
//! The machine-level prologue and epilogue (register save/restore, CSR
//! reads, `sret`) stay outside; this module takes the materialized context
//! and the trap CSR snapshot and computes the outcome.

use vstd::prelude::*;

use crate::context::Context;
use crate::decode::decode_fields;
use crate::decode::decode_in_range;
use crate::decode::decode_rdtime;
use crate::decode::decode_zicfiss;
use crate::decode::decode_zicsr;
use crate::decode::decoded_of;
use crate::decode::fields_of;
use crate::decode::rdtime_of;
use crate::decode::spec_decode_in_range;
use crate::decode::zicfiss_of;
use crate::decode::zicsr_of;
use crate::decode::ZicsrOp;
use crate::memmap::HostPhysicalAddress;
use crate::plic::Plic;
use crate::sbi::sbi_vs_mode_handler;
use crate::sbi::spec_sbi_result;
use crate::sbi::FenceAction;
use crate::sbi::HostCsrs;
use crate::sbi::UnknownSbiCall;
use crate::zicfiss::spec_csr_new_ssp;
use crate::zicfiss::spec_csr_outcome;
use crate::zicfiss::spec_insn_outcome;
use crate::zicfiss::spec_senvcfg_write_val;
use crate::zicfiss::Zicfiss;
use crate::zicfiss::ZicfissOutcome;
use crate::zicfiss::CSR_SENVCFG;
use crate::zicfiss::CSR_SSP;
use crate::zicfiss::SHADOW_STACK_FAULT;
use crate::zicfiss::SOFTWARE_CHECK_EXCEPTION;

verus! {

/// Illegal-instruction exception code.
pub const EXC_ILLEGAL_INSTRUCTION: u64 = 2;

/// Environment-call-from-HS exception code.
pub const EXC_SUPERVISOR_ENV_CALL: u64 = 9;

/// Environment-call-from-VS exception code.
pub const EXC_ECALL_FROM_VS: u64 = 10;

/// Instruction guest-page-fault exception code.
pub const EXC_INST_GUEST_PAGE_FAULT: u64 = 20;

/// Load guest-page-fault exception code.
pub const EXC_LOAD_GUEST_PAGE_FAULT: u64 = 21;

/// Virtual-instruction exception code.
pub const EXC_VIRTUAL_INSTRUCTION: u64 = 22;

/// Store/AMO guest-page-fault exception code.
pub const EXC_STORE_GUEST_PAGE_FAULT: u64 = 23;

/// The CSR snapshot the trap prologue hands to the dispatcher.
#[derive(Clone, Copy, PartialEq, Eq, Structural, Debug)]
pub struct TrapCsrs {
    /// Exception code from `scause` (the interrupt bit already split off).
    pub scause_code: u64,
    /// `stval`: faulting address or instruction word.
    pub stval: u64,
    /// `htval`: the faulting guest physical address shifted right by 2.
    pub htval: u64,
    /// `htinst`: the transformed faulting instruction.
    pub htinst: u64,
    /// The guest's trap vector.
    pub vstvec: u64,
    /// The host `senvcfg` value.
    pub senvcfg: u64,
    /// The host `time` CSR.
    pub time: u64,
    /// Machine id CSRs forwarded by the SBI Base extension.
    pub host: HostCsrs,
}

/// The values to write to the guest's virtual-supervisor CSRs when an
/// exception is delivered to it.
#[derive(Clone, Copy, PartialEq, Eq, Structural, Debug)]
pub struct ForwardedException {
    /// Value for `vsepc`.
    pub vsepc: u64,
    /// Value for `vscause`.
    pub vscause: u64,
    /// Value for `vstval`.
    pub vstval: u64,
}

/// Why the hypervisor must halt this HART.
#[derive(Clone, Copy, PartialEq, Eq, Structural, Debug)]
pub enum TrapFatal {
    /// An `ecall` from HS-mode reached the VS trap path.
    SupervisorEnvCall,
    /// No demand paging on code: an instruction guest-page fault.
    InstructionGuestPageFault,
    /// The faulting instruction did not decode or lacks a field.
    DecodeFailed,
    /// The guest made an SBI call with an unknown extension id.
    UnsupportedSbi(UnknownSbiCall),
    /// The Zicfiss emulation hit an unsupported operation or left its
    /// backing region.
    EmulateExtensionFailed,
    /// A store to an emulated register carried a value beyond 32 bits.
    StoreValueTooWide,
    /// The faulting address cannot be reconstructed from `htval`.
    BadFaultAddress,
}

/// Outcome of one trap: re-enter the guest, deliver it an exception, or halt.
#[derive(Clone, Copy, PartialEq, Eq, Structural, Debug)]
pub enum TrapOutcome {
    /// Handled; run the fence if one is owed, then `sret` back into the
    /// guest.
    Resume(FenceAction),
    /// Write the carried values to the guest's CSRs, then `sret`; the guest
    /// enters its own trap handler.
    Forward(ForwardedException),
    /// A fatal programming error: halt the HART.
    Fatal(TrapFatal),
}

/// Delegate the current exception to the guest: the guest sees its own
/// `sepc`, the cause and the trap value, and the hypervisor re-enters the
/// guest at the guest's trap vector.
pub fn hs_forward_exception(context: &mut Context, scause: u64, stval: u64, vstvec: u64) -> (r:
    ForwardedException)
    requires
        old(context).wf(),
    ensures
        final(context).wf(),
        r.vsepc == old(context).spec_sepc(),
        r.vscause == scause,
        r.vstval == stval,
        final(context).spec_sepc() == vstvec,
        final(context).spec_sstatus() == old(context).spec_sstatus(),
        forall|k: int| 0 <= k < 32 ==> final(context).reg(k) == old(context).reg(k),
{
    let fwd = ForwardedException { vsepc: context.sepc(), vscause: scause, vstval: stval };
    context.set_sepc(vstvec);
    fwd
}

/// Advance `sepc` over an emulated access by the faulting instruction's
/// size: bit 1 of the `htinst` word is clear for a compressed instruction.
pub fn update_sepc_by_htinst_value(htinst_inst_value: u64, context: &mut Context)
    requires
        old(context).wf(),
        old(context).spec_sepc() + 4 <= u64::MAX,
    ensures
        final(context).wf(),
        (htinst_inst_value / 2) % 2 == 0 ==> final(context).spec_sepc() == old(
            context,
        ).spec_sepc() + 2,
        (htinst_inst_value / 2) % 2 == 1 ==> final(context).spec_sepc() == old(
            context,
        ).spec_sepc() + 4,
        final(context).spec_sstatus() == old(context).spec_sstatus(),
        forall|k: int| 0 <= k < 32 ==> final(context).reg(k) == old(context).reg(k),
{
    if (htinst_inst_value / 2) % 2 == 0 {
        // compressed instruction
        let pc = context.sepc();
        context.set_sepc(pc + 2);
    } else {
        // normal size instruction
        let pc = context.sepc();
        context.set_sepc(pc + 4);
    }
}

/// Trap handler for exceptions taken from VS-mode.
#[verifier::rlimit(100)]
pub fn trap_exception(
    context: &mut Context,
    zicfiss: &mut Zicfiss,
    plic: &mut Plic,
    csrs: &TrapCsrs,
) -> (r: TrapOutcome)
    requires
        old(context).wf(),
        old(zicfiss).wf(),
        old(plic).wf(),
        old(context).spec_sepc() + 4 <= u64::MAX,
    ensures
        final(context).wf(),
        final(zicfiss).wf(),
        final(plic).wf(),
        // an ecall lands in the SBI server: a0/a1 carry its answer, sepc
        // advances by 4, every other register survives
        csrs.scause_code == EXC_ECALL_FROM_VS ==> match spec_sbi_result(
            old(context).reg(17),
            old(context).reg(16),
            old(context).reg(10),
            csrs.host,
        ) {
            Some((ret, fence)) => {
                &&& r == TrapOutcome::Resume(fence)
                &&& final(context).reg(10) == ret.error as u64
                &&& final(context).reg(11) == ret.value as u64
                &&& forall|k: int|
                    0 <= k < 32 && k != 10 && k != 11 ==> final(context).reg(k) == old(
                        context,
                    ).reg(k)
                &&& final(context).spec_sepc() == old(context).spec_sepc() + 4
                &&& final(context).spec_sstatus() == old(context).spec_sstatus()
            },
            None => r matches TrapOutcome::Fatal(TrapFatal::UnsupportedSbi(u)) && u.eid == old(
                context,
            ).reg(17) && *final(context) == *old(context),
        },
        // a load fault outside every emulated device register goes back to
        // the guest with faithful cause and value
        csrs.scause_code == EXC_LOAD_GUEST_PAGE_FAULT && csrs.htval < 0x4000_0000_0000_0000
            && spec_decode_in_range(csrs.htinst | 2) && (
        fields_of(decoded_of(csrs.htinst | 2)) matches Some(f)) && !old(plic).spec_is_claim(
            HostPhysicalAddress((csrs.htval * 4) as u64),
        ) && old(plic).spec_read_result(HostPhysicalAddress((csrs.htval * 4) as u64)) is Err ==> r
            == TrapOutcome::Forward(
            ForwardedException {
                vsepc: old(context).spec_sepc(),
                vscause: EXC_LOAD_GUEST_PAGE_FAULT,
                vstval: csrs.stval,
            },
        ) && final(context).spec_sepc() == csrs.vstvec && *final(plic) == *old(plic) && (forall|
            k: int,
        |
            0 <= k < 32 ==> final(context).reg(k) == old(context).reg(k)),
        // rdtime: the destination register receives the host time CSR
        csrs.scause_code == EXC_VIRTUAL_INSTRUCTION && spec_decode_in_range(csrs.stval) && (
        rdtime_of(decoded_of(csrs.stval)) matches Some(rdo)) ==> match rdtime_of(
            decoded_of(csrs.stval),
        ) {
            Some(Some(rd)) => rd < 32 ==> {
                &&& r == TrapOutcome::Resume(FenceAction::NoFence)
                &&& (rd != 0 ==> final(context).reg(rd as int) == csrs.time)
                &&& final(context).spec_sepc() == old(context).spec_sepc() + 4
                &&& forall|k: int|
                    0 <= k < 32 && k != rd ==> final(context).reg(k) == old(context).reg(k)
            },
            _ => r is Fatal,
        },
        // exceptions this hypervisor does not handle go back to the guest
        csrs.scause_code != EXC_ILLEGAL_INSTRUCTION && csrs.scause_code != EXC_SUPERVISOR_ENV_CALL
            && csrs.scause_code != EXC_ECALL_FROM_VS && csrs.scause_code
            != EXC_INST_GUEST_PAGE_FAULT && csrs.scause_code != EXC_LOAD_GUEST_PAGE_FAULT
            && csrs.scause_code != EXC_VIRTUAL_INSTRUCTION && csrs.scause_code
            != EXC_STORE_GUEST_PAGE_FAULT ==> r == TrapOutcome::Forward(
            ForwardedException {
                vsepc: old(context).spec_sepc(),
                vscause: csrs.scause_code,
                vstval: csrs.stval,
            },
        ) && final(context).spec_sepc() == csrs.vstvec && (forall|k: int|
            0 <= k < 32 ==> final(context).reg(k) == old(context).reg(k)),
        // fatal codes halt without touching anything
        csrs.scause_code == EXC_SUPERVISOR_ENV_CALL ==> r == TrapOutcome::Fatal(
            TrapFatal::SupervisorEnvCall,
        ) && *final(context) == *old(context),
        csrs.scause_code == EXC_INST_GUEST_PAGE_FAULT ==> r == TrapOutcome::Fatal(
            TrapFatal::InstructionGuestPageFault,
        ) && *final(context) == *old(context),
        // the PLIC moves only under the MMIO fault paths, the Zicfiss state
        // only under illegal-instruction emulation
        csrs.scause_code != EXC_LOAD_GUEST_PAGE_FAULT && csrs.scause_code
            != EXC_STORE_GUEST_PAGE_FAULT ==> *final(plic) == *old(plic),
        csrs.scause_code != EXC_ILLEGAL_INSTRUCTION ==> *final(zicfiss) == *old(zicfiss),
        csrs.scause_code == EXC_LOAD_GUEST_PAGE_FAULT ==> *final(zicfiss) == *old(zicfiss),
        csrs.scause_code == EXC_STORE_GUEST_PAGE_FAULT ==> *final(zicfiss) == *old(zicfiss),
        // a load fault on the claim register performs the claim: the best
        // candidate lands in rd, its pending bit clears, the claim records
        csrs.scause_code == EXC_LOAD_GUEST_PAGE_FAULT && csrs.htval < 0x4000_0000_0000_0000
            && spec_decode_in_range(csrs.htinst | 2) && fields_of(decoded_of(csrs.htinst | 2))
            is Some && fields_of(decoded_of(csrs.htinst | 2))->Some_0.0 is Some && fields_of(
            decoded_of(csrs.htinst | 2),
        )->Some_0.0->Some_0 < 32 && old(plic).spec_is_claim(
            HostPhysicalAddress((csrs.htval * 4) as u64),
        ) ==> {
            let rd = fields_of(decoded_of(csrs.htinst | 2))->Some_0.0->Some_0;
            &&& r == TrapOutcome::Resume(FenceAction::NoFence)
            &&& exists|v: u32|
                #[trigger] Plic::spec_claim_effect(
                    *old(plic),
                    *final(plic),
                    old(plic).spec_claim_ctx(HostPhysicalAddress((csrs.htval * 4) as u64)),
                    v,
                ) && (rd != 0 ==> final(context).reg(rd as int) == v)
            &&& forall|k: int|
                0 <= k < 32 && k != rd ==> final(context).reg(k) == old(context).reg(k)
            &&& ((csrs.htinst / 2) % 2 == 0 ==> final(context).spec_sepc() == old(
                context,
            ).spec_sepc() + 2)
            &&& ((csrs.htinst / 2) % 2 == 1 ==> final(context).spec_sepc() == old(
                context,
            ).spec_sepc() + 4)
        },
        // a load fault on any other readable register delivers the stored
        // value without moving the PLIC
        csrs.scause_code == EXC_LOAD_GUEST_PAGE_FAULT && csrs.htval < 0x4000_0000_0000_0000
            && spec_decode_in_range(csrs.htinst | 2) && fields_of(decoded_of(csrs.htinst | 2))
            is Some && fields_of(decoded_of(csrs.htinst | 2))->Some_0.0 is Some && fields_of(
            decoded_of(csrs.htinst | 2),
        )->Some_0.0->Some_0 < 32 && !old(plic).spec_is_claim(
            HostPhysicalAddress((csrs.htval * 4) as u64),
        ) && old(plic).spec_read_result(HostPhysicalAddress((csrs.htval * 4) as u64)) is Ok ==> {
            let rd = fields_of(decoded_of(csrs.htinst | 2))->Some_0.0->Some_0;
            let v = old(plic).spec_read_result(
                HostPhysicalAddress((csrs.htval * 4) as u64),
            )->Ok_0;
            &&& r == TrapOutcome::Resume(FenceAction::NoFence)
            &&& *final(plic) == *old(plic)
            &&& (rd != 0 ==> final(context).reg(rd as int) == v)
            &&& forall|k: int|
                0 <= k < 32 && k != rd ==> final(context).reg(k) == old(context).reg(k)
            &&& ((csrs.htinst / 2) % 2 == 0 ==> final(context).spec_sepc() == old(
                context,
            ).spec_sepc() + 2)
            &&& ((csrs.htinst / 2) % 2 == 1 ==> final(context).spec_sepc() == old(
                context,
            ).spec_sepc() + 4)
        },
        // a store fault writes the addressed register, or goes back to the
        // guest when no register sits there
        csrs.scause_code == EXC_STORE_GUEST_PAGE_FAULT && csrs.htval < 0x4000_0000_0000_0000
            && spec_decode_in_range(csrs.htinst | 2) && fields_of(decoded_of(csrs.htinst | 2))
            is Some && fields_of(decoded_of(csrs.htinst | 2))->Some_0.1 is Some && fields_of(
            decoded_of(csrs.htinst | 2),
        )->Some_0.1->Some_0 < 32 && old(context).reg(
            fields_of(decoded_of(csrs.htinst | 2))->Some_0.1->Some_0 as int,
        ) <= 0xffff_ffff ==> {
            let rs2 = fields_of(decoded_of(csrs.htinst | 2))->Some_0.1->Some_0;
            let v32 = old(context).reg(rs2 as int) as u32;
            match old(plic).spec_write_result(HostPhysicalAddress((csrs.htval * 4) as u64)) {
                Ok(u) => {
                    &&& r == TrapOutcome::Resume(FenceAction::NoFence)
                    &&& Plic::spec_write_effect(
                        *old(plic),
                        *final(plic),
                        HostPhysicalAddress((csrs.htval * 4) as u64),
                        v32,
                    )
                    &&& forall|k: int| 0 <= k < 32 ==> final(context).reg(k) == old(context).reg(k)
                    &&& ((csrs.htinst / 2) % 2 == 0 ==> final(context).spec_sepc() == old(
                        context,
                    ).spec_sepc() + 2)
                    &&& ((csrs.htinst / 2) % 2 == 1 ==> final(context).spec_sepc() == old(
                        context,
                    ).spec_sepc() + 4)
                },
                Err(e) => {
                    &&& r == TrapOutcome::Forward(
                        ForwardedException {
                            vsepc: old(context).spec_sepc(),
                            vscause: EXC_STORE_GUEST_PAGE_FAULT,
                            vstval: csrs.stval,
                        },
                    )
                    &&& *final(plic) == *old(plic)
                    &&& final(context).spec_sepc() == csrs.vstvec
                    &&& forall|k: int| 0 <= k < 32 ==> final(context).reg(k) == old(context).reg(k)
                },
            }
        },
        // an illegal instruction that decodes as Zicfiss is emulated: a
        // matched pop resumes, a mismatch raises the software-check
        // exception, an unsupported operation is fatal
        csrs.scause_code == EXC_ILLEGAL_INSTRUCTION && spec_decode_in_range(csrs.stval)
            && zicfiss_of(decoded_of(csrs.stval)) is Some ==> {
            let zi = zicfiss_of(decoded_of(csrs.stval))->Some_0;
            match spec_insn_outcome(*old(zicfiss), *old(context), zi) {
                ZicfissOutcome::Handled => {
                    &&& r == TrapOutcome::Resume(FenceAction::NoFence)
                    &&& (zi.compressed ==> final(context).spec_sepc() == old(context).spec_sepc()
                        + 2)
                    &&& (!zi.compressed ==> final(context).spec_sepc() == old(context).spec_sepc()
                        + 4)
                },
                ZicfissOutcome::SoftwareCheck => {
                    &&& r == TrapOutcome::Forward(
                        ForwardedException {
                            vsepc: old(context).spec_sepc(),
                            vscause: SOFTWARE_CHECK_EXCEPTION,
                            vstval: SHADOW_STACK_FAULT,
                        },
                    )
                    &&& final(context).spec_sepc() == csrs.vstvec
                },
                ZicfissOutcome::Fatal => r == TrapOutcome::Fatal(
                    TrapFatal::EmulateExtensionFailed,
                ),
            }
        },
        // an illegal instruction on the emulated ssp CSR applies the usual
        // read-modify-write to it
        csrs.scause_code == EXC_ILLEGAL_INSTRUCTION && spec_decode_in_range(csrs.stval)
            && zicfiss_of(decoded_of(csrs.stval)) is None && zicsr_of(decoded_of(csrs.stval))
            is Some && zicsr_of(decoded_of(csrs.stval))->Some_0.csr == Some(CSR_SSP) ==> {
            let ci = zicsr_of(decoded_of(csrs.stval))->Some_0;
            match spec_csr_outcome(ci) {
                ZicfissOutcome::Handled => {
                    &&& r == TrapOutcome::Resume(FenceAction::NoFence)
                    &&& final(context).spec_sepc() == old(context).spec_sepc() + 4
                    &&& final(zicfiss).ssp == spec_csr_new_ssp(*old(zicfiss), *old(context), ci)
                },
                ZicfissOutcome::Fatal => r == TrapOutcome::Fatal(
                    TrapFatal::EmulateExtensionFailed,
                ),
                _ => true,
            }
        },
        // an illegal instruction on senvcfg virtualizes the SSE bit: the
        // read overlays it, the write steers it
        csrs.scause_code == EXC_ILLEGAL_INSTRUCTION && spec_decode_in_range(csrs.stval)
            && zicfiss_of(decoded_of(csrs.stval)) is None && zicsr_of(decoded_of(csrs.stval))
            is Some && zicsr_of(decoded_of(csrs.stval))->Some_0.csr == Some(CSR_SENVCFG)
            && zicsr_of(decoded_of(csrs.stval))->Some_0.rd is Some && zicsr_of(
            decoded_of(csrs.stval),
        )->Some_0.rd->Some_0 < 32 && spec_senvcfg_write_val(
            *old(context),
            zicsr_of(decoded_of(csrs.stval))->Some_0,
        ) is Some ==> {
            let ci = zicsr_of(decoded_of(csrs.stval))->Some_0;
            let rd = ci.rd->Some_0;
            let wv = spec_senvcfg_write_val(*old(context), ci)->Some_0;
            &&& r == TrapOutcome::Resume(FenceAction::NoFence)
            &&& final(zicfiss).senv_sse == (match ci.op {
                crate::decode::ZicsrOp::Csrrw | crate::decode::ZicsrOp::Csrrwi => (wv / 8) % 2
                    == 1,
                crate::decode::ZicsrOp::Csrrs | crate::decode::ZicsrOp::Csrrsi => old(
                    zicfiss,
                ).senv_sse || (wv / 8) % 2 == 1,
                crate::decode::ZicsrOp::Csrrc | crate::decode::ZicsrOp::Csrrci => old(
                    zicfiss,
                ).senv_sse && !((wv / 8) % 2 == 1),
            })
            &&& (rd != 0 ==> final(context).reg(rd as int) == (csrs.senvcfg | (if old(
                zicfiss,
            ).senv_sse {
                8u64
            } else {
                0u64
            })))
            &&& final(context).spec_sepc() == old(context).spec_sepc() + 4
        },
{
    let code = csrs.scause_code;
    if code == EXC_ILLEGAL_INSTRUCTION {
        if !decode_in_range(csrs.stval) {
            // not an instruction word the decoder accepts: hand it back
            return TrapOutcome::Forward(
                hs_forward_exception(context, code, csrs.stval, csrs.vstvec),
            );
        }
        if let Some(zi) = decode_zicfiss(csrs.stval) {
            let compressed = zi.compressed;
            match zicfiss.instruction(&zi, context) {
                ZicfissOutcome::Handled => {
                    let pc = context.sepc();
                    if compressed {
                        context.set_sepc(pc + 2);
                    } else {
                        context.set_sepc(pc + 4);
                    }
                    return TrapOutcome::Resume(FenceAction::NoFence);
                },
                ZicfissOutcome::SoftwareCheck => {
                    return TrapOutcome::Forward(
                        pseudo_vs_exception(
                            context,
                            SOFTWARE_CHECK_EXCEPTION,
                            SHADOW_STACK_FAULT,
                            csrs.vstvec,
                        ),
                    );
                },
                ZicfissOutcome::Fatal => {
                    return TrapOutcome::Fatal(TrapFatal::EmulateExtensionFailed);
                },
            }
        }
        if let Some(ci) = decode_zicsr(csrs.stval) {
            if let Some(csr_num) = ci.csr {
                if csr_num == CSR_SSP {
                    match zicfiss.csr(&ci, context) {
                        ZicfissOutcome::Fatal => {
                            return TrapOutcome::Fatal(TrapFatal::EmulateExtensionFailed);
                        },
                        _ => {
                            let pc = context.sepc();
                            context.set_sepc(pc + 4);
                            return TrapOutcome::Resume(FenceAction::NoFence);
                        },
                    }
                }
                if csr_num == CSR_SENVCFG {
                    let rd = match ci.rd {
                        Some(v) => v,
                        None => { return TrapOutcome::Fatal(TrapFatal::DecodeFailed) },
                    };
                    if rd >= 32 {
                        return TrapOutcome::Fatal(TrapFatal::DecodeFailed);
                    }
                    let write_val: u64 = match ci.op {
                        ZicsrOp::Csrrw | ZicsrOp::Csrrs | ZicsrOp::Csrrc => {
                            let rs1 = match ci.rs1 {
                                Some(v) => v,
                                None => { return TrapOutcome::Fatal(TrapFatal::DecodeFailed) },
                            };
                            if rs1 >= 32 {
                                return TrapOutcome::Fatal(TrapFatal::DecodeFailed);
                            }
                            context.xreg(rs1)
                        },
                        _ => {
                            let uimm = match ci.uimm {
                                Some(v) => v,
                                None => { return TrapOutcome::Fatal(TrapFatal::DecodeFailed) },
                            };
                            if uimm < 0 {
                                return TrapOutcome::Fatal(TrapFatal::DecodeFailed);
                            }
                            uimm as u64
                        },
                    };
                    let mut read_val = csrs.senvcfg;
                    zicfiss.csr_field(&ci, write_val, &mut read_val);
                    context.set_xreg(rd, read_val);
                    let pc = context.sepc();
                    context.set_sepc(pc + 4);
                    return TrapOutcome::Resume(FenceAction::NoFence);
                }
            }
        }
        return TrapOutcome::Forward(
            hs_forward_exception(context, code, csrs.stval, csrs.vstvec),
        );
    }
    if code == EXC_SUPERVISOR_ENV_CALL {
        return TrapOutcome::Fatal(TrapFatal::SupervisorEnvCall);
    }
    if code == EXC_ECALL_FROM_VS {
        match sbi_vs_mode_handler(context, csrs.host) {
            Ok(fence) => {
                let pc = context.sepc();
                context.set_sepc(pc + 4);
                return TrapOutcome::Resume(fence);
            },
            Err(u) => {
                return TrapOutcome::Fatal(TrapFatal::UnsupportedSbi(u));
            },
        }
    }
    if code == EXC_INST_GUEST_PAGE_FAULT {
        return TrapOutcome::Fatal(TrapFatal::InstructionGuestPageFault);
    }
    if code == EXC_LOAD_GUEST_PAGE_FAULT {
        if csrs.htval >= 0x4000_0000_0000_0000 {
            return TrapOutcome::Fatal(TrapFatal::BadFaultAddress);
        }
        let fault_addr = HostPhysicalAddress(csrs.htval * 4);
        // htinst has bit 1 replaced with 0; flip it back before decoding
        let fault_inst_value = csrs.htinst | 2;
        if !decode_in_range(fault_inst_value) {
            return TrapOutcome::Fatal(TrapFatal::DecodeFailed);
        }
        let fields = match decode_fields(fault_inst_value) {
            Some(f) => f,
            None => { return TrapOutcome::Fatal(TrapFatal::DecodeFailed) },
        };
        match plic.emulate_read(fault_addr) {
            Ok(value) => {
                let rd = match fields.0 {
                    Some(v) => v,
                    None => { return TrapOutcome::Fatal(TrapFatal::DecodeFailed) },
                };
                if rd >= 32 {
                    return TrapOutcome::Fatal(TrapFatal::DecodeFailed);
                }
                context.set_xreg(rd, value as u64);
                update_sepc_by_htinst_value(csrs.htinst, context);
                return TrapOutcome::Resume(FenceAction::NoFence);
            },
            Err(_) => {
                return TrapOutcome::Forward(
                    hs_forward_exception(context, code, csrs.stval, csrs.vstvec),
                );
            },
        }
    }
    if code == EXC_VIRTUAL_INSTRUCTION {
        if !decode_in_range(csrs.stval) {
            return TrapOutcome::Fatal(TrapFatal::DecodeFailed);
        }
        match decode_rdtime(csrs.stval) {
            Some(Some(rd)) => {
                if rd >= 32 {
                    return TrapOutcome::Fatal(TrapFatal::DecodeFailed);
                }
                context.set_xreg(rd, csrs.time);
                let pc = context.sepc();
                context.set_sepc(pc + 4);
                return TrapOutcome::Resume(FenceAction::NoFence);
            },
            Some(None) => {
                return TrapOutcome::Fatal(TrapFatal::DecodeFailed);
            },
            None => {
                return TrapOutcome::Fatal(TrapFatal::DecodeFailed);
            },
        }
    }
    if code == EXC_STORE_GUEST_PAGE_FAULT {
        if csrs.htval >= 0x4000_0000_0000_0000 {
            return TrapOutcome::Fatal(TrapFatal::BadFaultAddress);
        }
        let fault_addr = HostPhysicalAddress(csrs.htval * 4);
        let fault_inst_value = csrs.htinst | 2;
        if !decode_in_range(fault_inst_value) {
            return TrapOutcome::Fatal(TrapFatal::DecodeFailed);
        }
        let fields = match decode_fields(fault_inst_value) {
            Some(f) => f,
            None => { return TrapOutcome::Fatal(TrapFatal::DecodeFailed) },
        };
        let rs2 = match fields.1 {
            Some(v) => v,
            None => { return TrapOutcome::Fatal(TrapFatal::DecodeFailed) },
        };
        if rs2 >= 32 {
            return TrapOutcome::Fatal(TrapFatal::DecodeFailed);
        }
        let store_value = context.xreg(rs2);
        if store_value > 0xffff_ffff {
            return TrapOutcome::Fatal(TrapFatal::StoreValueTooWide);
        }
        match plic.emulate_write(fault_addr, store_value as u32) {
            Ok(()) => {
                update_sepc_by_htinst_value(csrs.htinst, context);
                return TrapOutcome::Resume(FenceAction::NoFence);
            },
            Err(_) => {
                return TrapOutcome::Forward(
                    hs_forward_exception(context, code, csrs.stval, csrs.vstvec),
                );
            },
        }
    }
    TrapOutcome::Forward(hs_forward_exception(context, code, csrs.stval, csrs.vstvec))
}

/// Raise a pseudo VS-exception with the given cause and trap value: the
/// guest enters its trap vector as if hardware had raised it.
fn pseudo_vs_exception(context: &mut Context, cause: u64, tval: u64, vstvec: u64) -> (r:
    ForwardedException)
    requires
        old(context).wf(),
    ensures
        final(context).wf(),
        r.vsepc == old(context).spec_sepc(),
        r.vscause == cause,
        r.vstval == tval,
        final(context).spec_sepc() == vstvec,
{
    let fwd = ForwardedException { vsepc: context.sepc(), vscause: cause, vstval: tval };
    context.set_sepc(vstvec);
    fwd
}

/// Interrupt codes of `scause` with the top bit set.
pub const INT_SUPERVISOR_SOFT: u64 = 1;

/// Supervisor timer interrupt code.
pub const INT_SUPERVISOR_TIMER: u64 = 5;

/// Supervisor external interrupt code.
pub const INT_SUPERVISOR_EXTERNAL: u64 = 9;

/// What the trap path must do about an interrupt.
#[derive(Clone, Copy, PartialEq, Eq, Structural, Debug)]
pub enum InterruptAction {
    /// Clear `sip.STIP` and set `hvip.VSTIP`: hand the timer to the guest.
    ForwardTimer,
    /// Read the hardware PLIC claim and decide between emulation and
    /// `hvip.VSEIP`.
    HandleExternal,
    /// A spurious interrupt: log it and re-enter the guest.
    Spurious,
}

/// Dispatch an interrupt cause to its action.
pub fn trap_interrupt(interrupt_code: u64) -> (r: InterruptAction)
    ensures
        interrupt_code == INT_SUPERVISOR_TIMER ==> r == InterruptAction::ForwardTimer,
        interrupt_code == INT_SUPERVISOR_EXTERNAL ==> r == InterruptAction::HandleExternal,
        interrupt_code != INT_SUPERVISOR_TIMER && interrupt_code != INT_SUPERVISOR_EXTERNAL ==> r
            == InterruptAction::Spurious,
{
    if interrupt_code == INT_SUPERVISOR_TIMER {
        InterruptAction::ForwardTimer
    } else if interrupt_code == INT_SUPERVISOR_EXTERNAL {
        InterruptAction::HandleExternal
    } else {
        InterruptAction::Spurious
    }
}

} // verus!
