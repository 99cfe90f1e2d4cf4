//! Zicfiss (shadow stack) emulation.
//!
//! The shadow stack is a dedicated region read as a LIFO of 64-bit words,
//! with bounds-checked push and pop; its backing is distinct from guest R/W
//! DRAM and from any pass-through MMIO region.  `ssp` is a purely emulated
//! CSR; the `SSE` bits of `senvcfg`/`henvcfg` are virtualized.

use vstd::prelude::*;

use crate::context::Context;
use crate::decode::ZicfissInst;
use crate::decode::ZicfissOp;
use crate::decode::ZicsrInst;
use crate::decode::ZicsrOp;

verus! {

/// The emulated `ssp` CSR number.
pub const CSR_SSP: usize = 0x11;

/// The `senvcfg` CSR number.
pub const CSR_SENVCFG: usize = 0x10a;

/// Software-check exception cause value.
pub const SOFTWARE_CHECK_EXCEPTION: u64 = 18;

/// Shadow-stack fault tval value.
pub const SHADOW_STACK_FAULT: u64 = 3;

/// How an emulated Zicfiss operation ended.
#[derive(Clone, Copy, PartialEq, Eq, Structural, Debug)]
pub enum ZicfissOutcome {
    /// Emulated silently; the guest continues.
    Handled,
    /// Raise a pseudo VS-exception: software check, shadow-stack fault.
    SoftwareCheck,
    /// An operation this emulation does not carry, or a push or pop beyond
    /// the backing region: a fatal programming error.
    Fatal,
}

/// Per-HART Zicfiss state.
pub struct Zicfiss {
    /// Shadow stack pointer (the emulated `ssp` CSR).
    pub ssp: u64,
    /// Shadow Stack Enable in `henvcfg` (for VS-mode).
    pub henv_sse: bool,
    /// Shadow Stack Enable in `senvcfg` (for VU-mode).
    pub senv_sse: bool,
    /// Guest-virtual base of the shadow stack's backing region.
    pub stack_base: u64,
    /// The backing region, one cell per 64-bit word.
    pub stack: Vec<u64>,
}


/// The word a pop would read, at the starting state.
pub open spec fn spec_pop_value(z: Zicfiss) -> u64 {
    z.stack@[(z.ssp - z.stack_base) / 8]
}

/// The outcome emulating one Zicfiss instruction settles on, as a function
/// of the starting state.
pub open spec fn spec_insn_outcome(z: Zicfiss, ctx: Context, inst: ZicfissInst) -> ZicfissOutcome {
    let enabled = z.spec_is_ss_enable(ctx.spec_sstatus());
    match inst.op {
        ZicfissOp::Sspush => spec_push_outcome(z, enabled, inst.rs2),
        ZicfissOp::CSspush => spec_push_outcome(z, enabled, inst.rd),
        ZicfissOp::Sspopchk => spec_popchk_outcome(z, ctx, enabled, inst.rs1),
        ZicfissOp::CSspopchk => spec_popchk_outcome(z, ctx, enabled, inst.rd),
        ZicfissOp::Ssrdp => match inst.rd {
            Some(rd) => if rd < 32 {
                ZicfissOutcome::Handled
            } else {
                ZicfissOutcome::Fatal
            },
            None => ZicfissOutcome::Fatal,
        },
        ZicfissOp::SsamoswapW => ZicfissOutcome::Fatal,
        ZicfissOp::SsamoswapD => ZicfissOutcome::Fatal,
    }
}

/// Outcome of a shadow-stack push through the named register.
pub open spec fn spec_push_outcome(z: Zicfiss, enabled: bool, reg: Option<usize>) -> ZicfissOutcome {
    if !enabled {
        ZicfissOutcome::Handled
    } else {
        match reg {
            Some(r) => if r >= 32 {
                ZicfissOutcome::Fatal
            } else if z.spec_can_push() {
                ZicfissOutcome::Handled
            } else {
                ZicfissOutcome::Fatal
            },
            None => ZicfissOutcome::Fatal,
        }
    }
}

/// Outcome of a shadow-stack pop-and-check against the named register.
pub open spec fn spec_popchk_outcome(
    z: Zicfiss,
    ctx: Context,
    enabled: bool,
    reg: Option<usize>,
) -> ZicfissOutcome {
    if !enabled {
        ZicfissOutcome::Handled
    } else {
        match reg {
            Some(r) => if r >= 32 {
                ZicfissOutcome::Fatal
            } else if !z.spec_can_pop() {
                ZicfissOutcome::Fatal
            } else if spec_pop_value(z) == ctx.reg(r as int) {
                ZicfissOutcome::Handled
            } else {
                ZicfissOutcome::SoftwareCheck
            },
            None => ZicfissOutcome::Fatal,
        }
    }
}


/// The value a `senvcfg` access effectively writes: the named register for
/// the register forms, the immediate for the immediate forms; `None` when
/// the needed field is absent.
pub open spec fn spec_senvcfg_write_val(ctx: Context, ci: ZicsrInst) -> Option<u64> {
    match ci.op {
        ZicsrOp::Csrrw | ZicsrOp::Csrrs | ZicsrOp::Csrrc => match ci.rs1 {
            Some(r) => if r < 32 {
                Some(ctx.reg(r as int))
            } else {
                None
            },
            None => None,
        },
        _ => match ci.uimm {
            Some(u) => if u >= 0 {
                Some(u as u64)
            } else {
                None
            },
            None => None,
        },
    }
}

/// The outcome emulating an `ssp` CSR access settles on.
pub open spec fn spec_csr_outcome(inst: ZicsrInst) -> ZicfissOutcome {
    if inst.csr != Some(CSR_SSP) {
        ZicfissOutcome::Fatal
    } else {
        match inst.rd {
            None => ZicfissOutcome::Fatal,
            Some(rd) => if rd >= 32 {
                ZicfissOutcome::Fatal
            } else {
                match inst.op {
                    ZicsrOp::Csrrw | ZicsrOp::Csrrs | ZicsrOp::Csrrc => match inst.rs1 {
                        Some(r) => if r < 32 {
                            ZicfissOutcome::Handled
                        } else {
                            ZicfissOutcome::Fatal
                        },
                        None => ZicfissOutcome::Fatal,
                    },
                    _ => match inst.uimm {
                        Some(u) => if u >= 0 {
                            ZicfissOutcome::Handled
                        } else {
                            ZicfissOutcome::Fatal
                        },
                        None => ZicfissOutcome::Fatal,
                    },
                }
            },
        }
    }
}

/// The `ssp` value a CSR access leaves behind when it is handled.
pub open spec fn spec_csr_new_ssp(z: Zicfiss, ctx: Context, inst: ZicsrInst) -> u64 {
    match inst.op {
        ZicsrOp::Csrrw => ctx.reg(inst.rs1->Some_0 as int),
        ZicsrOp::Csrrs => z.ssp | ctx.reg(inst.rs1->Some_0 as int),
        ZicsrOp::Csrrc => z.ssp & !ctx.reg(inst.rs1->Some_0 as int),
        ZicsrOp::Csrrwi => inst.uimm->Some_0 as u64,
        ZicsrOp::Csrrsi => z.ssp | (inst.uimm->Some_0 as u64),
        ZicsrOp::Csrrci => z.ssp & !(inst.uimm->Some_0 as u64),
    }
}

impl Zicfiss {
    /// The backing region stays addressable: no overflow past the address
    /// space.
    pub open spec fn wf(self) -> bool {
        self.stack_base + 8 * self.stack@.len() <= u64::MAX
    }

    /// Fresh state: disabled, empty backing, `ssp` zero.
    pub fn new() -> (r: Zicfiss)
        ensures
            r.wf(),
            r.ssp == 0,
            !r.henv_sse,
            !r.senv_sse,
            r.stack_base == 0,
            r.stack@.len() == 0,
    {
        Zicfiss { ssp: 0, henv_sse: false, senv_sse: false, stack_base: 0, stack: Vec::new() }
    }

    /// Hand the emulation its backing region.
    pub fn set_shadow_stack(&mut self, base: u64, words: Vec<u64>)
        requires
            base + 8 * words@.len() <= u64::MAX,
        ensures
            final(self).wf(),
            final(self).stack_base == base,
            final(self).stack == words,
            final(self).ssp == old(self).ssp,
            final(self).henv_sse == old(self).henv_sse,
            final(self).senv_sse == old(self).senv_sse,
    {
        self.stack_base = base;
        self.stack = words;
    }

    /// Whether the shadow stack is on for the privilege level `sstatus.SPP`
    /// names: `senvcfg.SSE` rules VU-mode, `henvcfg.SSE` rules VS-mode.
    pub open spec fn spec_is_ss_enable(self, sstatus: u64) -> bool {
        if (sstatus / 256) % 2 == 0 {
            self.senv_sse
        } else {
            self.henv_sse
        }
    }

    pub fn is_ss_enable(&self, sstatus: u64) -> (r: bool)
        ensures
            r == self.spec_is_ss_enable(sstatus),
    {
        let spp = (sstatus / 256) % 2;
        if spp == 0 {
            self.senv_sse
        } else {
            self.henv_sse
        }
    }

    /// The decremented pointer of a push lands inside the backing region.
    pub open spec fn spec_can_push(self) -> bool {
        &&& self.ssp >= 8
        &&& self.stack_base <= self.ssp - 8
        &&& self.ssp - 8 < self.stack_base + 8 * self.stack@.len()
        &&& (self.ssp - 8 - self.stack_base) % 8 == 0
    }

    /// The pointer of a pop reads inside the backing region.
    pub open spec fn spec_can_pop(self) -> bool {
        &&& self.stack_base <= self.ssp
        &&& self.ssp < self.stack_base + 8 * self.stack@.len()
        &&& (self.ssp - self.stack_base) % 8 == 0
        &&& self.ssp + 8 <= u64::MAX
    }

    /// Push a value: decrement `ssp` by 8, then store through it.
    pub fn ss_push(&mut self, value: u64) -> (r: Result<(), ()>)
        requires
            old(self).wf(),
        ensures
            final(self).wf(),
            old(self).spec_can_push() ==> r is Ok && final(self).ssp == old(self).ssp - 8
                && final(self).stack@ == old(self).stack@.update(
                (old(self).ssp - 8 - old(self).stack_base) / 8,
                value,
            ),
            !old(self).spec_can_push() ==> r is Err && *final(self) == *old(self),
            final(self).stack_base == old(self).stack_base,
            final(self).henv_sse == old(self).henv_sse,
            final(self).senv_sse == old(self).senv_sse,
    {
        if self.ssp < 8 {
            return Err(());
        }
        let p = self.ssp - 8;
        if p < self.stack_base {
            return Err(());
        }
        let off = p - self.stack_base;
        if off % 8 != 0 {
            return Err(());
        }
        if off / 8 >= self.stack.len() as u64 {
            return Err(());
        }
        let idx = (off / 8) as usize;
        proof {
            assert(p < self.stack_base + 8 * self.stack@.len()) by (nonlinear_arith)
                requires
                    off == p - self.stack_base,
                    off / 8 < self.stack@.len(),
                    off % 8 == 0,
                    p >= self.stack_base,
            ;
        }
        self.stack[idx] = value;
        self.ssp = p;
        Ok(())
    }

    /// Pop a value: read through `ssp`, then increment it by 8.
    pub fn ss_pop(&mut self) -> (r: Result<u64, ()>)
        requires
            old(self).wf(),
        ensures
            final(self).wf(),
            old(self).spec_can_pop() ==> r == Ok::<u64, ()>(
                old(self).stack@[((old(self).ssp - old(self).stack_base) / 8) as int],
            ) && final(self).ssp == old(self).ssp + 8,
            !old(self).spec_can_pop() ==> r is Err && *final(self) == *old(self),
            final(self).stack == old(self).stack,
            final(self).stack_base == old(self).stack_base,
            final(self).henv_sse == old(self).henv_sse,
            final(self).senv_sse == old(self).senv_sse,
    {
        if self.ssp < self.stack_base {
            return Err(());
        }
        let off = self.ssp - self.stack_base;
        if off % 8 != 0 {
            return Err(());
        }
        if off / 8 >= self.stack.len() as u64 {
            return Err(());
        }
        let idx = (off / 8) as usize;
        proof {
            assert(self.ssp + 8 <= self.stack_base + 8 * self.stack@.len()) by (nonlinear_arith)
                requires
                    off == self.ssp - self.stack_base,
                    off / 8 < self.stack@.len(),
                    off % 8 == 0,
                    self.ssp >= self.stack_base,
            ;
        }
        let value = self.stack[idx];
        self.ssp = self.ssp + 8;
        Ok(value)
    }

    /// Emulate one Zicfiss instruction against the guest context.
    pub fn instruction(&mut self, inst: &ZicfissInst, ctx: &mut Context) -> (r: ZicfissOutcome)
        requires
            old(self).wf(),
            old(ctx).wf(),
        ensures
            final(self).wf(),
            final(ctx).wf(),
            final(ctx).spec_sepc() == old(ctx).spec_sepc(),
            final(ctx).spec_sstatus() == old(ctx).spec_sstatus(),
            r == spec_insn_outcome(*old(self), *old(ctx), *inst),
            r == ZicfissOutcome::Fatal ==> *final(self) == *old(self) && *final(ctx) == *old(ctx),
            !old(self).spec_is_ss_enable(old(ctx).spec_sstatus()) && !(inst.op
                == ZicfissOp::SsamoswapW || inst.op == ZicfissOp::SsamoswapD) && !(inst.op
                == ZicfissOp::Ssrdp) ==> r == ZicfissOutcome::Handled && *final(self) == *old(self)
                && *final(ctx) == *old(ctx),
            // an enabled push stores the named register through the
            // decremented pointer
            ({
                let en = old(self).spec_is_ss_enable(old(ctx).spec_sstatus());
                let src = if inst.op == ZicfissOp::Sspush {
                    inst.rs2
                } else {
                    inst.rd
                };
                (inst.op == ZicfissOp::Sspush || inst.op == ZicfissOp::CSspush) && en && src
                    is Some && src->Some_0 < 32 && old(self).spec_can_push() ==> {
                    &&& r == ZicfissOutcome::Handled
                    &&& final(self).ssp == old(self).ssp - 8
                    &&& final(self).stack@ == old(self).stack@.update(
                        (old(self).ssp - 8 - old(self).stack_base) / 8,
                        old(ctx).reg(src->Some_0 as int),
                    )
                    &&& final(self).stack_base == old(self).stack_base
                    &&& final(self).senv_sse == old(self).senv_sse
                    &&& final(self).henv_sse == old(self).henv_sse
                    &&& *final(ctx) == *old(ctx)
                }
            }),
            // an enabled pop-and-check advances the pointer; the outcome says
            // whether the popped word matched the register
            ({
                let en = old(self).spec_is_ss_enable(old(ctx).spec_sstatus());
                let src = if inst.op == ZicfissOp::Sspopchk {
                    inst.rs1
                } else {
                    inst.rd
                };
                (inst.op == ZicfissOp::Sspopchk || inst.op == ZicfissOp::CSspopchk) && en && src
                    is Some && src->Some_0 < 32 && old(self).spec_can_pop() ==> {
                    &&& final(self).ssp == old(self).ssp + 8
                    &&& final(self).stack == old(self).stack
                    &&& final(self).stack_base == old(self).stack_base
                    &&& final(self).senv_sse == old(self).senv_sse
                    &&& final(self).henv_sse == old(self).henv_sse
                    &&& *final(ctx) == *old(ctx)
                    &&& (r == ZicfissOutcome::Handled <==> spec_pop_value(*old(self)) == old(
                        ctx,
                    ).reg(src->Some_0 as int))
                }
            }),
            // a pointer read delivers the pointer, or zero when disabled
            inst.op == ZicfissOp::Ssrdp && inst.rd is Some && inst.rd->Some_0 < 32 ==> {
                &&& r == ZicfissOutcome::Handled
                &&& *final(self) == *old(self)
                &&& (inst.rd->Some_0 != 0 ==> final(ctx).reg(inst.rd->Some_0 as int) == (if old(
                    self,
                ).spec_is_ss_enable(old(ctx).spec_sstatus()) {
                    old(self).ssp
                } else {
                    0u64
                }))
                &&& forall|k: int|
                    0 <= k < 32 && k != inst.rd->Some_0 ==> final(ctx).reg(k) == old(ctx).reg(k)
            },
    {
        let enabled = self.is_ss_enable(ctx.sstatus());
        match inst.op {
            ZicfissOp::Sspush => {
                if enabled {
                    let rs2 = match inst.rs2 {
                        Some(v) => v,
                        None => { return ZicfissOutcome::Fatal },
                    };
                    if rs2 >= 32 {
                        return ZicfissOutcome::Fatal;
                    }
                    let value = ctx.xreg(rs2);
                    match self.ss_push(value) {
                        Ok(()) => ZicfissOutcome::Handled,
                        Err(()) => ZicfissOutcome::Fatal,
                    }
                } else {
                    ZicfissOutcome::Handled
                }
            },
            ZicfissOp::CSspush => {
                if enabled {
                    let rd = match inst.rd {
                        Some(v) => v,
                        None => { return ZicfissOutcome::Fatal },
                    };
                    if rd >= 32 {
                        return ZicfissOutcome::Fatal;
                    }
                    let value = ctx.xreg(rd);
                    match self.ss_push(value) {
                        Ok(()) => ZicfissOutcome::Handled,
                        Err(()) => ZicfissOutcome::Fatal,
                    }
                } else {
                    ZicfissOutcome::Handled
                }
            },
            ZicfissOp::Sspopchk => {
                if enabled {
                    let rs1 = match inst.rs1 {
                        Some(v) => v,
                        None => { return ZicfissOutcome::Fatal },
                    };
                    if rs1 >= 32 {
                        return ZicfissOutcome::Fatal;
                    }
                    let expected = ctx.xreg(rs1);
                    match self.ss_pop() {
                        Ok(v) => {
                            if v == expected {
                                ZicfissOutcome::Handled
                            } else {
                                ZicfissOutcome::SoftwareCheck
                            }
                        },
                        Err(()) => ZicfissOutcome::Fatal,
                    }
                } else {
                    ZicfissOutcome::Handled
                }
            },
            ZicfissOp::CSspopchk => {
                if enabled {
                    let rd = match inst.rd {
                        Some(v) => v,
                        None => { return ZicfissOutcome::Fatal },
                    };
                    if rd >= 32 {
                        return ZicfissOutcome::Fatal;
                    }
                    let expected = ctx.xreg(rd);
                    match self.ss_pop() {
                        Ok(v) => {
                            if v == expected {
                                ZicfissOutcome::Handled
                            } else {
                                ZicfissOutcome::SoftwareCheck
                            }
                        },
                        Err(()) => ZicfissOutcome::Fatal,
                    }
                } else {
                    ZicfissOutcome::Handled
                }
            },
            ZicfissOp::Ssrdp => {
                let rd = match inst.rd {
                    Some(v) => v,
                    None => { return ZicfissOutcome::Fatal },
                };
                if rd >= 32 {
                    return ZicfissOutcome::Fatal;
                }
                if enabled {
                    ctx.set_xreg(rd, self.ssp);
                } else {
                    ctx.set_xreg(rd, 0);
                }
                ZicfissOutcome::Handled
            },
            ZicfissOp::SsamoswapW => ZicfissOutcome::Fatal,
            ZicfissOp::SsamoswapD => ZicfissOutcome::Fatal,
        }
    }

    /// Emulate an access to the `ssp` CSR with the usual read-modify-write
    /// semantics.
    pub fn csr(&mut self, inst: &ZicsrInst, ctx: &mut Context) -> (r: ZicfissOutcome)
        requires
            old(self).wf(),
            old(ctx).wf(),
        ensures
            final(self).wf(),
            final(ctx).wf(),
            final(self).stack == old(self).stack,
            final(self).stack_base == old(self).stack_base,
            final(self).henv_sse == old(self).henv_sse,
            final(self).senv_sse == old(self).senv_sse,
            final(ctx).spec_sepc() == old(ctx).spec_sepc(),
            final(ctx).spec_sstatus() == old(ctx).spec_sstatus(),
            r == spec_csr_outcome(*inst),
            r == ZicfissOutcome::Fatal ==> *final(self) == *old(self) && *final(ctx) == *old(ctx),
            // a handled access reads the old pointer into rd and applies the
            // usual read-modify-write to it
            r == ZicfissOutcome::Handled ==> {
                let rd = inst.rd->Some_0;
                &&& (rd != 0 ==> final(ctx).reg(rd as int) == old(self).ssp)
                &&& forall|k: int| 0 <= k < 32 && k != rd ==> final(ctx).reg(k) == old(ctx).reg(k)
                &&& final(self).ssp == spec_csr_new_ssp(*old(self), *old(ctx), *inst)
            },
    {
        let csr_num = match inst.csr {
            Some(v) => v,
            None => { return ZicfissOutcome::Fatal },
        };
        if csr_num != CSR_SSP {
            // the original treats any other CSR here as unimplemented
            return ZicfissOutcome::Fatal;
        }
        let rd = match inst.rd {
            Some(v) => v,
            None => { return ZicfissOutcome::Fatal },
        };
        if rd >= 32 {
            return ZicfissOutcome::Fatal;
        }
        let old_ssp = self.ssp;
        match inst.op {
            ZicsrOp::Csrrw | ZicsrOp::Csrrs | ZicsrOp::Csrrc => {
                let rs1 = match inst.rs1 {
                    Some(v) => v,
                    None => { return ZicfissOutcome::Fatal },
                };
                if rs1 >= 32 {
                    return ZicfissOutcome::Fatal;
                }
                let rs1_val = ctx.xreg(rs1);
                ctx.set_xreg(rd, old_ssp);
                self.ssp = match inst.op {
                    ZicsrOp::Csrrw => rs1_val,
                    ZicsrOp::Csrrs => old_ssp | rs1_val,
                    _ => old_ssp & !rs1_val,
                };
                ZicfissOutcome::Handled
            },
            ZicsrOp::Csrrwi | ZicsrOp::Csrrsi | ZicsrOp::Csrrci => {
                let uimm = match inst.uimm {
                    Some(v) => v,
                    None => { return ZicfissOutcome::Fatal },
                };
                if uimm < 0 {
                    return ZicfissOutcome::Fatal;
                }
                let imm_val = uimm as u64;
                ctx.set_xreg(rd, old_ssp);
                self.ssp = match inst.op {
                    ZicsrOp::Csrrwi => imm_val,
                    ZicsrOp::Csrrsi => old_ssp | imm_val,
                    _ => old_ssp & !imm_val,
                };
                ZicfissOutcome::Handled
            },
        }
    }

    /// Emulate the virtualized `SSE` field of `senvcfg`: a read ORs the
    /// emulated bit into the returned value; a write steers the emulated
    /// state.  Any other CSR passes through untouched.
    pub fn csr_field(&mut self, inst: &ZicsrInst, write_to_csr_value: u64, read_csr_value: &mut u64)
        ensures
            final(self).ssp == old(self).ssp,
            final(self).henv_sse == old(self).henv_sse,
            final(self).stack == old(self).stack,
            final(self).stack_base == old(self).stack_base,
            inst.csr == Some(CSR_SENVCFG) ==> {
                &&& *final(read_csr_value) == (*old(read_csr_value) | (if old(self).senv_sse {
                    8u64
                } else {
                    0u64
                }))
                &&& final(self).senv_sse == (match inst.op {
                    ZicsrOp::Csrrw | ZicsrOp::Csrrwi => (write_to_csr_value / 8) % 2 == 1,
                    ZicsrOp::Csrrs | ZicsrOp::Csrrsi => old(self).senv_sse || (write_to_csr_value
                        / 8) % 2 == 1,
                    ZicsrOp::Csrrc | ZicsrOp::Csrrci => old(self).senv_sse && !((write_to_csr_value
                        / 8) % 2 == 1),
                })
            },
            inst.csr != Some(CSR_SENVCFG) ==> *final(self) == *old(self) && *final(read_csr_value)
                == *old(read_csr_value),
    {
        let csr_num = match inst.csr {
            Some(v) => v,
            None => { return ; },
        };
        if csr_num != CSR_SENVCFG {
            return ;
        }
        // overlay the emulated CSR field on the read value
        if self.senv_sse {
            *read_csr_value = *read_csr_value | 8;
        } else {
            *read_csr_value = *read_csr_value | 0;
        }
        // update the emulated CSR field with read-modify-write semantics
        let bit = (write_to_csr_value / 8) % 2 == 1;
        match inst.op {
            ZicsrOp::Csrrw | ZicsrOp::Csrrwi => {
                self.senv_sse = bit;
            },
            ZicsrOp::Csrrs | ZicsrOp::Csrrsi => {
                if bit {
                    self.senv_sse = true;
                }
            },
            ZicsrOp::Csrrc | ZicsrOp::Csrrci => {
                if bit {
                    self.senv_sse = false;
                }
            },
        }
    }
}

} // verus!
