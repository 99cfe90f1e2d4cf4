//! SBI server presented to the guest: Base, RFENCE and the experimental
//! feature-frontier extension.  Handlers compute an `(error, value)` pair
//! placed in `a0`/`a1`.

use vstd::prelude::*;

use crate::context::Context;

verus! {

/// Base extension id.
pub const EID_BASE: u64 = 0x10;

/// RFENCE extension id.
pub const EID_RFNC: u64 = 0x5246_4E43;

/// Feature-frontier extension id.
pub const EID_FWFT: u64 = 0x4657_4654;

/// SBI success code.
pub const SBI_SUCCESS: i64 = 0;

/// SBI "not supported" error code.
pub const SBI_ERR_NOT_SUPPORTED: i64 = -2;

/// SBI specification version reported to the guest.
pub const SBI_SPEC_VERSION: i64 = 1;

/// SBI implementation id reported to the guest.
pub const SBI_IMPL_ID: i64 = 0;

/// Return pair of an SBI call.
#[derive(Clone, Copy, PartialEq, Eq, Structural, Debug)]
pub struct SbiRet {
    pub error: i64,
    pub value: i64,
}

/// Machine-level CSR values the Base extension forwards to the guest.  The
/// caller reads them from the host.
#[derive(Clone, Copy, PartialEq, Eq, Structural, Debug)]
pub struct HostCsrs {
    pub mvendorid: u64,
    pub marchid: u64,
    pub mimpid: u64,
}

/// What the caller must execute on behalf of the guest after an SBI call.
#[derive(Clone, Copy, PartialEq, Eq, Structural, Debug)]
pub enum FenceAction {
    /// Nothing to execute.
    NoFence,
    /// Execute `hfence.vvma` for the guest.
    HfenceVvma,
}

/// Whether the extension id is one this server recognizes.
pub open spec fn spec_eid_known(eid: u64) -> bool {
    eid == EID_BASE || eid == EID_RFNC || eid == EID_FWFT
}

/// The Base extension's answer for a function id.
pub open spec fn spec_base_ret(func_id: u64, arg0: u64, host: HostCsrs) -> SbiRet {
    if func_id == 0 {
        SbiRet { error: SBI_SUCCESS, value: SBI_SPEC_VERSION }
    } else if func_id == 1 {
        SbiRet { error: SBI_SUCCESS, value: SBI_IMPL_ID }
    } else if func_id == 3 {
        SbiRet {
            error: SBI_SUCCESS,
            value: if spec_eid_known(arg0) {
                1
            } else {
                0
            },
        }
    } else if func_id == 4 {
        SbiRet { error: SBI_SUCCESS, value: host.mvendorid as i64 }
    } else if func_id == 5 {
        SbiRet { error: SBI_SUCCESS, value: host.marchid as i64 }
    } else if func_id == 6 {
        SbiRet { error: SBI_SUCCESS, value: host.mimpid as i64 }
    } else {
        SbiRet { error: SBI_ERR_NOT_SUPPORTED, value: 0 }
    }
}

/// The RFENCE extension's answer and the fence the caller must run.
pub open spec fn spec_rfnc_ret(func_id: u64) -> (SbiRet, FenceAction) {
    if func_id == 0 {
        // remote fence.i: nothing to do for a single-HART guest
        (SbiRet { error: SBI_SUCCESS, value: 0 }, FenceAction::NoFence)
    } else if func_id == 1 {
        // remote sfence.vma: run hfence.vvma on the guest's behalf
        (SbiRet { error: SBI_SUCCESS, value: 0 }, FenceAction::HfenceVvma)
    } else {
        (SbiRet { error: SBI_ERR_NOT_SUPPORTED, value: 0 }, FenceAction::NoFence)
    }
}

/// The full server's answer: `None` for an unknown extension (fatal).
pub open spec fn spec_sbi_result(eid: u64, func_id: u64, arg0: u64, host: HostCsrs) -> Option<
    (SbiRet, FenceAction),
> {
    if eid == EID_BASE {
        Some((spec_base_ret(func_id, arg0, host), FenceAction::NoFence))
    } else if eid == EID_RFNC {
        Some(spec_rfnc_ret(func_id))
    } else if eid == EID_FWFT {
        Some((SbiRet { error: SBI_ERR_NOT_SUPPORTED, value: 0 }, FenceAction::NoFence))
    } else {
        None
    }
}

/// Handler for the Base extension.
pub fn sbi_base_handler(func_id: u64, arg0: u64, host: HostCsrs) -> (r: SbiRet)
    ensures
        r == spec_base_ret(func_id, arg0, host),
{
    if func_id == 0 {
        SbiRet { error: SBI_SUCCESS, value: SBI_SPEC_VERSION }
    } else if func_id == 1 {
        SbiRet { error: SBI_SUCCESS, value: SBI_IMPL_ID }
    } else if func_id == 3 {
        let known = arg0 == EID_BASE || arg0 == EID_RFNC || arg0 == EID_FWFT;
        SbiRet {
            error: SBI_SUCCESS,
            value: if known {
                1
            } else {
                0
            },
        }
    } else if func_id == 4 {
        SbiRet { error: SBI_SUCCESS, value: host.mvendorid as i64 }
    } else if func_id == 5 {
        SbiRet { error: SBI_SUCCESS, value: host.marchid as i64 }
    } else if func_id == 6 {
        SbiRet { error: SBI_SUCCESS, value: host.mimpid as i64 }
    } else {
        SbiRet { error: SBI_ERR_NOT_SUPPORTED, value: 0 }
    }
}

/// Handler for the RFENCE extension.
pub fn sbi_rfnc_handler(func_id: u64) -> (r: (SbiRet, FenceAction))
    ensures
        r == spec_rfnc_ret(func_id),
{
    if func_id == 0 {
        (SbiRet { error: SBI_SUCCESS, value: 0 }, FenceAction::NoFence)
    } else if func_id == 1 {
        (SbiRet { error: SBI_SUCCESS, value: 0 }, FenceAction::HfenceVvma)
    } else {
        (SbiRet { error: SBI_ERR_NOT_SUPPORTED, value: 0 }, FenceAction::NoFence)
    }
}

/// Handler for the feature-frontier extension: present but unimplemented.
pub fn sbi_fwft_handler(func_id: u64) -> (r: SbiRet)
    ensures
        r == (SbiRet { error: SBI_ERR_NOT_SUPPORTED, value: 0 }),
{
    let _ = func_id;
    SbiRet { error: SBI_ERR_NOT_SUPPORTED, value: 0 }
}

/// An SBI call with an extension id this server does not know.  The original
/// policy treats it as fatal: the guest is fully trusted here, so divergence
/// surfaces loudly.
#[derive(Clone, Copy, PartialEq, Eq, Structural, Debug)]
pub struct UnknownSbiCall {
    pub eid: u64,
    pub func_id: u64,
}

/// Handler for an `ecall` from VS-mode: dispatch on `a7`/`a6`, place the
/// result in `a0`/`a1`.  The caller advances `sepc` and runs the fence.
pub fn sbi_vs_mode_handler(context: &mut Context, host: HostCsrs) -> (r: Result<
    FenceAction,
    UnknownSbiCall,
>)
    requires
        old(context).wf(),
    ensures
        final(context).wf(),
        match spec_sbi_result(
            old(context).reg(17),
            old(context).reg(16),
            old(context).reg(10),
            host,
        ) {
            Some((ret, fence)) => {
                &&& r == Ok::<FenceAction, UnknownSbiCall>(fence)
                &&& final(context).reg(10) == ret.error as u64
                &&& final(context).reg(11) == ret.value as u64
                &&& forall|k: int|
                    0 <= k < 32 && k != 10 && k != 11 ==> final(context).reg(k) == old(
                        context,
                    ).reg(k)
                &&& final(context).spec_sepc() == old(context).spec_sepc()
                &&& final(context).spec_sstatus() == old(context).spec_sstatus()
            },
            None => r == Err::<FenceAction, UnknownSbiCall>(
                UnknownSbiCall { eid: old(context).reg(17), func_id: old(context).reg(16) },
            ) && *final(context) == *old(context),
        },
{
    let eid = context.xreg(17);
    let func_id = context.xreg(16);
    let arg0 = context.xreg(10);
    let (sbiret, fence) = if eid == EID_BASE {
        (sbi_base_handler(func_id, arg0, host), FenceAction::NoFence)
    } else if eid == EID_RFNC {
        sbi_rfnc_handler(func_id)
    } else if eid == EID_FWFT {
        (sbi_fwft_handler(func_id), FenceAction::NoFence)
    } else {
        return Err(UnknownSbiCall { eid, func_id });
    };
    context.set_xreg(10, sbiret.error as u64);
    context.set_xreg(11, sbiret.value as u64);
    Ok(fence)
}

} // verus!
