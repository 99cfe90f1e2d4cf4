//! PLIC emulation: MMIO reads and writes against per-context interrupt
//! claim/complete state.
//!
//! Register map (standard PLIC layout, offsets from the device base):
//! `4*n` priority of source `n`; `0x1000` pending bitmap; `ENABLE_BASE +
//! ENABLE_PER_HART*ctx` enable bitmap; `CONTEXT_BASE + CONTEXT_PER_HART*ctx`
//! threshold, `+4` claim/complete.
//!
//! This emulation serves interrupt sources 1..=31 (one pending and one
//! enable word); priorities are held for sources 1..=127 as the layout asks.

use vstd::prelude::*;

use crate::memmap::AddressRange;
use crate::memmap::HostPhysicalAddress;
use crate::memmap::MemoryMap;

verus! {

/// Offset of the enable bitmaps.
pub const ENABLE_BASE: u64 = 0x2000;

/// Distance between the enable bitmaps of two contexts.
pub const ENABLE_PER_HART: u64 = 0x80;

/// Offset of the per-context threshold/claim registers.
pub const CONTEXT_BASE: u64 = 0x20_0000;

/// Distance between the register blocks of two contexts.
pub const CONTEXT_PER_HART: u64 = 0x1000;

/// Offset of the claim/complete register inside a context block.
pub const CONTEXT_CLAIM: u64 = 0x4;

/// Number of emulated contexts.
pub const MAX_CONTEXT_NUM: usize = 16;

/// Errors of device emulation, demoted by the dispatcher to a guest fault.
#[derive(Clone, Copy, PartialEq, Eq, Structural, Debug)]
pub enum DeviceEmulateError {
    /// The address lies outside the device or is misaligned.
    InvalidAddress,
    /// The address names a context this emulation does not hold.
    InvalidContextId,
    /// The address falls on a register hole.
    ReservedRegister,
}

/// Per-context claim/complete state.
#[derive(Clone, Copy, PartialEq, Eq, Structural, Debug)]
pub struct PlicContext {
    /// Enable bitmap of sources 0..=31.
    pub enabled: u32,
    /// Priority threshold.
    pub threshold: u32,
    /// The source claimed and not yet completed, 0 for none.
    pub claim: u32,
}

/// The PLIC device and its emulated state.
pub struct Plic {
    /// Device base address.
    pub base: HostPhysicalAddress,
    /// Device region size.
    pub size: u64,
    /// Priority of each source 0..=127 (source 0 is reserved).
    pub priorities: Vec<u32>,
    /// Pending bitmap of sources 0..=31.
    pub pending: u32,
    /// Per-context state.
    pub contexts: Vec<PlicContext>,
}

/// Whether bit `s` of `w` is set.
pub open spec fn bit_set(w: u32, s: u32) -> bool {
    w & (1u32 << s) != 0
}

/// Setting bit `i` by `or` sets it and moves no other bit.
pub proof fn lemma_bit_or(w: u32, i: u32, s: u32)
    by (bit_vector)
    requires
        i < 32,
        s < 32,
    ensures
        bit_set(w | (1u32 << i), s) == (bit_set(w, s) || s == i),
{
}

/// Clearing bit `i` by `and`-`not` clears it and moves no other bit.
proof fn lemma_bit_clear(w: u32, i: u32, s: u32)
    by (bit_vector)
    requires
        i < 32,
        s < 32,
    ensures
        bit_set(w & !(1u32 << i), s) == (bit_set(w, s) && s != i),
{
}

impl Plic {
    /// A fixed number of contexts and one priority slot per source.
    pub open spec fn wf(self) -> bool {
        &&& self.priorities@.len() == 128
        &&& self.contexts@.len() == MAX_CONTEXT_NUM
    }

    /// Create the emulated PLIC over the device region found at `base`.
    pub fn new(base: HostPhysicalAddress, size: u64) -> (r: Plic)
        ensures
            r.wf(),
            r.base == base,
            r.size == size,
            r.pending == 0u32,
            forall|s: int| 0 <= s < 128 ==> r.priorities@[s] == 0u32,
            forall|c: int|
                0 <= c < MAX_CONTEXT_NUM ==> r.contexts@[c] == (PlicContext {
                    enabled: 0u32,
                    threshold: 0u32,
                    claim: 0u32,
                }),
    {
        let mut priorities: Vec<u32> = Vec::new();
        let mut i: usize = 0;
        while i < 128
            invariant
                i <= 128,
                priorities@.len() == i,
                forall|s: int| 0 <= s < i ==> priorities@[s] == 0u32,
            decreases 128 - i,
        {
            priorities.push(0);
            i += 1;
        }
        let mut contexts: Vec<PlicContext> = Vec::new();
        let mut c: usize = 0;
        while c < MAX_CONTEXT_NUM
            invariant
                c <= MAX_CONTEXT_NUM,
                contexts@.len() == c,
                forall|k: int|
                    0 <= k < c ==> contexts@[k] == (PlicContext {
                        enabled: 0u32,
                        threshold: 0u32,
                        claim: 0u32,
                    }),
            decreases MAX_CONTEXT_NUM - c,
        {
            contexts.push(PlicContext { enabled: 0, threshold: 0, claim: 0 });
            c += 1;
        }
        Plic { base, size, priorities, pending: 0, contexts }
    }

    /// Size of the device's memory region.
    pub fn device_size(&self) -> (r: u64)
        ensures
            r == self.size,
    {
        self.size
    }

    /// Base of the device's memory region.
    pub fn paddr(&self) -> (r: HostPhysicalAddress)
        ensures
            r == self.base,
    {
        self.base
    }

    /// Identity memory map of the device region for the G-stage table, with
    /// the MMIO flag set `{D, A, W, R, U, V}`.
    pub fn memmap(&self) -> (r: MemoryMap)
        requires
            self.base.0 + self.size <= u64::MAX,
        ensures
            r.virt == (AddressRange { start: self.base.0, end: (self.base.0 + self.size) as u64 }),
            r.phys == r.virt,
            r.flags == 0xd7u8,
    {
        crate::memmap::mmio_map(self.base.0, self.size)
    }

    /// A source claimable by context `c`: pending, enabled, and of priority
    /// above zero.
    pub open spec fn candidate(self, c: int, s: u32) -> bool {
        &&& 1 <= s < 32
        &&& bit_set(self.pending, s)
        &&& bit_set(self.contexts@[c].enabled, s)
        &&& self.priorities@[s as int] >= 1
    }

    /// What a claim must return for context `c`: a candidate no other
    /// candidate beats — higher priority wins, a lower id breaks ties — or 0
    /// when none exists.
    pub open spec fn claim_ok(self, c: int, r: u32) -> bool {
        if exists|s: u32| self.candidate(c, s) {
            &&& self.candidate(c, r)
            &&& forall|s: u32|
                self.candidate(c, s) ==> self.priorities@[s as int] < self.priorities@[r as int]
                    || (self.priorities@[s as int] == self.priorities@[r as int] && r <= s)
        } else {
            r == 0
        }
    }

    /// Mark a source pending, as an incoming hardware interrupt does.
    pub fn inject_interrupt(&mut self, irq: u32) -> (r: Result<(), DeviceEmulateError>)
        requires
            old(self).wf(),
        ensures
            final(self).wf(),
            irq < 32 ==> r is Ok && (forall|s: u32|
                s < 32 ==> bit_set(final(self).pending, s) == (bit_set(old(self).pending, s) || s
                    == irq)),
            irq >= 32 ==> r == Err::<(), DeviceEmulateError>(DeviceEmulateError::InvalidAddress)
                && *final(self) == *old(self),
            final(self).priorities == old(self).priorities,
            final(self).contexts == old(self).contexts,
            final(self).base == old(self).base,
            final(self).size == old(self).size,
    {
        if irq >= 32 {
            return Err(DeviceEmulateError::InvalidAddress);
        }
        let ghost w = self.pending;
        let p = self.pending | (1u32 << irq);
        proof {
            assert forall|s: u32| s < 32 implies bit_set(p, s) == (bit_set(w, s) || s == irq) by {
                lemma_bit_or(w, irq, s);
            }
        }
        self.pending = p;
        Ok(())
    }

    /// Serve a read of the claim register: pick the best candidate, clear its
    /// pending bit, and record it as the current claim.
    fn claim(&mut self, ctx: usize) -> (r: u32)
        requires
            old(self).wf(),
            ctx < MAX_CONTEXT_NUM,
        ensures
            final(self).wf(),
            old(self).claim_ok(ctx as int, r),
            final(self).priorities == old(self).priorities,
            final(self).base == old(self).base,
            final(self).size == old(self).size,
            r == 0 ==> *final(self) == *old(self),
            r != 0 ==> {
                &&& forall|s: u32|
                    s < 32 ==> bit_set(final(self).pending, s) == (bit_set(old(self).pending, s)
                        && s != r)
                &&& final(self).contexts@ == old(self).contexts@.update(
                    ctx as int,
                    PlicContext {
                        enabled: old(self).contexts@[ctx as int].enabled,
                        threshold: old(self).contexts@[ctx as int].threshold,
                        claim: r,
                    },
                )
            },
    {
        let enabled = self.contexts[ctx].enabled;
        let mut best: u32 = 0;
        let mut s: u32 = 1;
        while s < 32
            invariant
                self.wf(),
                *self == *old(self),
                ctx < MAX_CONTEXT_NUM,
                1 <= s <= 32,
                best < 32,
                enabled == self.contexts@[ctx as int].enabled,
                best == 0 ==> forall|t: u32| t < s ==> !self.candidate(ctx as int, t),
                best != 0 ==> self.candidate(ctx as int, best) && best < s && forall|t: u32|
                    t < s && self.candidate(ctx as int, t)
                        ==> self.priorities@[t as int] < self.priorities@[best as int] || (
                    self.priorities@[t as int] == self.priorities@[best as int] && best <= t),
            decreases 32 - s,
        {
            let mask = 1u32 << s;
            let is_candidate = (self.pending & mask != 0) && (enabled & mask != 0)
                && self.priorities[s as usize] >= 1;
            if is_candidate && (best == 0 || self.priorities[s as usize]
                > self.priorities[best as usize]) {
                best = s;
            }
            s += 1;
        }
        if best != 0 {
            let ghost w = self.pending;
            let p = self.pending & !(1u32 << best);
            proof {
                assert forall|t: u32| t < 32 implies bit_set(p, t) == (bit_set(w, t) && t
                    != best) by {
                    lemma_bit_clear(w, best, t);
                }
            }
            self.pending = p;
            let old_ctx = self.contexts[ctx];
            self.contexts[ctx] =
            PlicContext { enabled: old_ctx.enabled, threshold: old_ctx.threshold, claim: best };
        }
        best
    }

    /// Serve a write of the claim/complete register: completing the current
    /// claim clears it; any other value changes nothing.
    fn complete(&mut self, ctx: usize, value: u32)
        requires
            old(self).wf(),
            ctx < MAX_CONTEXT_NUM,
        ensures
            final(self).wf(),
            final(self).priorities == old(self).priorities,
            final(self).pending == old(self).pending,
            final(self).base == old(self).base,
            final(self).size == old(self).size,
            value == old(self).contexts@[ctx as int].claim ==> final(self).contexts@ == old(
                self,
            ).contexts@.update(
                ctx as int,
                PlicContext {
                    enabled: old(self).contexts@[ctx as int].enabled,
                    threshold: old(self).contexts@[ctx as int].threshold,
                    claim: 0u32,
                },
            ),
            value != old(self).contexts@[ctx as int].claim ==> *final(self) == *old(self),
    {
        let old_ctx = self.contexts[ctx];
        if value == old_ctx.claim {
            self.contexts[ctx] =
            PlicContext { enabled: old_ctx.enabled, threshold: old_ctx.threshold, claim: 0 };
        }
    }
}



impl Plic {
    /// The state a claim read with result `v` leaves behind for context `c`:
    /// `v` is the best candidate, its pending bit is cleared and it is
    /// recorded as the current claim; nothing else moves.
    pub open spec fn spec_claim_effect(pre: Plic, post: Plic, c: int, v: u32) -> bool {
        &&& pre.claim_ok(c, v)
        &&& (v == 0 ==> post == pre)
        &&& (v != 0 ==> {
            &&& forall|s: u32|
                s < 32 ==> bit_set(post.pending, s) == (bit_set(pre.pending, s) && s != v)
            &&& post.contexts@ == pre.contexts@.update(
                c,
                PlicContext {
                    enabled: pre.contexts@[c].enabled,
                    threshold: pre.contexts@[c].threshold,
                    claim: v,
                },
            )
            &&& post.priorities == pre.priorities
            &&& post.base == pre.base
            &&& post.size == pre.size
        })
    }

    /// The state a handled register write leaves behind: the addressed
    /// priority, enable or threshold register stores the value, or a
    /// matching complete clears the current claim.
    pub open spec fn spec_write_effect(
        pre: Plic,
        post: Plic,
        addr: HostPhysicalAddress,
        value: u32,
    ) -> bool {
        let off = addr.0 - pre.base.0;
        &&& post.base == pre.base
        &&& post.size == pre.size
        &&& post.pending == pre.pending
        &&& if off < 0x1000 {
            &&& post.priorities@ == pre.priorities@.update(off / 4, value)
            &&& post.contexts == pre.contexts
        } else if off < CONTEXT_BASE {
            let c = (off - ENABLE_BASE) / (ENABLE_PER_HART as int);
            &&& post.priorities == pre.priorities
            &&& post.contexts@ == pre.contexts@.update(
                c,
                PlicContext {
                    enabled: value,
                    threshold: pre.contexts@[c].threshold,
                    claim: pre.contexts@[c].claim,
                },
            )
        } else {
            let c = (off - CONTEXT_BASE) / (CONTEXT_PER_HART as int);
            &&& post.priorities == pre.priorities
            &&& ((off - CONTEXT_BASE) % (CONTEXT_PER_HART as int) == 0 ==> post.contexts@
                == pre.contexts@.update(
                c,
                PlicContext {
                    enabled: pre.contexts@[c].enabled,
                    threshold: value,
                    claim: pre.contexts@[c].claim,
                },
            ))
            &&& ((off - CONTEXT_BASE) % (CONTEXT_PER_HART as int) != 0 ==> (if value
                == pre.contexts@[c].claim {
                post.contexts@ == pre.contexts@.update(
                    c,
                    PlicContext {
                        enabled: pre.contexts@[c].enabled,
                        threshold: pre.contexts@[c].threshold,
                        claim: 0u32,
                    },
                )
            } else {
                post.contexts == pre.contexts
            }))
        }
    }
}

impl Plic {
    /// Decoded meaning of an offset into the device region.
    pub open spec fn spec_read_result(self, addr: HostPhysicalAddress) -> Result<
        u32,
        DeviceEmulateError,
    > {
        let off = addr.0 - self.base.0;
        if addr.0 < self.base.0 || addr.0 >= self.base.0 + self.size {
            Err(DeviceEmulateError::InvalidAddress)
        } else if off % 4 != 0 {
            Err(DeviceEmulateError::InvalidAddress)
        } else if off < 0x1000 {
            if off / 4 == 0 || off / 4 >= 128 {
                Err(DeviceEmulateError::ReservedRegister)
            } else {
                Ok(self.priorities@[off / 4])
            }
        } else if off < ENABLE_BASE {
            if off == 0x1000 {
                Ok(self.pending)
            } else {
                Err(DeviceEmulateError::ReservedRegister)
            }
        } else if off < CONTEXT_BASE {
            let c = (off - ENABLE_BASE) / (ENABLE_PER_HART as int);
            let word = ((off - ENABLE_BASE) % (ENABLE_PER_HART as int)) / 4;
            if c >= MAX_CONTEXT_NUM {
                Err(DeviceEmulateError::InvalidContextId)
            } else if word != 0 {
                Err(DeviceEmulateError::ReservedRegister)
            } else {
                Ok(self.contexts@[c].enabled)
            }
        } else {
            let c = (off - CONTEXT_BASE) / (CONTEXT_PER_HART as int);
            let reg = (off - CONTEXT_BASE) % (CONTEXT_PER_HART as int);
            if c >= MAX_CONTEXT_NUM {
                Err(DeviceEmulateError::InvalidContextId)
            } else if reg == 0 {
                Ok(self.contexts@[c].threshold)
            } else if reg == CONTEXT_CLAIM {
                // a claim read is handled apart: `spec_claim_effect` fixes
                // its value and state change; the 0 here is a placeholder
                // this function's callers never rely on
                Ok(0)
            } else {
                Err(DeviceEmulateError::ReservedRegister)
            }
        }
    }

    /// Whether the address hits the claim/complete register; `spec_claim_ctx`
    /// is then the context it belongs to.
    pub open spec fn spec_is_claim(self, addr: HostPhysicalAddress) -> bool {
        &&& self.base.0 <= addr.0 < self.base.0 + self.size
        &&& (addr.0 - self.base.0) % 4 == 0
        &&& addr.0 - self.base.0 >= CONTEXT_BASE
        &&& (addr.0 - self.base.0 - CONTEXT_BASE) / (CONTEXT_PER_HART as int) < MAX_CONTEXT_NUM
        &&& (addr.0 - self.base.0 - CONTEXT_BASE) % (CONTEXT_PER_HART as int) == CONTEXT_CLAIM
    }

    /// The context a claim/complete access addresses.
    pub open spec fn spec_claim_ctx(self, addr: HostPhysicalAddress) -> int {
        (addr.0 - self.base.0 - CONTEXT_BASE) / (CONTEXT_PER_HART as int)
    }

    /// Emulate an MMIO read of the device region.
    ///
    /// A claim-register read performs the claim: it returns the best
    /// candidate, clears its pending bit and records it.  Every other
    /// readable register is returned as stored.
    pub fn emulate_read(&mut self, addr: HostPhysicalAddress) -> (r: Result<
        u32,
        DeviceEmulateError,
    >)
        requires
            old(self).wf(),
        ensures
            final(self).wf(),
            !old(self).spec_is_claim(addr) ==> r == old(self).spec_read_result(addr)
                && *final(self) == *old(self),
            old(self).spec_is_claim(addr) ==> (r matches Ok(v) ==> Self::spec_claim_effect(
                *old(self),
                *final(self),
                old(self).spec_claim_ctx(addr),
                v,
            )),
            old(self).spec_is_claim(addr) ==> r is Ok,
    {
        if addr.0 < self.base.0 {
            return Err(DeviceEmulateError::InvalidAddress);
        }
        let off = addr.0 - self.base.0;
        if off >= self.size {
            return Err(DeviceEmulateError::InvalidAddress);
        }
        if off % 4 != 0 {
            return Err(DeviceEmulateError::InvalidAddress);
        }
        if off < 0x1000 {
            let s = (off / 4) as usize;
            if s == 0 || s >= 128 {
                return Err(DeviceEmulateError::ReservedRegister);
            }
            return Ok(self.priorities[s]);
        }
        if off < ENABLE_BASE {
            if off == 0x1000 {
                return Ok(self.pending);
            }
            return Err(DeviceEmulateError::ReservedRegister);
        }
        if off < CONTEXT_BASE {
            let c64 = (off - ENABLE_BASE) / ENABLE_PER_HART;
            let word = ((off - ENABLE_BASE) % ENABLE_PER_HART) / 4;
            if c64 >= MAX_CONTEXT_NUM as u64 {
                return Err(DeviceEmulateError::InvalidContextId);
            }
            if word != 0 {
                return Err(DeviceEmulateError::ReservedRegister);
            }
            return Ok(self.contexts[c64 as usize].enabled);
        }
        let c64 = (off - CONTEXT_BASE) / CONTEXT_PER_HART;
        let reg = (off - CONTEXT_BASE) % CONTEXT_PER_HART;
        if c64 >= MAX_CONTEXT_NUM as u64 {
            return Err(DeviceEmulateError::InvalidContextId);
        }
        let c = c64 as usize;
        if reg == 0 {
            return Ok(self.contexts[c].threshold);
        }
        if reg == CONTEXT_CLAIM {
            return Ok(self.claim(c));
        }
        Err(DeviceEmulateError::ReservedRegister)
    }

    /// Decoded meaning of an offset for a write: which register it lands on.
    pub open spec fn spec_write_result(self, addr: HostPhysicalAddress) -> Result<
        (),
        DeviceEmulateError,
    > {
        let off = addr.0 - self.base.0;
        if addr.0 < self.base.0 || addr.0 >= self.base.0 + self.size {
            Err(DeviceEmulateError::InvalidAddress)
        } else if off % 4 != 0 {
            Err(DeviceEmulateError::InvalidAddress)
        } else if off < 0x1000 {
            if off / 4 == 0 || off / 4 >= 128 {
                Err(DeviceEmulateError::ReservedRegister)
            } else {
                Ok(())
            }
        } else if off < ENABLE_BASE {
            // the pending bitmap is read-only
            Err(DeviceEmulateError::ReservedRegister)
        } else if off < CONTEXT_BASE {
            let c = (off - ENABLE_BASE) / (ENABLE_PER_HART as int);
            let word = ((off - ENABLE_BASE) % (ENABLE_PER_HART as int)) / 4;
            if c >= MAX_CONTEXT_NUM {
                Err(DeviceEmulateError::InvalidContextId)
            } else if word != 0 {
                Err(DeviceEmulateError::ReservedRegister)
            } else {
                Ok(())
            }
        } else {
            let c = (off - CONTEXT_BASE) / (CONTEXT_PER_HART as int);
            let reg = (off - CONTEXT_BASE) % (CONTEXT_PER_HART as int);
            if c >= MAX_CONTEXT_NUM {
                Err(DeviceEmulateError::InvalidContextId)
            } else if reg == 0 || reg == CONTEXT_CLAIM {
                Ok(())
            } else {
                Err(DeviceEmulateError::ReservedRegister)
            }
        }
    }

    /// Emulate an MMIO write of the device region.
    ///
    /// Priority, enable and threshold registers store the value; a write to
    /// the claim/complete register completes the current claim.
    pub fn emulate_write(&mut self, addr: HostPhysicalAddress, value: u32) -> (r: Result<
        (),
        DeviceEmulateError,
    >)
        requires
            old(self).wf(),
        ensures
            final(self).wf(),
            r == old(self).spec_write_result(addr),
            r is Err ==> *final(self) == *old(self),
            r is Ok ==> Self::spec_write_effect(*old(self), *final(self), addr, value),
    {
        if addr.0 < self.base.0 {
            return Err(DeviceEmulateError::InvalidAddress);
        }
        let off = addr.0 - self.base.0;
        if off >= self.size {
            return Err(DeviceEmulateError::InvalidAddress);
        }
        if off % 4 != 0 {
            return Err(DeviceEmulateError::InvalidAddress);
        }
        if off < 0x1000 {
            let s = (off / 4) as usize;
            if s == 0 || s >= 128 {
                return Err(DeviceEmulateError::ReservedRegister);
            }
            self.priorities[s] = value;
            return Ok(());
        }
        if off < ENABLE_BASE {
            return Err(DeviceEmulateError::ReservedRegister);
        }
        if off < CONTEXT_BASE {
            let c64 = (off - ENABLE_BASE) / ENABLE_PER_HART;
            let word = ((off - ENABLE_BASE) % ENABLE_PER_HART) / 4;
            if c64 >= MAX_CONTEXT_NUM as u64 {
                return Err(DeviceEmulateError::InvalidContextId);
            }
            if word != 0 {
                return Err(DeviceEmulateError::ReservedRegister);
            }
            let c = c64 as usize;
            let old_ctx = self.contexts[c];
            self.contexts[c] =
            PlicContext { enabled: value, threshold: old_ctx.threshold, claim: old_ctx.claim };
            return Ok(());
        }
        let c64 = (off - CONTEXT_BASE) / CONTEXT_PER_HART;
        let reg = (off - CONTEXT_BASE) % CONTEXT_PER_HART;
        if c64 >= MAX_CONTEXT_NUM as u64 {
            return Err(DeviceEmulateError::InvalidContextId);
        }
        let c = c64 as usize;
        if reg == 0 {
            let old_ctx = self.contexts[c];
            self.contexts[c] =
            PlicContext { enabled: old_ctx.enabled, threshold: value, claim: old_ctx.claim };
            return Ok(());
        }
        if reg == CONTEXT_CLAIM {
            self.complete(c, value);
            return Ok(());
        }
        Err(DeviceEmulateError::ReservedRegister)
    }
}

} // verus!
