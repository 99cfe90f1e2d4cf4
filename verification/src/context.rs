//! Per-HART guest context: the 31 integer registers plus `sepc` and
//! `sstatus`, materialized on every VS to HS transition.

use vstd::prelude::*;

verus! {

/// Guest context frame.  Slot 0 stands for `x0` and always holds zero.
pub struct Context {
    /// Integer registers x0..x31.
    pub xreg: Vec<u64>,
    /// Guest program counter snapshot.
    pub sepc: u64,
    /// Guest status register snapshot.
    pub sstatus: u64,
}

impl Context {
    /// 32 register slots, with the hard-wired zero in slot 0.
    pub open spec fn wf(self) -> bool {
        &&& self.xreg@.len() == 32
        &&& self.xreg@[0] == 0
    }

    /// The value of register `i`.
    pub open spec fn reg(self, i: int) -> u64 {
        self.xreg@[i]
    }

    pub open spec fn spec_sepc(self) -> u64 {
        self.sepc
    }

    pub open spec fn spec_sstatus(self) -> u64 {
        self.sstatus
    }

    /// Read an integer register.
    pub fn xreg(&self, i: usize) -> (r: u64)
        requires
            self.wf(),
            i < 32,
        ensures
            r == self.reg(i as int),
    {
        self.xreg[i]
    }

    /// Write an integer register.  A write to x0 is dropped.
    pub fn set_xreg(&mut self, i: usize, v: u64)
        requires
            old(self).wf(),
            i < 32,
        ensures
            final(self).wf(),
            i == 0 ==> *final(self) == *old(self),
            i != 0 ==> final(self).reg(i as int) == v,
            forall|k: int| 0 <= k < 32 && k != i ==> final(self).reg(k) == old(self).reg(k),
            final(self).spec_sepc() == old(self).spec_sepc(),
            final(self).spec_sstatus() == old(self).spec_sstatus(),
    {
        if i != 0 {
            self.xreg[i] = v;
        }
    }

    pub fn sepc(&self) -> (r: u64)
        ensures
            r == self.spec_sepc(),
    {
        self.sepc
    }

    pub fn set_sepc(&mut self, v: u64)
        ensures
            final(self).spec_sepc() == v,
            final(self).spec_sstatus() == old(self).spec_sstatus(),
            forall|k: int| 0 <= k < 32 ==> final(self).reg(k) == old(self).reg(k),
            final(self).wf() == old(self).wf(),
    {
        self.sepc = v;
    }

    pub fn sstatus(&self) -> (r: u64)
        ensures
            r == self.spec_sstatus(),
    {
        self.sstatus
    }

    pub fn set_sstatus(&mut self, v: u64)
        ensures
            final(self).spec_sstatus() == v,
            final(self).spec_sepc() == old(self).spec_sepc(),
            forall|k: int| 0 <= k < 32 ==> final(self).reg(k) == old(self).reg(k),
            final(self).wf() == old(self).wf(),
    {
        self.sstatus = v;
    }
}

impl Default for Context {
    /// An all-zero context.
    fn default() -> (r: Context)
        ensures
            r.wf(),
            forall|k: int| 0 <= k < 32 ==> r.reg(k) == 0,
            r.spec_sepc() == 0,
            r.spec_sstatus() == 0,
    {
        let mut xreg: Vec<u64> = Vec::new();
        let mut i: usize = 0;
        while i < 32
            invariant
                i <= 32,
                xreg@.len() == i,
                forall|k: int| 0 <= k < i ==> xreg@[k] == 0,
            decreases 32 - i,
        {
            xreg.push(0);
            i += 1;
        }
        Context { xreg, sepc: 0, sstatus: 0 }
    }
}

} // verus!
