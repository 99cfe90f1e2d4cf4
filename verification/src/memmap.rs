//! Address spaces and memory-map values consumed by the page-table engine.
//!
//! Four address spaces exist: guest-virtual, guest-physical, host-physical and
//! host-virtual.  Each gets a distinct nominal type so they cannot be mixed up.

use vstd::prelude::*;

verus! {

/// Guest virtual address: seen by VS-mode software.
#[derive(Clone, Copy, PartialEq, Eq, Structural, Debug)]
pub struct GuestVirtualAddress(pub u64);

/// Guest physical address: output of the VS-stage walk.
#[derive(Clone, Copy, PartialEq, Eq, Structural, Debug)]
pub struct GuestPhysicalAddress(pub u64);

/// Host physical address: output of the G-stage walk; real DRAM or MMIO.
#[derive(Clone, Copy, PartialEq, Eq, Structural, Debug)]
pub struct HostPhysicalAddress(pub u64);

impl GuestPhysicalAddress {
    /// Virtual page number of the given level.
    ///
    /// Level 2 covers bits 40:30 (11 bits: the Sv39x4 root is 4 nodes wide),
    /// level 1 bits 29:21 and level 0 bits 20:12.
    pub fn vpn(&self, index: usize) -> (r: usize)
        requires
            index <= 2,
        ensures
            index == 2 ==> r == (self.0 / 0x4000_0000) % 0x800,
            index == 1 ==> r == (self.0 / 0x20_0000) % 0x200,
            index == 0 ==> r == (self.0 / 0x1000) % 0x200,
    {
        if index == 2 {
            ((self.0 / 0x4000_0000) % 0x800) as usize
        } else if index == 1 {
            ((self.0 / 0x20_0000) % 0x200) as usize
        } else {
            ((self.0 / 0x1000) % 0x200) as usize
        }
    }
}

impl HostPhysicalAddress {
    /// Physical page number of the address.
    pub fn page_number(self) -> (r: u64)
        ensures
            r == self.0 / 4096,
    {
        self.0 / crate::constant::PAGE_SIZE
    }
}

/// A half-open range of addresses within one address space.
#[derive(Clone, Copy, PartialEq, Eq, Structural, Debug)]
pub struct AddressRange {
    pub start: u64,
    pub end: u64,
}

impl AddressRange {
    pub open spec fn spec_len(self) -> int {
        self.end - self.start
    }

    /// Whether the range is well formed and page aligned at both ends.
    pub open spec fn page_aligned(self) -> bool {
        &&& self.start <= self.end
        &&& self.start % 4096 == 0
        &&& self.end % 4096 == 0
    }

    pub open spec fn contains(self, a: u64) -> bool {
        self.start <= a < self.end
    }

    pub fn new(start: u64, end: u64) -> (r: AddressRange)
        ensures
            r.start == start,
            r.end == end,
    {
        AddressRange { start, end }
    }
}

/// Flags of a page-table entry.
///
/// The PTE holds them in bits 7:0, in the order listed here (`Valid` is bit 0,
/// `Dirty` bit 7).
#[derive(Clone, Copy, PartialEq, Eq, Structural, Debug)]
pub enum PteFlag {
    /// PTE is valid.
    Valid,
    /// PTE is readable.
    Read,
    /// PTE is writable.
    Write,
    /// PTE is executable.
    Exec,
    /// The page may only be accessed by U-mode software.
    User,
    /// Global mapping.
    Global,
    /// This page has been read, written or fetched.
    Accessed,
    /// This page has been written.
    Dirty,
}

impl PteFlag {
    /// The bit this flag occupies in a page-table entry.
    pub open spec fn spec_mask(self) -> u8 {
        match self {
            PteFlag::Valid => 0x01,
            PteFlag::Read => 0x02,
            PteFlag::Write => 0x04,
            PteFlag::Exec => 0x08,
            PteFlag::User => 0x10,
            PteFlag::Global => 0x20,
            PteFlag::Accessed => 0x40,
            PteFlag::Dirty => 0x80,
        }
    }

    pub fn mask(self) -> (r: u8)
        ensures
            r == self.spec_mask(),
    {
        match self {
            PteFlag::Valid => 0x01,
            PteFlag::Read => 0x02,
            PteFlag::Write => 0x04,
            PteFlag::Exec => 0x08,
            PteFlag::User => 0x10,
            PteFlag::Global => 0x20,
            PteFlag::Accessed => 0x40,
            PteFlag::Dirty => 0x80,
        }
    }
}

/// Combined bit mask of a sequence of flags.
pub open spec fn flags_mask(s: Seq<PteFlag>) -> u8
    decreases s.len(),
{
    if s.len() == 0 {
        0u8
    } else {
        (flags_mask(s.drop_last()) | s.last().spec_mask()) as u8
    }
}

/// A mapping request: a guest-physical range, the host-physical range it goes
/// to, and the flag set of every leaf entry produced for it.
///
/// The two ranges have equal length and both are page aligned.
#[derive(Clone, Copy, PartialEq, Eq, Structural, Debug)]
pub struct MemoryMap {
    /// Source range of the mapping.
    pub virt: AddressRange,
    /// Target range of the mapping.
    pub phys: AddressRange,
    /// Flag bits of the produced leaf entries.
    pub flags: u8,
}

impl MemoryMap {
    /// Well-formedness: equal-length page-aligned ranges, a flag set that marks
    /// the entry valid and a leaf (some of R/W/X set), and a host range whose
    /// page numbers fit the 44-bit PPN field.
    pub open spec fn wf(self) -> bool {
        &&& self.virt.page_aligned()
        &&& self.phys.page_aligned()
        &&& self.virt.spec_len() == self.phys.spec_len()
        &&& self.flags % 2 == 1
        &&& (self.flags / 2) % 8 != 0
        &&& self.phys.end <= 0x100_0000_0000_0000
    }

    /// The host page a guest page `a` inside `virt` is sent to.
    pub open spec fn target_ppn(self, a: u64) -> u64 {
        ((self.phys.start + (a - self.virt.start)) / 4096) as u64
    }

    pub fn new(virt: AddressRange, phys: AddressRange, flags: &[PteFlag]) -> (r: MemoryMap)
        ensures
            r.virt == virt,
            r.phys == phys,
            r.flags == flags_mask(flags@),
    {
        let mut mask: u8 = 0;
        let mut i: usize = 0;
        while i < flags.len()
            invariant
                i <= flags.len(),
                mask == flags_mask(flags@.take(i as int)),
            decreases flags.len() - i,
        {
            proof {
                assert(flags@.take(i + 1).drop_last() =~= flags@.take(i as int));
                assert(flags@.take(i + 1).last() == flags@[i as int]);
            }
            mask = mask | flags[i].mask();
            i += 1;
        }
        proof {
            assert(flags@.take(flags@.len() as int) =~= flags@);
        }
        MemoryMap { virt, phys, flags: mask }
    }
}


/// Folding one more flag into the mask.
pub proof fn lemma_flags_mask_push(s: Seq<PteFlag>, f: PteFlag)
    ensures
        flags_mask(s.push(f)) == (flags_mask(s) | f.spec_mask()) as u8,
{
    assert(s.push(f).drop_last() =~= s);
    assert(s.push(f).last() == f);
}

/// The identity map of an MMIO device region, with the flag set
/// `{D, A, W, R, U, V}` every pass-through device gets (MMIO regions are
/// always dirty and accessed; U is required by Sv39x4).
pub fn mmio_map(base: u64, size: u64) -> (r: MemoryMap)
    requires
        base + size <= u64::MAX,
    ensures
        r.virt == (AddressRange { start: base, end: (base + size) as u64 }),
        r.phys == r.virt,
        r.flags == 0xd7u8,
{
    let range = AddressRange { start: base, end: base + size };
    let mut fl: Vec<PteFlag> = Vec::new();
    fl.push(PteFlag::Dirty);
    fl.push(PteFlag::Accessed);
    fl.push(PteFlag::Write);
    fl.push(PteFlag::Read);
    fl.push(PteFlag::User);
    fl.push(PteFlag::Valid);
    let r = MemoryMap::new(range, range, fl.as_slice());
    proof {
        let e = Seq::<PteFlag>::empty();
        lemma_flags_mask_push(e, PteFlag::Dirty);
        lemma_flags_mask_push(e.push(PteFlag::Dirty), PteFlag::Accessed);
        lemma_flags_mask_push(e.push(PteFlag::Dirty).push(PteFlag::Accessed), PteFlag::Write);
        lemma_flags_mask_push(
            e.push(PteFlag::Dirty).push(PteFlag::Accessed).push(PteFlag::Write),
            PteFlag::Read,
        );
        lemma_flags_mask_push(
            e.push(PteFlag::Dirty).push(PteFlag::Accessed).push(PteFlag::Write).push(PteFlag::Read),
            PteFlag::User,
        );
        lemma_flags_mask_push(
            e.push(PteFlag::Dirty).push(PteFlag::Accessed).push(PteFlag::Write).push(
                PteFlag::Read,
            ).push(PteFlag::User),
            PteFlag::Valid,
        );
        assert(fl@ =~= e.push(PteFlag::Dirty).push(PteFlag::Accessed).push(PteFlag::Write).push(
            PteFlag::Read,
        ).push(PteFlag::User).push(PteFlag::Valid));
        assert(flags_mask(e) == 0) by {
            reveal_with_fuel(flags_mask, 2);
        }
        assert((0u8 | 0x80u8) == 0x80u8) by (bit_vector);
        assert((0x80u8 | 0x40u8) == 0xc0u8) by (bit_vector);
        assert((0xc0u8 | 0x04u8) == 0xc4u8) by (bit_vector);
        assert((0xc4u8 | 0x02u8) == 0xc6u8) by (bit_vector);
        assert((0xc6u8 | 0x10u8) == 0xd6u8) by (bit_vector);
        assert((0xd6u8 | 0x01u8) == 0xd7u8) by (bit_vector);
    }
    r
}

} // verus!
