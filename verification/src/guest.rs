//! Guest data of each HART: its id, memory region, context and emulated
//! extension state, and the plans for loading its image.

use vstd::prelude::*;

use crate::constant::GUEST_DEVICE_TREE_OFFSET;
use crate::constant::HYPERVISOR_BASE_ADDR;
use crate::constant::STACK_OFFSET;
use crate::constant::STACK_SIZE_PER_HART;
use crate::context::Context;
use crate::elf_file::ElfSegment;
use crate::elf_file::PT_LOAD;
use crate::memmap::AddressRange;
use crate::memmap::MemoryMap;
use crate::page_table::generate_page_table;
use crate::page_table::map_target;
use crate::page_table::translate_addr;
use crate::page_table::translate_slot;
use crate::page_table::PageTable;
use crate::page_table::PageTableError;
use crate::zicfiss::Zicfiss;

verus! {

/// Guest information.
pub struct Guest {
    /// Guest id, one per HART.
    pub guest_id: usize,
    /// Allocated memory region.
    pub memory_region: AddressRange,
    /// Guest context data.
    pub context: Context,
    /// Per-HART Zicfiss emulation state.
    pub zicfiss: Zicfiss,
}

/// One copy the loader must perform: `len` bytes from `src_offset` inside
/// the image to host address `dst`.
#[derive(Clone, Copy, PartialEq, Eq, Structural, Debug)]
pub struct CopyRegion {
    pub src_offset: u64,
    pub dst: u64,
    pub len: u64,
}

/// Why a load plan could not be built.
#[derive(Clone, Copy, PartialEq, Eq, Structural, Debug)]
pub enum LoadError {
    /// The image has no program headers at all.
    NoSegments,
    /// A loadable segment lies below the first segment's address.
    SegmentBelowBase,
    /// A segment does not fit the address space.
    AddressOverflow,
}

/// Whether the segment is loaded: `PT_LOAD` with bytes in the file.
pub open spec fn loadable(s: ElfSegment) -> bool {
    s.p_type == PT_LOAD && s.p_filesz > 0
}

/// The copies a well-formed image asks for: each loadable segment lands at
/// the guest base plus its distance from the first segment's address.
pub open spec fn spec_load_plan(segs: Seq<ElfSegment>, first: u64, base: u64) -> Seq<CopyRegion>
    decreases segs.len(),
{
    if segs.len() == 0 {
        Seq::empty()
    } else {
        spec_load_plan(segs.drop_last(), first, base) + (if loadable(segs.last()) {
            seq![
                CopyRegion {
                    src_offset: segs.last().p_offset,
                    dst: (base + (segs.last().p_paddr - first)) as u64,
                    len: segs.last().p_filesz,
                },
            ]
        } else {
            Seq::empty()
        })
    }
}


/// The first error the load planner raises over the segments, in scan
/// order; `None` when every loadable segment is placeable.
pub open spec fn spec_load_err(segs: Seq<ElfSegment>, first: u64, base: u64) -> Option<LoadError>
    decreases segs.len(),
{
    if segs.len() == 0 {
        None
    } else {
        let pre = spec_load_err(segs.drop_last(), first, base);
        if pre is Some {
            pre
        } else if !loadable(segs.last()) {
            None
        } else if segs.last().p_paddr < first {
            Some(LoadError::SegmentBelowBase)
        } else if segs.last().p_paddr - first > u64::MAX - base {
            Some(LoadError::AddressOverflow)
        } else {
            None
        }
    }
}

/// A prefix's load error is the whole scan's error.
proof fn lemma_load_err_prefix(segs: Seq<ElfSegment>, first: u64, base: u64, i: int)
    requires
        0 <= i <= segs.len(),
        spec_load_err(segs.take(i), first, base) is Some,
    ensures
        spec_load_err(segs, first, base) == spec_load_err(segs.take(i), first, base),
    decreases segs.len(),
{
    if i < segs.len() {
        assert(segs.drop_last().take(i) =~= segs.take(i));
        lemma_load_err_prefix(segs.drop_last(), first, base, i);
    } else {
        assert(segs.take(i) =~= segs);
    }
}

impl Guest {
    pub open spec fn wf(self) -> bool {
        &&& self.context.wf()
        &&& self.zicfiss.wf()
    }

    pub fn new(hart_id: usize, memory_region: AddressRange) -> (r: Guest)
        ensures
            r.wf(),
            r.guest_id == hart_id,
            r.memory_region == memory_region,
            forall|k: int| 0 <= k < 32 ==> r.context.reg(k) == 0,
            r.context.spec_sepc() == 0,
            r.context.spec_sstatus() == 0,
            r.zicfiss.ssp == 0,
            !r.zicfiss.henv_sse,
            !r.zicfiss.senv_sse,
            r.zicfiss.stack@.len() == 0,
    {
        Guest {
            guest_id: hart_id,
            memory_region,
            context: Context::default(),
            zicfiss: Zicfiss::new(),
        }
    }

    /// Return HART (HARdware Thread) id.
    pub fn hart_id(&self) -> (r: usize)
        ensures
            r == self.guest_id,
    {
        self.guest_id
    }

    /// Return guest dram space start.
    pub fn dram_base(&self) -> (r: u64)
        ensures
            r == self.memory_region.start,
    {
        self.memory_region.start
    }

    /// Top of this HART's trap stack.
    pub fn stack_top(&self) -> (r: u64)
        requires
            self.guest_id < crate::constant::MAX_HART_NUM,
        ensures
            r == HYPERVISOR_BASE_ADDR + STACK_OFFSET + (self.guest_id + 1) * STACK_SIZE_PER_HART,
    {
        HYPERVISOR_BASE_ADDR + STACK_OFFSET + (self.guest_id as u64 + 1) * STACK_SIZE_PER_HART
    }

    /// Address the relocated device tree is copied to for this guest.
    pub fn guest_dtb_addr(&self) -> (r: u64)
        ensures
            r == HYPERVISOR_BASE_ADDR + GUEST_DEVICE_TREE_OFFSET,
    {
        HYPERVISOR_BASE_ADDR + GUEST_DEVICE_TREE_OFFSET
    }

    /// Plan the copies that load the image into guest memory.  Only
    /// `PT_LOAD` segments with file bytes are loaded; each lands at the
    /// guest base plus its distance from the first segment's address.
    pub fn load_guest_elf(&self, segments: &[ElfSegment]) -> (r: Result<Vec<CopyRegion>, LoadError>)
        ensures
            segments@.len() == 0 ==> r == Err::<Vec<CopyRegion>, LoadError>(LoadError::NoSegments),
            segments@.len() > 0 ==> match spec_load_err(
                segments@,
                segments@[0].p_paddr,
                self.memory_region.start,
            ) {
                Some(e) => r == Err::<Vec<CopyRegion>, LoadError>(e),
                None => r is Ok,
            },
            r matches Ok(v) ==> segments@.len() > 0 && v@ == spec_load_plan(
                segments@,
                segments@[0].p_paddr,
                self.memory_region.start,
            ),
    {
        if segments.len() == 0 {
            return Err(LoadError::NoSegments);
        }
        let first = segments[0].p_paddr;
        let base = self.memory_region.start;
        let mut plan: Vec<CopyRegion> = Vec::new();
        let mut i: usize = 0;
        while i < segments.len()
            invariant
                i <= segments@.len(),
                segments@.len() > 0,
                first == segments@[0].p_paddr,
                base == self.memory_region.start,
                plan@ == spec_load_plan(segments@.take(i as int), first, base),
                spec_load_err(segments@.take(i as int), first, base) is None,
            decreases segments@.len() - i,
        {
            let s = segments[i];
            if s.p_type == PT_LOAD && s.p_filesz > 0 {
                if s.p_paddr < first {
                    proof {
                        assert(segments@.take(i + 1).drop_last() =~= segments@.take(i as int));
                        assert(segments@.take(i + 1).last() == segments@[i as int]);
                        lemma_load_err_prefix(segments@, first, base, i + 1);
                    }
                    return Err(LoadError::SegmentBelowBase);
                }
                if s.p_paddr - first > u64::MAX - base {
                    proof {
                        assert(segments@.take(i + 1).drop_last() =~= segments@.take(i as int));
                        assert(segments@.take(i + 1).last() == segments@[i as int]);
                        lemma_load_err_prefix(segments@, first, base, i + 1);
                    }
                    return Err(LoadError::AddressOverflow);
                }
                let dst = base + (s.p_paddr - first);
                plan.push(CopyRegion { src_offset: s.p_offset, dst, len: s.p_filesz });
            }
            i += 1;
            proof {
                assert(segments@.take(i as int).drop_last() =~= segments@.take(i - 1));
                assert(segments@.take(i as int).last() == segments@[i - 1]);
            }
        }
        proof {
            assert(segments@.take(segments@.len() as int) =~= segments@);
        }
        Ok(plan)
    }
}


/// Why G-stage setup from an image failed.
#[derive(Clone, Copy, PartialEq, Eq, Structural, Debug)]
pub enum SetupError {
    /// A loadable segment carries a flag combination outside R/RX/RW/RWX.
    UnsupportedFlags,
    /// A segment's address or alignment is not page aligned.
    BadAlignment,
    /// A segment reaches past the 4 GiB identity window.
    SegmentTooHigh,
    /// Two loadable segments overlap with different extents or flags.
    OverlappingSegments,
    /// The page-table arena filled up.
    Table(PageTableError),
}

/// `size` rounded up to the next multiple of `align`.
pub open spec fn spec_align_up(size: int, align: int) -> int {
    ((size + align - 1) / align) * align
}

/// The leaf flags a loadable segment's access bits ask for: D and A always
/// set, U and V required by Sv39x4, R/W/X as the header says.
pub open spec fn seg_flags(p_flags: u32) -> u8 {
    if p_flags % 8 == 4 {
        0xd3u8
    } else if p_flags % 8 == 5 {
        0xdbu8
    } else if p_flags % 8 == 6 {
        0xd7u8
    } else if p_flags % 8 == 7 {
        0xdfu8
    } else {
        0u8
    }
}

/// The identity map a loadable segment asks for.
pub open spec fn seg_map(s: ElfSegment, base: u64) -> MemoryMap {
    MemoryMap {
        virt: AddressRange {
            start: (base + s.p_paddr) as u64,
            end: (base + s.p_paddr + spec_align_up(s.p_memsz as int, s.p_align as int)) as u64,
        },
        phys: AddressRange {
            start: (base + s.p_paddr) as u64,
            end: (base + s.p_paddr + spec_align_up(s.p_memsz as int, s.p_align as int)) as u64,
        },
        flags: seg_flags(s.p_flags),
    }
}

/// The identity maps of the loadable segments, in order.
pub open spec fn elf_maps(segs: Seq<ElfSegment>, base: u64) -> Seq<MemoryMap>
    decreases segs.len(),
{
    if segs.len() == 0 {
        Seq::empty()
    } else {
        elf_maps(segs.drop_last(), base) + (if loadable(segs.last()) {
            seq![seg_map(segs.last(), base)]
        } else {
            Seq::empty()
        })
    }
}

/// The highest end of any loadable segment's region.
pub open spec fn spec_last_end(segs: Seq<ElfSegment>, base: u64) -> int
    decreases segs.len(),
{
    if segs.len() == 0 {
        0
    } else {
        let prev = spec_last_end(segs.drop_last(), base);
        if loadable(segs.last()) && seg_map(segs.last(), base).virt.end > prev {
            seg_map(segs.last(), base).virt.end as int
        } else {
            prev
        }
    }
}

/// The catch-all identity tail from the last segment's end up to 4 GiB,
/// with full access.  The window's end is the page-aligned 4 GiB boundary,
/// the smallest aligned superset of the historical `0xffff_ffff` bound,
/// which a page-aligned map cannot end on.
pub open spec fn tail_map(segs: Seq<ElfSegment>, base: u64) -> MemoryMap {
    MemoryMap {
        virt: AddressRange { start: spec_last_end(segs, base) as u64, end: 0x1_0000_0000u64 },
        phys: AddressRange { start: spec_last_end(segs, base) as u64, end: 0x1_0000_0000u64 },
        flags: 0xdfu8,
    }
}

/// Every map G-stage setup installs: the segment maps plus the tail.
pub open spec fn spec_setup_maps(segs: Seq<ElfSegment>, base: u64) -> Seq<MemoryMap> {
    elf_maps(segs, base) + seq![tail_map(segs, base)]
}


/// Whether two maps overlap without being the same map.
pub open spec fn maps_conflict(m1: MemoryMap, m2: MemoryMap) -> bool {
    !(m1.virt.end <= m2.virt.start || m2.virt.end <= m1.virt.start || m1 == m2)
}

/// The error one loadable segment raises during setup, given the maps built
/// before it; `None` when it is accepted.  The checks mirror their order.
pub open spec fn spec_seg_err(s: ElfSegment, base: u64, prior: Seq<MemoryMap>) -> Option<
    SetupError,
> {
    if !(s.p_flags % 8 == 4 || s.p_flags % 8 == 5 || s.p_flags % 8 == 6 || s.p_flags % 8 == 7) {
        Some(SetupError::UnsupportedFlags)
    } else if s.p_align == 0 || s.p_align % 4096 != 0 {
        Some(SetupError::BadAlignment)
    } else if s.p_paddr % 4096 != 0 {
        Some(SetupError::BadAlignment)
    } else if s.p_memsz > u64::MAX - s.p_align + 1 {
        Some(SetupError::SegmentTooHigh)
    } else {
        let aligned = spec_align_up(s.p_memsz as int, s.p_align as int);
        if s.p_paddr >= 0x1_0000_0000 || base >= 0x1_0000_0000 || aligned >= 0x1_0000_0000 {
            Some(SetupError::SegmentTooHigh)
        } else if base + s.p_paddr >= 0x1_0000_0000 {
            Some(SetupError::SegmentTooHigh)
        } else if aligned > 0x1_0000_0000 - (base + s.p_paddr) {
            Some(SetupError::SegmentTooHigh)
        } else if exists|j: int|
            0 <= j < prior.len() && maps_conflict(#[trigger] prior[j], seg_map(s, base)) {
            Some(SetupError::OverlappingSegments)
        } else {
            None
        }
    }
}

/// The first error G-stage setup raises over the segments, in scan order;
/// `None` when every loadable segment is accepted.
pub open spec fn spec_setup_err(segs: Seq<ElfSegment>, base: u64) -> Option<SetupError>
    decreases segs.len(),
{
    if segs.len() == 0 {
        None
    } else {
        let pre = spec_setup_err(segs.drop_last(), base);
        if pre is Some {
            pre
        } else if !loadable(segs.last()) {
            None
        } else {
            spec_seg_err(segs.last(), base, elf_maps(segs.drop_last(), base))
        }
    }
}

/// A prefix's error is the whole scan's error.
proof fn lemma_setup_err_prefix(segs: Seq<ElfSegment>, base: u64, i: int)
    requires
        0 <= i <= segs.len(),
        spec_setup_err(segs.take(i), base) is Some,
    ensures
        spec_setup_err(segs, base) == spec_setup_err(segs.take(i), base),
    decreases segs.len(),
{
    if i < segs.len() {
        assert(segs.drop_last().take(i) =~= segs.take(i));
        lemma_setup_err_prefix(segs.drop_last(), base, i);
    } else {
        assert(segs.take(i) =~= segs);
    }
}

/// The first failing segment's error is the whole scan's error.
proof fn lemma_setup_err_at(segs: Seq<ElfSegment>, base: u64, i: int)
    requires
        0 <= i < segs.len(),
        spec_setup_err(segs.take(i), base) is None,
        loadable(segs[i]),
        spec_seg_err(segs[i], base, elf_maps(segs.take(i), base)) is Some,
    ensures
        spec_setup_err(segs, base) == spec_seg_err(segs[i], base, elf_maps(segs.take(i), base)),
{
    assert(segs.take(i + 1).drop_last() =~= segs.take(i));
    assert(segs.take(i + 1).last() == segs[i]);
    lemma_setup_err_prefix(segs, base, i + 1);
}

impl Guest {
    /// Create the G-stage page table from the image: every loadable segment
    /// gets an identity map at its flags, and the rest of the low 4 GiB an
    /// identity map with full access.
    pub fn setup_g_stage_page_table_from_elf(
        &self,
        segments: &[ElfSegment],
        pt: &mut PageTable,
    ) -> (r: Result<(), SetupError>)
        requires
            old(pt).wf(),
            old(pt).root_width == 2048,
            forall|v2: int, v1: int, v0: int|
                0 <= v2 < old(pt).root_width && 0 <= v1 < 512 && 0 <= v0 < 512 ==> translate_slot(
                    *old(pt),
                    v2,
                    v1,
                    v0,
                ) is None,
            self.memory_region.start % 4096 == 0,
        ensures
            final(pt).wf(),
            final(pt).root_width == old(pt).root_width,
            spec_setup_err(segments@, self.memory_region.start) matches Some(e) ==> r == Err::<
                (),
                SetupError,
            >(e) && *final(pt) == *old(pt),
            spec_setup_err(segments@, self.memory_region.start) is None ==> (r is Ok || (r
                matches Err(SetupError::Table(te)) && final(pt).nodes@.len() >= 0x10_0000)),
            r is Ok ==> forall|i: int, a: u64|
                0 <= i < spec_setup_maps(segments@, self.memory_region.start).len()
                    && #[trigger] spec_setup_maps(segments@, self.memory_region.start)[i].virt.contains(
                    a,
                ) && a % 4096 == 0 ==> translate_addr(*final(pt), a) == map_target(
                    spec_setup_maps(segments@, self.memory_region.start)[i],
                    a,
                ),
    {
        let base = self.memory_region.start;
        let ghost gsegs = segments@;
        let mut maps: Vec<MemoryMap> = Vec::new();
        let mut last_end: u64 = 0;
        let mut i: usize = 0;
        while i < segments.len()
            invariant
                *pt == *old(pt),
                old(pt).wf(),
                base == self.memory_region.start,
                base % 4096 == 0,
                gsegs == segments@,
                i <= gsegs.len(),
                maps@ == elf_maps(gsegs.take(i as int), base),
                spec_setup_err(gsegs.take(i as int), base) is None,
                last_end == spec_last_end(gsegs.take(i as int), base),
                last_end % 4096 == 0,
                last_end <= 0x1_0000_0000,
                forall|k: int|
                    0 <= k < maps@.len() ==> (#[trigger] maps@[k]).wf() && maps@[k].virt.end
                        <= last_end && maps@[k].phys == maps@[k].virt,
                forall|k1: int, k2: int|
                    0 <= k1 < maps@.len() && 0 <= k2 < maps@.len() && k1 != k2 ==> (
                    #[trigger] maps@[k1]).virt.end <= (#[trigger] maps@[k2]).virt.start
                        || maps@[k2].virt.end <= maps@[k1].virt.start || maps@[k1] == maps@[k2],
            decreases gsegs.len() - i,
        {
            let s = segments[i];
            if s.p_type == PT_LOAD && s.p_filesz > 0 {
                let fl: u8 = if s.p_flags % 8 == 4 {
                    0xd3
                } else if s.p_flags % 8 == 5 {
                    0xdb
                } else if s.p_flags % 8 == 6 {
                    0xd7
                } else if s.p_flags % 8 == 7 {
                    0xdf
                } else {
                    proof {
                        lemma_setup_err_at(gsegs, base, i as int);
                    }
                    return Err(SetupError::UnsupportedFlags);
                };
                if s.p_align == 0 || s.p_align % 4096 != 0 {
                    proof {
                        lemma_setup_err_at(gsegs, base, i as int);
                    }
                    return Err(SetupError::BadAlignment);
                }
                if s.p_paddr % 4096 != 0 {
                    proof {
                        lemma_setup_err_at(gsegs, base, i as int);
                    }
                    return Err(SetupError::BadAlignment);
                }
                if s.p_memsz > u64::MAX - s.p_align + 1 {
                    proof {
                        lemma_setup_err_at(gsegs, base, i as int);
                    }
                    return Err(SetupError::SegmentTooHigh);
                }
                proof {
                    assert(((s.p_memsz + s.p_align - 1) / (s.p_align as int)) * (s.p_align as int)
                        <= s.p_memsz + s.p_align - 1) by (nonlinear_arith)
                        requires
                            s.p_align > 0,
                            s.p_memsz >= 0,
                    ;
                }
                let aligned = ((s.p_memsz + (s.p_align - 1)) / s.p_align) * s.p_align;
                proof {
                    assert(aligned == spec_align_up(s.p_memsz as int, s.p_align as int));
                }
                if s.p_paddr >= 0x1_0000_0000 || base >= 0x1_0000_0000 || aligned
                    >= 0x1_0000_0000 {
                    proof {
                        lemma_setup_err_at(gsegs, base, i as int);
                    }
                    return Err(SetupError::SegmentTooHigh);
                }
                let start = base + s.p_paddr;
                if start >= 0x1_0000_0000 {
                    proof {
                        lemma_setup_err_at(gsegs, base, i as int);
                    }
                    return Err(SetupError::SegmentTooHigh);
                }
                if aligned > 0x1_0000_0000 - start {
                    proof {
                        lemma_setup_err_at(gsegs, base, i as int);
                    }
                    return Err(SetupError::SegmentTooHigh);
                }
                let end = start + aligned;
                let region = AddressRange { start, end };
                let m = MemoryMap { virt: region, phys: region, flags: fl };
                proof {
                    let al = s.p_align as int;
                    let q = (s.p_memsz + al - 1) / al;
                    vstd::arithmetic::div_mod::lemma_mod_multiples_basic(q, al);
                    assert(aligned == q * al);
                    let k = al / 4096;
                    vstd::arithmetic::div_mod::lemma_fundamental_div_mod(al, 4096);
                    assert(al == k * 4096) by (nonlinear_arith)
                        requires
                            al == 4096 * (al / 4096) + al % 4096,
                            al % 4096 == 0,
                            k == al / 4096,
                    ;
                    assert(q * al == (q * k) * 4096) by (nonlinear_arith)
                        requires
                            al == k * 4096,
                    ;
                    vstd::arithmetic::div_mod::lemma_mod_multiples_basic(q * k, 4096);
                    assert(aligned % 4096 == 0);
                    vstd::arithmetic::div_mod::lemma_add_mod_noop(base as int, s.p_paddr as int, 4096);
                    vstd::arithmetic::div_mod::lemma_add_mod_noop(
                        base + s.p_paddr,
                        aligned as int,
                        4096,
                    );
                    assert(m == seg_map(s, base));
                    assert(m.wf());
                }
                let mut k: usize = 0;
                let mlen = maps.len();
                while k < mlen
                    invariant
                        *pt == *old(pt),
                        old(pt).wf(),
                        k <= mlen,
                        mlen == maps@.len(),
                        gsegs == segments@,
                        base == self.memory_region.start,
                        i < gsegs.len(),
                        s == gsegs[i as int],
                        loadable(s),
                        maps@ == elf_maps(gsegs.take(i as int), base),
                        spec_setup_err(gsegs.take(i as int), base) is None,
                        m == seg_map(s, base),
                        spec_seg_err(s, base, Seq::<MemoryMap>::empty()) is None,
                        m.virt.start <= m.virt.end,
                        forall|j: int|
                            0 <= j < k ==> (#[trigger] maps@[j]).virt.end <= m.virt.start
                                || m.virt.end <= maps@[j].virt.start || maps@[j] == m,
                    decreases mlen - k,
                {
                    let prev = maps[k];
                    if !(prev.virt.end <= m.virt.start || m.virt.end <= prev.virt.start || (
                    prev.virt == m.virt && prev.phys == m.phys && prev.flags == m.flags)) {
                        proof {
                            assert(maps_conflict(
                                elf_maps(gsegs.take(i as int), base)[k as int],
                                seg_map(s, base),
                            ));
                            lemma_setup_err_at(gsegs, base, i as int);
                        }
                        return Err(SetupError::OverlappingSegments);
                    }
                    k += 1;
                }
                maps.push(m);
                if end > last_end {
                    last_end = end;
                }
            }
            i += 1;
            proof {
                assert(gsegs.take(i as int).drop_last() =~= gsegs.take(i - 1));
                assert(gsegs.take(i as int).last() == gsegs[i - 1]);
                if loadable(gsegs[i - 1]) {
                    assert(maps@ =~= elf_maps(gsegs.take(i - 1), base) + seq![
                        seg_map(gsegs[i - 1], base),
                    ]);
                    assert(spec_seg_err(gsegs[i - 1], base, elf_maps(gsegs.take(i - 1), base))
                        is None);
                }
                assert(spec_setup_err(gsegs.take(i as int), base) is None);
            }
        }
        proof {
            assert(gsegs.take(gsegs.len() as int) =~= gsegs);
        }
        let tail_region = AddressRange { start: last_end, end: 0x1_0000_0000 };
        let tail = MemoryMap { virt: tail_region, phys: tail_region, flags: 0xdf };
        maps.push(tail);
        proof {
            assert(tail == tail_map(gsegs, base));
            assert(maps@ =~= spec_setup_maps(gsegs, base));
            assert(tail.wf());
        }
        let ghost o = *pt;
        proof {
            assert forall|a: u64| a < o.space_size() implies translate_addr(o, a) is None by {
                assert(0 <= crate::page_table::vpn2(a) < o.root_width) by (nonlinear_arith)
                    requires
                        a < o.root_width as int * 0x4000_0000,
                ;
                assert(0 <= crate::page_table::vpn1(a) < 512 && 0 <= crate::page_table::vpn0(a)
                    < 512);
            }
        }
        proof {
            assert(spec_setup_err(gsegs, base) is None);
        }
        match generate_page_table(pt, maps.as_slice()) {
            Ok(()) => Ok(()),
            Err(e) => Err(SetupError::Table(e)),
        }
    }
}

} // verus!
