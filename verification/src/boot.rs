//! Boot-time computations: delegation masks, per-HART layout, the fixed
//! boot memory maps and the early page-table relocation.
//!
//! The CSR writes, fences and mode switches around these values are
//! machine-level and live outside the library.

use vstd::prelude::*;

use crate::constant::DRAM_SIZE_PER_GUEST;
use crate::constant::GUEST_DRAM_BASE;
use crate::constant::HYPERVISOR_BASE_ADDR;
use crate::constant::MAX_HART_NUM;
use crate::constant::PAGE_TABLE_OFFSET;
use crate::constant::PAGE_TABLE_OFFSET_PER_HART;
use crate::device::VirtIO;
use crate::memmap::AddressRange;
use crate::memmap::MemoryMap;
use crate::plic::bit_set;

verus! {

/// Bit `s` of the zero word is clear.
proof fn lemma_bit_zero(s: u32)
    by (bit_vector)
    requires
        s < 32,
    ensures
        !bit_set(0u32, s),
{
}

/// The exception delegation mask written to `hedeleg`: instruction address
/// misaligned (0), breakpoint (3), ecall from U or VU (8), instruction page
/// fault (12), load page fault (13) and store/AMO page fault (15).
pub fn hedeleg_value() -> (r: u64)
    ensures
        r == 1u64 + 8 + 0x100 + 0x1000 + 0x2000 + 0x8000,
{
    1 + 8 + 0x100 + 0x1000 + 0x2000 + 0x8000
}

/// The interrupt delegation mask written to `hideleg`: VS software (2),
/// VS timer (6) and VS external (10).
pub fn hideleg_value() -> (r: u64)
    ensures
        r == 4u64 + 0x40 + 0x400,
{
    4 + 0x40 + 0x400
}

/// The guest-physical DRAM region of one HART's guest.
pub fn guest_memory_range(hart_id: usize) -> (r: AddressRange)
    requires
        hart_id < MAX_HART_NUM,
    ensures
        r.start == GUEST_DRAM_BASE + hart_id * DRAM_SIZE_PER_GUEST,
        r.end == r.start + DRAM_SIZE_PER_GUEST,
{
    let start = GUEST_DRAM_BASE + (hart_id as u64) * DRAM_SIZE_PER_GUEST;
    AddressRange { start, end: start + DRAM_SIZE_PER_GUEST }
}

/// The host address of one HART's G-stage root table.
pub fn page_table_root(hart_id: usize) -> (r: u64)
    requires
        hart_id < MAX_HART_NUM,
    ensures
        r == HYPERVISOR_BASE_ADDR + PAGE_TABLE_OFFSET + hart_id * PAGE_TABLE_OFFSET_PER_HART,
{
    HYPERVISOR_BASE_ADDR + PAGE_TABLE_OFFSET + (hart_id as u64) * PAGE_TABLE_OFFSET_PER_HART
}

/// The PLIC enable mask of the first four virtio transports.
pub fn virtio_irq_mask(virtio: &[VirtIO]) -> (r: u32)
    requires
        forall|i: int| 0 <= i < virtio@.len() && i < 4 ==> (#[trigger] virtio@[i]).irq < 32,
    ensures
        forall|s: u32|
            s < 32 ==> bit_set(r, s) == exists|i: int|
                0 <= i < virtio@.len() && i < 4 && (#[trigger] virtio@[i]).irq == s,
{
    let mut mask: u32 = 0;
    proof {
        assert forall|s: u32| s < 32 implies !bit_set(0u32, s) by {
            lemma_bit_zero(s);
        }
    }
    let mut i: usize = 0;
    let n = if virtio.len() < 4 {
        virtio.len()
    } else {
        4
    };
    while i < n
        invariant
            n <= virtio@.len(),
            n <= 4,
            n >= 4 || n == virtio@.len(),
            i <= n,
            forall|k: int| 0 <= k < n ==> (#[trigger] virtio@[k]).irq < 32,
            forall|s: u32|
                s < 32 ==> bit_set(mask, s) == exists|k: int|
                    0 <= k < i && (#[trigger] virtio@[k]).irq == s,
        decreases n - i,
    {
        let irq = virtio[i].irq as u32;
        let ghost pre = mask;
        mask = mask | (1u32 << irq);
        proof {
            assert forall|s: u32| s < 32 implies bit_set(mask, s) == exists|k: int|
                0 <= k < i + 1 && (#[trigger] virtio@[k]).irq == s by {
                crate::plic::lemma_bit_or(pre, irq, s);
                if bit_set(mask, s) {
                    if s == irq {
                        assert(virtio@[i as int].irq == s);
                    }
                }
            }
        }
        i += 1;
    }
    mask
}

/// Relocate the upper half of a boot page-table node: entries 511..1024 get
/// the masked load offset added, pointing the high mappings at the moved
/// image.
pub fn relocate_page_table_entries(entries: &mut Vec<u64>, offset_masked: u64)
    requires
        old(entries)@.len() >= 1024,
        forall|k: int|
            511 <= k < 1024 ==> (#[trigger] old(entries)@[k]) + offset_masked <= u64::MAX,
    ensures
        final(entries)@.len() == old(entries)@.len(),
        forall|k: int|
            511 <= k < 1024 ==> final(entries)@[k] == (#[trigger] old(entries)@[k])
                + offset_masked,
        forall|k: int|
            0 <= k < old(entries)@.len() && !(511 <= k < 1024) ==> final(entries)@[k] == old(
                entries,
            )@[k],
{
    let mut idx: usize = 511;
    while idx < 1024
        invariant
            entries@.len() == old(entries)@.len() >= 1024,
            511 <= idx <= 1024,
            forall|k: int|
                511 <= k < 1024 ==> (#[trigger] old(entries)@[k]) + offset_masked <= u64::MAX,
            forall|k: int|
                511 <= k < idx ==> entries@[k] == (#[trigger] old(entries)@[k]) + offset_masked,
            forall|k: int|
                0 <= k < old(entries)@.len() && !(511 <= k < idx) ==> entries@[k] == old(
                    entries,
                )@[k],
        decreases 1024 - idx,
    {
        let v = entries[idx];
        entries[idx] = v + offset_masked;
        idx += 1;
    }
}

/// The masked offset the early boot adds to the upper page-table entries:
/// the 2 MiB-aligned load offset, shifted into the PPN[1] field.
pub fn boot_relocation_offset(offset_from_dram_base: u64) -> (r: u64)
    requires
        offset_from_dram_base < 0x1_0000_0000,
    ensures
        r == (offset_from_dram_base / 0x20_0000) * 0x8_0000,
{
    (offset_from_dram_base / 0x20_0000) * 0x8_0000
}


/// One identity or offset map entry as the boot tables hold it.
fn bmap(vs: u64, ve: u64, ps: u64, flags: u8) -> (r: MemoryMap)
    requires
        vs <= ve,
        ps + (ve - vs) <= u64::MAX,
    ensures
        r == (MemoryMap {
            virt: AddressRange { start: vs, end: ve },
            phys: AddressRange { start: ps, end: (ps + (ve - vs)) as u64 },
            flags,
        }),
{
    MemoryMap {
        virt: AddressRange { start: vs, end: ve },
        phys: AddressRange { start: ps, end: ps + (ve - vs) },
        flags,
    }
}

/// The fixed Sv39 memory map of the supervisor's own boot paging: UART and
/// device tree windows, the physical image, and the high-half image alias.
/// High linker addresses appear truncated to the 39-bit space Sv39 indexes.
///
/// Flag bytes: `0xc7` is `{D, A, W, R, V}`, `0xcb` is `{D, A, X, R, V}`.
pub fn sstart_boot_maps() -> (r: Vec<MemoryMap>)
    ensures
        r@.len() == 7,
        r@[0] == (MemoryMap {
            virt: AddressRange { start: 0x1000_0000, end: 0x1000_0100 },
            phys: AddressRange { start: 0x1000_0000, end: 0x1000_0100 },
            flags: 0xc7u8,
        }),
        r@[1].virt.start == 0xbfe0_0000 && r@[1].virt.end == 0xc000_0000 && r@[1].flags == 0xc7,
        r@[2].virt.start == 0x8000_0000 && r@[2].virt.end == 0x8020_0000 && r@[2].flags == 0xcb,
        r@[3].virt.start == 0x8020_0000 && r@[3].virt.end == 0x8080_0000 && r@[3].flags == 0xc7,
        r@[4].virt.start == 0x9000_0000 && r@[4].virt.end == 0x9000_4000 && r@[4].flags == 0xc7,
        r@[5].virt.start == 0x7f_c000_0000 && r@[5].phys.start == 0x8000_0000 && r@[5].flags
            == 0xcb,
        r@[6].virt.start == 0x7f_c020_0000 && r@[6].phys.start == 0x8020_0000 && r@[6].flags
            == 0xc7,
        forall|i: int| 0 <= i < 5 ==> (#[trigger] r@[i]).phys == r@[i].virt,
{
    let mut v: Vec<MemoryMap> = Vec::new();
    v.push(bmap(0x1000_0000, 0x1000_0100, 0x1000_0000, 0xc7));
    v.push(bmap(0xbfe0_0000, 0xc000_0000, 0xbfe0_0000, 0xc7));
    v.push(bmap(0x8000_0000, 0x8020_0000, 0x8000_0000, 0xcb));
    v.push(bmap(0x8020_0000, 0x8080_0000, 0x8020_0000, 0xc7));
    v.push(bmap(0x9000_0000, 0x9000_4000, 0x9000_0000, 0xc7));
    v.push(bmap(0x7f_c000_0000, 0x7f_c020_0000, 0x8000_0000, 0xcb));
    v.push(bmap(0x7f_c020_0000, 0x7f_c080_0000, 0x8020_0000, 0xc7));
    v
}

/// The fixed Sv39 boot map handed to a supervisor-mode payload: device-tree
/// window, image, RAM, the caller's stack alias and the high-half payload
/// windows (`0xcf` adds X to `0xc7`; `0xd7`/`0xdf` add U).
pub fn smode_boot_maps() -> (r: Vec<MemoryMap>)
    ensures
        r@.len() == 7,
        r@[0].virt.start == 0xbfe0_0000 && r@[0].virt.end == 0xc000_0000 && r@[0].flags == 0xc7,
        r@[1].virt.start == 0x8000_0000 && r@[1].virt.end == 0x8020_0000 && r@[1].flags == 0xcb,
        r@[2].virt.start == 0x8020_0000 && r@[2].virt.end == 0x8080_0000 && r@[2].flags == 0xc7,
        r@[3].virt.start == 0x9000_0000 && r@[3].virt.end == 0x9040_0000 && r@[3].flags == 0xc7,
        r@[4].virt.start == 0x7f_c040_0000 && r@[4].phys.start == 0x8040_0000 && r@[4].flags
            == 0xc7,
        r@[5].virt.start == 0x7f_d000_0000 && r@[5].phys.start == 0x9000_0000 && r@[5].flags
            == 0xd7,
        r@[6].virt.start == 0x7f_d300_0000 && r@[6].phys.start == 0x9300_0000 && r@[6].flags
            == 0xcf,
{
    let mut v: Vec<MemoryMap> = Vec::new();
    v.push(bmap(0xbfe0_0000, 0xc000_0000, 0xbfe0_0000, 0xc7));
    v.push(bmap(0x8000_0000, 0x8020_0000, 0x8000_0000, 0xcb));
    v.push(bmap(0x8020_0000, 0x8080_0000, 0x8020_0000, 0xc7));
    v.push(bmap(0x9000_0000, 0x9040_0000, 0x9000_0000, 0xc7));
    v.push(bmap(0x7f_c040_0000, 0x7f_c080_0000, 0x8040_0000, 0xc7));
    v.push(bmap(0x7f_d000_0000, 0x7f_d300_0000, 0x9000_0000, 0xd7));
    v.push(bmap(0x7f_d300_0000, 0x7f_d600_0000, 0x9300_0000, 0xcf));
    v
}

/// The copies that load a supervisor payload: each loadable segment lands
/// at the load base plus its own physical address.
pub open spec fn spec_payload_plan(segs: Seq<crate::elf_file::ElfSegment>, base: u64) -> Seq<
    crate::guest::CopyRegion,
>
    decreases segs.len(),
{
    if segs.len() == 0 {
        Seq::empty()
    } else {
        spec_payload_plan(segs.drop_last(), base) + (if crate::guest::loadable(segs.last()) {
            seq![
                crate::guest::CopyRegion {
                    src_offset: segs.last().p_offset,
                    dst: (base + segs.last().p_paddr) as u64,
                    len: segs.last().p_filesz,
                },
            ]
        } else {
            Seq::empty()
        })
    }
}

/// Plan the copies that load a supervisor payload at `base`.
pub fn load_elf_plan(segments: &[crate::elf_file::ElfSegment], base: u64) -> (r: Result<
    Vec<crate::guest::CopyRegion>,
    crate::guest::LoadError,
>)
    ensures
        r is Err <==> exists|i: int|
            0 <= i < segments@.len() && crate::guest::loadable(#[trigger] segments@[i])
                && segments@[i].p_paddr > u64::MAX - base,
        r is Err ==> r == Err::<Vec<crate::guest::CopyRegion>, crate::guest::LoadError>(
            crate::guest::LoadError::AddressOverflow,
        ),
        r matches Ok(v) ==> v@ == spec_payload_plan(segments@, base),
{
    let mut plan: Vec<crate::guest::CopyRegion> = Vec::new();
    let mut i: usize = 0;
    while i < segments.len()
        invariant
            i <= segments@.len(),
            plan@ == spec_payload_plan(segments@.take(i as int), base),
            forall|j: int|
                0 <= j < i && crate::guest::loadable(#[trigger] segments@[j]) ==> segments@[j].p_paddr
                    <= u64::MAX - base,
        decreases segments@.len() - i,
    {
        let s = segments[i];
        if s.p_type == crate::elf_file::PT_LOAD && s.p_filesz > 0 {
            if s.p_paddr > u64::MAX - base {
                return Err(crate::guest::LoadError::AddressOverflow);
            }
            plan.push(
                crate::guest::CopyRegion {
                    src_offset: s.p_offset,
                    dst: base + s.p_paddr,
                    len: s.p_filesz,
                },
            );
        }
        i += 1;
        proof {
            assert(segments@.take(i as int).drop_last() =~= segments@.take(i - 1));
            assert(segments@.take(i as int).last() == segments@[i - 1]);
        }
    }
    proof {
        assert(segments@.take(segments@.len() as int) =~= segments@);
    }
    Ok(plan)
}

} // verus!
