//! Context, guest records, boot computations and the small handlers.

use hikami::boot::boot_relocation_offset;
use hikami::boot::load_elf_plan;
use hikami::boot::smode_boot_maps;
use hikami::boot::sstart_boot_maps;
use hikami::boot::guest_memory_range;
use hikami::boot::hedeleg_value;
use hikami::boot::hideleg_value;
use hikami::boot::page_table_root;
use hikami::boot::relocate_page_table_entries;
use hikami::boot::virtio_irq_mask;
use hikami::context::Context;
use hikami::decode::decode_zicsr;
use hikami::decode::ZicsrOp;
use hikami::device::VirtIO;
use hikami::elf_file::ElfSegment;
use hikami::guest::Guest;
use hikami::memmap::AddressRange;
use hikami::memmap::GuestPhysicalAddress;
use hikami::memmap::HostPhysicalAddress;
use hikami::page_table::PageTableEntry;
use hikami::page_table::PageTableLevel;
use hikami::sbi::sbi_base_handler;
use hikami::sbi::sbi_rfnc_handler;
use hikami::sbi::FenceAction;
use hikami::sbi::HostCsrs;
use hikami::trap::hs_forward_exception;
use hikami::trap::trap_interrupt;
use hikami::trap::update_sepc_by_htinst_value;
use hikami::trap::InterruptAction;
use hikami::HypervisorData;

#[test]
fn context_registers() {
    let mut ctx = Context::default();
    assert_eq!(ctx.xreg(0), 0);
    ctx.set_xreg(1, 0x42);
    assert_eq!(ctx.xreg(1), 0x42);
    // x0 stays hard-wired zero
    ctx.set_xreg(0, 0x99);
    assert_eq!(ctx.xreg(0), 0);
    ctx.set_sepc(0x8000_0000);
    ctx.set_sstatus(0x120);
    assert_eq!(ctx.sepc(), 0x8000_0000);
    assert_eq!(ctx.sstatus(), 0x120);
}

#[test]
fn guest_record() {
    let g = Guest::new(2, AddressRange { start: 0xa000_0000, end: 0xb000_0000 });
    assert_eq!(g.hart_id(), 2);
    assert_eq!(g.dram_base(), 0xa000_0000);
    assert_eq!(g.stack_top(), 0x8020_0000 + 0x10_0000 + 3 * 0x1_0000);
}

#[test]
fn hypervisor_data_guests() {
    let mut data = HypervisorData::default();
    let g = Guest::new(0, AddressRange { start: 0x8000_0000, end: 0x9000_0000 });
    data.register_guest(g);
    let borrowed = data.guest();
    assert_eq!(borrowed.hart_id(), 0);
    borrowed.context.set_xreg(5, 7);
    assert_eq!(data.guest().context.xreg(5), 7);
}

#[test]
fn delegation_masks() {
    // exceptions 0, 3, 8, 12, 13 and 15
    assert_eq!(hedeleg_value(), 0xb109);
    // interrupts 2, 6 and 10
    assert_eq!(hideleg_value(), 0x444);
}

#[test]
fn per_hart_layout() {
    let r = guest_memory_range(1);
    assert_eq!(r.start, 0x8000_0000 + 0x1000_0000);
    assert_eq!(r.end, r.start + 0x1000_0000);
    assert_eq!(page_table_root(2), 0x8020_0000 + 0x18_0000 + 2 * 0x2_0000);
}

#[test]
fn irq_mask_of_virtio_transports() {
    let v = vec![
        VirtIO { base: 0x1000_1000, size: 0x1000, irq: 1 },
        VirtIO { base: 0x1000_2000, size: 0x1000, irq: 3 },
    ];
    assert_eq!(virtio_irq_mask(&v), 0b1010);
    // only the first four transports count
    let many: Vec<VirtIO> = (0..6)
        .map(|i| VirtIO { base: 0x1000_1000 + 0x1000 * i, size: 0x1000, irq: i })
        .collect();
    assert_eq!(virtio_irq_mask(&many), 0b1111);
}

#[test]
fn boot_page_table_relocation() {
    let mut entries = vec![7u64; 1024];
    relocate_page_table_entries(&mut entries, 0x10);
    assert_eq!(entries[510], 7);
    assert_eq!(entries[511], 0x17);
    assert_eq!(entries[1023], 0x17);
    assert_eq!(boot_relocation_offset(0x40_0000), 2 * 0x8_0000);
}

#[test]
fn forward_protocol_values() {
    let mut ctx = Context::default();
    ctx.set_sepc(0x8000_2000);
    let fwd = hs_forward_exception(&mut ctx, 13, 0x1234, 0x8000_8000);
    assert_eq!(fwd.vsepc, 0x8000_2000);
    assert_eq!(fwd.vscause, 13);
    assert_eq!(fwd.vstval, 0x1234);
    assert_eq!(ctx.sepc(), 0x8000_8000);
}

#[test]
fn sepc_advance_by_instruction_size() {
    let mut ctx = Context::default();
    ctx.set_sepc(0x100);
    // bit 1 clear: a compressed instruction
    update_sepc_by_htinst_value(0x0000_a501, &mut ctx);
    assert_eq!(ctx.sepc(), 0x102);
    // bit 1 set: a full-size instruction
    update_sepc_by_htinst_value(0x0005_a503, &mut ctx);
    assert_eq!(ctx.sepc(), 0x106);
}

#[test]
fn interrupt_dispatch() {
    assert_eq!(trap_interrupt(5), InterruptAction::ForwardTimer);
    assert_eq!(trap_interrupt(9), InterruptAction::HandleExternal);
    assert_eq!(trap_interrupt(1), InterruptAction::Spurious);
}

#[test]
fn sbi_base_answers() {
    let host = HostCsrs { mvendorid: 1, marchid: 2, mimpid: 3 };
    assert_eq!(sbi_base_handler(0, 0, host).value, 1);
    assert_eq!(sbi_base_handler(1, 0, host).value, 0);
    assert_eq!(sbi_base_handler(3, 0x10, host).value, 1);
    assert_eq!(sbi_base_handler(3, 0x9999, host).value, 0);
    assert_eq!(sbi_base_handler(2, 0, host).error, -2);
    let (fence_i, a) = sbi_rfnc_handler(0);
    assert_eq!(fence_i.error, 0);
    assert_eq!(a, FenceAction::NoFence);
    let (vma, a) = sbi_rfnc_handler(1);
    assert_eq!(vma.error, 0);
    assert_eq!(a, FenceAction::HfenceVvma);
}

#[test]
fn pte_value_helpers() {
    assert_eq!(PageTableLevel::Lv1GB.size(), 0x4000_0000);
    assert_eq!(PageTableLevel::Lv2MB.size(), 0x20_0000);
    assert_eq!(PageTableLevel::Lv4KB.size(), 0x1000);
    let e = PageTableEntry::new(0x80000, 0xd7);
    assert_eq!(e.0, 0x80000 * 1024 + 0xd7);
    assert!(e.already_created());
    assert_eq!(e.pte(), 0x80000);
    assert!(!PageTableEntry(0).already_created());
}

#[test]
fn vpn_extraction() {
    let gpa = GuestPhysicalAddress(0x1_2345_6789);
    assert_eq!(gpa.vpn(2), (0x1_2345_6789u64 >> 30) as usize & 0x7ff);
    assert_eq!(gpa.vpn(1), (0x1_2345_6789u64 >> 21) as usize & 0x1ff);
    assert_eq!(gpa.vpn(0), (0x1_2345_6789u64 >> 12) as usize & 0x1ff);
    assert_eq!(HostPhysicalAddress(0x8000_1234).page_number(), 0x8000_1234 / 4096);
}

#[test]
fn zicsr_decode_fields() {
    // csrrw x7, 0x011, x8
    let raw = (0x11u64 << 20) | (8 << 15) | (1 << 12) | (7 << 7) | 0x73;
    let d = decode_zicsr(raw).unwrap();
    assert_eq!(d.op, ZicsrOp::Csrrw);
    assert_eq!(d.rd, Some(7));
    assert_eq!(d.rs1, Some(8));
    assert_eq!(d.csr, Some(0x11));
    // an add instruction is not a Zicsr access
    assert!(decode_zicsr(0x0073_0733).is_none());
}

#[test]
fn supervisor_boot_tables() {
    let s = sstart_boot_maps();
    assert_eq!(s.len(), 7);
    assert_eq!(s[0].virt.start, 0x1000_0000);
    assert_eq!(s[5].virt.start, 0x7f_c000_0000);
    assert_eq!(s[5].phys.start, 0x8000_0000);

    let m = smode_boot_maps();
    assert_eq!(m.len(), 7);
    assert_eq!(m[6].flags, 0xcf);

    let seg = ElfSegment {
        p_type: 1,
        p_offset: 0x200,
        p_vaddr: 0x1000,
        p_paddr: 0x1000,
        p_filesz: 0x80,
        p_memsz: 0x80,
        p_flags: 5,
        p_align: 0x1000,
    };
    let plan = load_elf_plan(&[seg], 0x9300_0000).unwrap();
    assert_eq!(plan.len(), 1);
    assert_eq!(plan[0].dst, 0x9300_1000);
}
