//! Device discovery from a device tree, and G-stage setup from an ELF
//! image.

use hikami::elf_file::parse_elf_segments;
use hikami::guest::Guest;
use hikami::memmap::AddressRange;
use hikami::page_table::PageTable;
use hikami::HypervisorData;

// ---- flattened-device-tree builder ----------------------------------------

const FDT_BEGIN_NODE: u32 = 1;
const FDT_END_NODE: u32 = 2;
const FDT_PROP: u32 = 3;
const FDT_END: u32 = 9;

struct DtbBuilder {
    structure: Vec<u8>,
    strings: Vec<u8>,
}

impl DtbBuilder {
    fn new() -> DtbBuilder {
        DtbBuilder { structure: Vec::new(), strings: Vec::new() }
    }

    fn u32(&mut self, v: u32) {
        self.structure.extend_from_slice(&v.to_be_bytes());
    }

    fn begin(&mut self, name: &str) {
        self.u32(FDT_BEGIN_NODE);
        self.structure.extend_from_slice(name.as_bytes());
        self.structure.push(0);
        while self.structure.len() % 4 != 0 {
            self.structure.push(0);
        }
    }

    fn end(&mut self) {
        self.u32(FDT_END_NODE);
    }

    fn string_offset(&mut self, name: &str) -> u32 {
        let off = self.strings.len() as u32;
        self.strings.extend_from_slice(name.as_bytes());
        self.strings.push(0);
        off
    }

    fn prop(&mut self, name: &str, data: &[u8]) {
        let off = self.string_offset(name);
        self.u32(FDT_PROP);
        self.u32(data.len() as u32);
        self.u32(off);
        self.structure.extend_from_slice(data);
        while self.structure.len() % 4 != 0 {
            self.structure.push(0);
        }
    }

    fn prop_u32(&mut self, name: &str, v: u32) {
        self.prop(name, &v.to_be_bytes());
    }

    fn prop_reg64(&mut self, name: &str, base: u64, size: u64) {
        let mut d = Vec::new();
        d.extend_from_slice(&base.to_be_bytes());
        d.extend_from_slice(&size.to_be_bytes());
        self.prop(name, &d);
    }

    fn finish(mut self) -> Vec<u8> {
        self.u32(FDT_END);
        let header_len = 40usize;
        let rsv_len = 16usize;
        let off_struct = header_len + rsv_len;
        let off_strings = off_struct + self.structure.len();
        let total = off_strings + self.strings.len();
        let mut out = Vec::new();
        out.extend_from_slice(&0xd00d_feedu32.to_be_bytes()); // magic
        out.extend_from_slice(&(total as u32).to_be_bytes());
        out.extend_from_slice(&(off_struct as u32).to_be_bytes());
        out.extend_from_slice(&(off_strings as u32).to_be_bytes());
        out.extend_from_slice(&(header_len as u32).to_be_bytes()); // rsvmap
        out.extend_from_slice(&17u32.to_be_bytes()); // version
        out.extend_from_slice(&16u32.to_be_bytes()); // last compatible
        out.extend_from_slice(&0u32.to_be_bytes()); // boot cpu
        out.extend_from_slice(&(self.strings.len() as u32).to_be_bytes());
        out.extend_from_slice(&(self.structure.len() as u32).to_be_bytes());
        out.extend_from_slice(&[0u8; 16]); // empty reservation map
        out.extend_from_slice(&self.structure);
        out.extend_from_slice(&self.strings);
        out
    }
}

fn test_dtb() -> Vec<u8> {
    let mut b = DtbBuilder::new();
    b.begin("");
    b.prop_u32("#address-cells", 2);
    b.prop_u32("#size-cells", 2);

    b.begin("chosen");
    b.prop_u32("linux,initrd-start", 0x8820_0000);
    b.prop_u32("linux,initrd-end", 0x8830_0000);
    b.end();

    b.begin("cpus");
    b.prop_u32("#address-cells", 1);
    b.prop_u32("#size-cells", 0);
    b.begin("cpu@0");
    b.prop_u32("reg", 0);
    b.begin("interrupt-controller");
    // the context id is read from the phandle's first byte
    b.prop("phandle", &[1, 0, 0, 0]);
    b.end();
    b.end();
    b.end();

    b.begin("soc");
    b.prop_u32("#address-cells", 2);
    b.prop_u32("#size-cells", 2);
    b.begin("serial@10000000");
    b.prop_reg64("reg", 0x1000_0000, 0x100);
    b.end();
    b.begin("virtio_mmio@10001000");
    b.prop_reg64("reg", 0x1000_1000, 0x1000);
    b.prop_u32("interrupt-parent", 2);
    b.prop_u32("interrupts", 1);
    b.end();
    b.begin("plic@c000000");
    b.prop_reg64("reg", 0x0c00_0000, 0x60_0000);
    b.prop_u32("#interrupt-cells", 1);
    b.prop_u32("phandle", 2);
    b.end();
    b.begin("clint@2000000");
    b.prop_reg64("reg", 0x0200_0000, 0x10_0000);
    b.end();
    b.begin("pci@30000000");
    b.prop_reg64("reg", 0x3000_0000, 0x1000_0000);
    b.end();
    b.end();

    b.end();
    b.finish()
}

#[test]
fn register_devices_reads_the_tree() {
    let dtb = test_dtb();
    let mut data = HypervisorData::default();
    data.register_devices(&dtb).unwrap();
    let d = data.devices();
    assert_eq!(d.uart.base, 0x1000_0000);
    assert_eq!(d.uart.size, 0x100);
    assert_eq!(d.initrd.base, 0x8820_0000);
    assert_eq!(d.initrd.size, 0x10_0000);
    assert_eq!(d.plic.base.0, 0x0c00_0000);
    assert_eq!(d.plic.size, 0x60_0000);
    assert_eq!(d.plic_context, 1);
    assert_eq!(d.clint.base, 0x0200_0000);
    assert_eq!(d.pci.base, 0x3000_0000);
    assert_eq!(d.virtio.len(), 1);
    assert_eq!(d.virtio[0].base, 0x1000_1000);
    assert_eq!(d.virtio[0].irq, 1);
}

#[test]
fn register_devices_rejects_garbage() {
    let mut data = HypervisorData::default();
    assert!(data.register_devices(&[0u8; 16]).is_err());
}

#[test]
fn device_maps_install_identity_mmio() {
    let dtb = test_dtb();
    let mut data = HypervisorData::default();
    data.register_devices(&dtb).unwrap();
    let d = data.devices();

    let maps = d.create_device_map();
    // two per virtio transport plus uart, initrd, plic, clint, pci
    assert_eq!(maps.len(), 2 * d.virtio.len() + 5);

    let mut pt = PageTable::new(true);
    d.device_mapping_g_stage(&mut pt).unwrap();
    let (hpa, flags) = pt.walk(0x1000_0000).unwrap();
    assert_eq!(hpa, 0x1000_0000);
    assert_eq!(flags, 0xd7);
    let (hpa, _) = pt.walk(0x0c20_0004).unwrap();
    assert_eq!(hpa, 0x0c20_0004);
}

// ---- ELF image builder -----------------------------------------------------

fn minimal_elf(p_paddr: u64, p_filesz: u64, p_memsz: u64, p_flags: u32) -> Vec<u8> {
    let mut out = Vec::new();
    // e_ident
    out.extend_from_slice(&[0x7f, b'E', b'L', b'F', 2, 1, 1, 0, 0, 0, 0, 0, 0, 0, 0, 0]);
    out.extend_from_slice(&2u16.to_le_bytes()); // e_type: executable
    out.extend_from_slice(&0xf3u16.to_le_bytes()); // e_machine
    out.extend_from_slice(&1u32.to_le_bytes()); // e_version
    out.extend_from_slice(&0x8000_0000u64.to_le_bytes()); // e_entry
    out.extend_from_slice(&64u64.to_le_bytes()); // e_phoff
    out.extend_from_slice(&0u64.to_le_bytes()); // e_shoff
    out.extend_from_slice(&0u32.to_le_bytes()); // e_flags
    out.extend_from_slice(&64u16.to_le_bytes()); // e_ehsize
    out.extend_from_slice(&56u16.to_le_bytes()); // e_phentsize
    out.extend_from_slice(&1u16.to_le_bytes()); // e_phnum
    out.extend_from_slice(&0u16.to_le_bytes()); // e_shentsize
    out.extend_from_slice(&0u16.to_le_bytes()); // e_shnum
    out.extend_from_slice(&0u16.to_le_bytes()); // e_shstrndx
    // the single program header
    out.extend_from_slice(&1u32.to_le_bytes()); // p_type: PT_LOAD
    out.extend_from_slice(&p_flags.to_le_bytes());
    out.extend_from_slice(&0x1000u64.to_le_bytes()); // p_offset
    out.extend_from_slice(&p_paddr.to_le_bytes()); // p_vaddr
    out.extend_from_slice(&p_paddr.to_le_bytes()); // p_paddr
    out.extend_from_slice(&p_filesz.to_le_bytes());
    out.extend_from_slice(&p_memsz.to_le_bytes());
    out.extend_from_slice(&0x1000u64.to_le_bytes()); // p_align
    out
}

#[test]
fn parse_segments_of_minimal_image() {
    let image = minimal_elf(0, 0x1000, 0x2000, 7);
    let segs = parse_elf_segments(&image).unwrap();
    assert_eq!(segs.len(), 1);
    assert_eq!(segs[0].p_type, 1);
    assert_eq!(segs[0].p_paddr, 0);
    assert_eq!(segs[0].p_filesz, 0x1000);
    assert_eq!(segs[0].p_memsz, 0x2000);
    assert_eq!(segs[0].p_flags, 7);
    assert!(parse_elf_segments(&[0u8; 8]).is_none());
}

#[test]
fn g_stage_setup_from_single_rwx_segment() {
    let image = minimal_elf(0, 0x1000, 0x2000, 7);
    let segs = parse_elf_segments(&image).unwrap();
    let guest = Guest::new(0, AddressRange { start: 0x8000_0000, end: 0x9000_0000 });
    let mut pt = PageTable::new(true);
    guest.setup_g_stage_page_table_from_elf(&segs, &mut pt).unwrap();

    // the segment region: identity with {D, A, X, W, R, U, V}
    for a in [0x8000_0000u64, 0x8000_1000] {
        let (hpa, flags) = pt.walk(a).unwrap();
        assert_eq!(hpa, a);
        assert_eq!(flags, 0xdf);
    }
    // the tail keeps the rest of the low 4 GiB identity-mapped
    let (hpa, flags) = pt.walk(0x9000_0000).unwrap();
    assert_eq!(hpa, 0x9000_0000);
    assert_eq!(flags, 0xdf);
}

#[test]
fn load_plan_of_single_segment() {
    let image = minimal_elf(0, 0x1000, 0x2000, 7);
    let segs = parse_elf_segments(&image).unwrap();
    let guest = Guest::new(0, AddressRange { start: 0x8000_0000, end: 0x9000_0000 });
    let plan = guest.load_guest_elf(&segs).unwrap();
    assert_eq!(plan.len(), 1);
    assert_eq!(plan[0].src_offset, 0x1000);
    assert_eq!(plan[0].dst, 0x8000_0000);
    assert_eq!(plan[0].len, 0x1000);

    assert!(guest.load_guest_elf(&[]).is_err());
}

#[test]
fn truncated_structure_block_is_rejected() {
    // a blob with a sound header whose structure block breaks off mid-node:
    // the structure check refuses it before the parser would walk it
    let mut blob = test_dtb();
    let ok_len = blob.len();
    blob.truncate(ok_len - 12);
    // keep the header's totalsize consistent with the shorter buffer
    let total = (blob.len() as u32).to_be_bytes();
    blob[4..8].copy_from_slice(&total);
    let mut data = HypervisorData::default();
    assert!(data.register_devices(&blob).is_err());
}

#[test]
fn named_root_is_rejected() {
    // the parser's root lookup unwraps on a root that carries a name; the
    // structure check refuses such a blob instead
    let mut b = DtbBuilder::new();
    b.begin("root@0");
    b.prop_u32("#address-cells", 2);
    b.end();
    let blob = b.finish();
    let mut data = HypervisorData::default();
    assert!(data.register_devices(&blob).is_err());
}

#[test]
fn aliases_node_is_rejected() {
    // the parser's alias fallback can recurse without bound through an
    // aliases node; blobs carrying one are refused
    for name in ["aliases", "aliases@0"] {
        let mut b = DtbBuilder::new();
        b.begin("");
        b.begin(name);
        b.end();
        b.end();
        let blob = b.finish();
        let mut data = HypervisorData::default();
        assert!(data.register_devices(&blob).is_err());
    }
}
