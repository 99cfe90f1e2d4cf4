//! Devices data: each pass-through device owns a base address and size read
//! from the device tree, and produces the identity map its G-stage entry
//! needs.

use vstd::prelude::*;

use crate::memmap::mmio_map;
use crate::memmap::AddressRange;
use crate::memmap::HostPhysicalAddress;
use crate::memmap::MemoryMap;
use crate::plic::Plic;

verus! {

/// A device implementing this owns a memory region and can hand out its
/// identity memory map.
pub trait Device: Sized {
    /// Base address of the region.
    spec fn spec_base(&self) -> u64;

    /// Size of the region.
    spec fn spec_size(&self) -> u64;

    /// Return size of the memory region.
    fn size(&self) -> (r: u64)
        ensures
            r == self.spec_size(),
    ;

    /// Return address of physical memory.
    fn paddr(&self) -> (r: HostPhysicalAddress)
        ensures
            r.0 == self.spec_base(),
    ;

    /// Return the identity map between guest-physical and host-physical.
    fn memmap(&self) -> (r: MemoryMap)
        requires
            self.spec_base() + self.spec_size() <= u64::MAX,
        ensures
            r == spec_mmio_map(self.spec_base(), self.spec_size()),
    ;
}

/// The identity MMIO map of a region, with flags `{D, A, W, R, U, V}`.
pub open spec fn spec_mmio_map(base: u64, size: u64) -> MemoryMap {
    MemoryMap {
        virt: AddressRange { start: base, end: (base + size) as u64 },
        phys: AddressRange { start: base, end: (base + size) as u64 },
        flags: 0xd7u8,
    }
}

/// The UART.
#[derive(Clone, Copy, PartialEq, Eq, Structural, Debug)]
pub struct Uart {
    pub base: u64,
    pub size: u64,
}

/// One virtio-mmio transport.
#[derive(Clone, Copy, PartialEq, Eq, Structural, Debug)]
pub struct VirtIO {
    pub base: u64,
    pub size: u64,
    pub irq: u64,
}

/// The initrd region named by `/chosen`.
#[derive(Clone, Copy, PartialEq, Eq, Structural, Debug)]
pub struct Initrd {
    pub base: u64,
    pub size: u64,
}

/// The CLINT.
#[derive(Clone, Copy, PartialEq, Eq, Structural, Debug)]
pub struct Clint {
    pub base: u64,
    pub size: u64,
}

/// The PCI host bridge.
#[derive(Clone, Copy, PartialEq, Eq, Structural, Debug)]
pub struct Pci {
    pub base: u64,
    pub size: u64,
}

impl Device for Uart {
    open spec fn spec_base(&self) -> u64 {
        self.base
    }

    open spec fn spec_size(&self) -> u64 {
        self.size
    }

    fn size(&self) -> u64 {
        self.size
    }

    fn paddr(&self) -> HostPhysicalAddress {
        HostPhysicalAddress(self.base)
    }

    fn memmap(&self) -> MemoryMap {
        mmio_map(self.base, self.size)
    }
}

impl Device for VirtIO {
    open spec fn spec_base(&self) -> u64 {
        self.base
    }

    open spec fn spec_size(&self) -> u64 {
        self.size
    }

    fn size(&self) -> u64 {
        self.size
    }

    fn paddr(&self) -> HostPhysicalAddress {
        HostPhysicalAddress(self.base)
    }

    fn memmap(&self) -> MemoryMap {
        mmio_map(self.base, self.size)
    }
}

impl Device for Initrd {
    open spec fn spec_base(&self) -> u64 {
        self.base
    }

    open spec fn spec_size(&self) -> u64 {
        self.size
    }

    fn size(&self) -> u64 {
        self.size
    }

    fn paddr(&self) -> HostPhysicalAddress {
        HostPhysicalAddress(self.base)
    }

    fn memmap(&self) -> MemoryMap {
        mmio_map(self.base, self.size)
    }
}

impl Device for Clint {
    open spec fn spec_base(&self) -> u64 {
        self.base
    }

    open spec fn spec_size(&self) -> u64 {
        self.size
    }

    fn size(&self) -> u64 {
        self.size
    }

    fn paddr(&self) -> HostPhysicalAddress {
        HostPhysicalAddress(self.base)
    }

    fn memmap(&self) -> MemoryMap {
        mmio_map(self.base, self.size)
    }
}

impl Device for Pci {
    open spec fn spec_base(&self) -> u64 {
        self.base
    }

    open spec fn spec_size(&self) -> u64 {
        self.size
    }

    fn size(&self) -> u64 {
        self.size
    }

    fn paddr(&self) -> HostPhysicalAddress {
        HostPhysicalAddress(self.base)
    }

    fn memmap(&self) -> MemoryMap {
        mmio_map(self.base, self.size)
    }
}

/// Why device discovery failed: the node or property the registry needs is
/// absent from the device tree.
#[derive(Clone, Copy, PartialEq, Eq, Structural, Debug)]
pub enum DeviceProbeError {
    /// The blob fails the structure check the parser needs.
    MalformedDeviceTree,
    UartNotFound,
    InitrdNotFound,
    PlicNotFound,
    PlicContextNotFound,
    ClintNotFound,
    PciNotFound,
}

/// The identity maps of the virtio transports, each listed twice as the
/// registry hands them out.
pub open spec fn doubled_virtio_maps(v: Seq<VirtIO>) -> Seq<MemoryMap>
    decreases v.len(),
{
    if v.len() == 0 {
        Seq::empty()
    } else {
        doubled_virtio_maps(v.drop_last()) + seq![
            spec_mmio_map(v.last().base, v.last().size),
            spec_mmio_map(v.last().base, v.last().size),
        ]
    }
}

/// Every discovered device, with the PLIC context id of this HART.
pub struct Devices {
    pub uart: Uart,
    pub virtio: Vec<VirtIO>,
    pub initrd: Initrd,
    pub plic: Plic,
    pub plic_context: usize,
    pub clint: Clint,
    pub pci: Pci,
}

impl Devices {
    /// Every region stays inside the address space.
    pub open spec fn wf(self) -> bool {
        &&& self.uart.base + self.uart.size <= u64::MAX
        &&& self.initrd.base + self.initrd.size <= u64::MAX
        &&& self.plic.wf()
        &&& self.plic.base.0 + self.plic.size <= u64::MAX
        &&& self.clint.base + self.clint.size <= u64::MAX
        &&& self.pci.base + self.pci.size <= u64::MAX
        &&& forall|i: int|
            0 <= i < self.virtio@.len() ==> (#[trigger] self.virtio@[i]).base
                + self.virtio@[i].size <= u64::MAX
    }

    /// The memory maps of every device, with each virtio map doubled as the
    /// registry hands them out.
    pub open spec fn spec_device_maps(self) -> Seq<MemoryMap> {
        doubled_virtio_maps(self.virtio@) + seq![
            spec_mmio_map(self.uart.base, self.uart.size),
            spec_mmio_map(self.initrd.base, self.initrd.size),
            spec_mmio_map(self.plic.base.0, self.plic.size),
            spec_mmio_map(self.clint.base, self.clint.size),
            spec_mmio_map(self.pci.base, self.pci.size),
        ]
    }

    /// Collect the union of every device's identity map.
    pub fn create_device_map(&self) -> (r: Vec<MemoryMap>)
        requires
            self.wf(),
        ensures
            r@ == self.spec_device_maps(),
    {
        let mut device_mapping: Vec<MemoryMap> = Vec::new();
        let mut i: usize = 0;
        while i < self.virtio.len()
            invariant
                self.wf(),
                i <= self.virtio@.len(),
                device_mapping@ == doubled_virtio_maps(self.virtio@.take(i as int)),
            decreases self.virtio@.len() - i,
        {
            let m = self.virtio[i].memmap();
            device_mapping.push(m);
            device_mapping.push(m);
            i += 1;
            proof {
                let pre = self.virtio@.take(i - 1);
                let cur = self.virtio@.take(i as int);
                assert(cur.drop_last() =~= pre);
                assert(cur.last() == self.virtio@[i - 1]);
                assert(device_mapping@ =~= doubled_virtio_maps(pre) + seq![
                    spec_mmio_map(cur.last().base, cur.last().size),
                    spec_mmio_map(cur.last().base, cur.last().size),
                ]);
            }
        }
        proof {
            assert(self.virtio@.take(self.virtio@.len() as int) =~= self.virtio@);
        }
        device_mapping.push(self.uart.memmap());
        device_mapping.push(self.initrd.memmap());
        device_mapping.push(self.plic.memmap());
        device_mapping.push(self.clint.memmap());
        device_mapping.push(self.pci.memmap());
        proof {
            assert(device_mapping@ =~= self.spec_device_maps());
        }
        device_mapping
    }
}


impl Devices {
    /// Premise of installing the device maps: every region is page aligned,
    /// fits the table's space and the PPN field, regions are pairwise
    /// disjoint (the doubled virtio maps repeat identically), and the table
    /// does not already map any of them elsewhere.
    pub open spec fn device_mapping_pre(self, pt: crate::page_table::PageTable) -> bool {
        &&& self.wf()
        &&& forall|i: int|
            0 <= i < self.spec_device_maps().len() ==> (#[trigger] self.spec_device_maps()[i]).wf()
                && self.spec_device_maps()[i].virt.end <= pt.space_size()
        &&& forall|i: int, j: int|
            0 <= i < self.spec_device_maps().len() && 0 <= j < self.spec_device_maps().len() && i
                != j ==> (#[trigger] self.spec_device_maps()[i]).virt.end <= (
            #[trigger] self.spec_device_maps()[j]).virt.start || self.spec_device_maps()[j].virt.end
                <= self.spec_device_maps()[i].virt.start || self.spec_device_maps()[i]
                == self.spec_device_maps()[j]
        &&& forall|i: int, a: u64|
            0 <= i < self.spec_device_maps().len() && #[trigger] self.spec_device_maps()[i].virt.contains(
                a,
            ) && a % 4096 == 0 ==> crate::page_table::translate_addr(pt, a) is None
                || crate::page_table::translate_addr(pt, a) == crate::page_table::map_target(
                self.spec_device_maps()[i],
                a,
            )
    }

    /// Install the identity maps of every device into the G-stage table.
    pub fn device_mapping_g_stage(&self, pt: &mut crate::page_table::PageTable) -> (r: Result<
        (),
        crate::page_table::PageTableError,
    >)
        requires
            old(pt).wf(),
            self.device_mapping_pre(*old(pt)),
        ensures
            final(pt).wf(),
            final(pt).root_width == old(pt).root_width,
            r is Err ==> final(pt).nodes@.len() >= 0x10_0000,
            r is Ok ==> forall|i: int, a: u64|
                0 <= i < self.spec_device_maps().len()
                    && #[trigger] self.spec_device_maps()[i].virt.contains(a) && a % 4096 == 0
                    ==> crate::page_table::translate_addr(*final(pt), a)
                    == crate::page_table::map_target(self.spec_device_maps()[i], a),
            r is Ok ==> forall|i: int|
                0 <= i < self.spec_device_maps().len() ==> crate::page_table::map_settled(
                    *final(pt),
                    #[trigger] self.spec_device_maps()[i],
                ),
            r is Ok && (forall|i: int|
                0 <= i < self.spec_device_maps().len() ==> crate::page_table::map_settled(
                    *old(pt),
                    #[trigger] self.spec_device_maps()[i],
                )) ==> *final(pt) == *old(pt),
    {
        let memory_map = self.create_device_map();
        crate::page_table::generate_page_table(pt, memory_map.as_slice())
    }
}

} // verus!
