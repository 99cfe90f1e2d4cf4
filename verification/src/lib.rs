//! Core of a bare-metal type-1 hypervisor for RISC-V 64 with the H extension.
//!
//! The library holds the logic of the hypervisor: the Sv39/Sv39x4 page-table
//! engine, the guest and context records, the PLIC emulator, the SBI server,
//! the Zicfiss shadow-stack emulation and the trap dispatch decisions.  The
//! machine-level glue (CSR access, the trap vector's assembly, MMIO) lives
//! outside and hands this library plain values.

use vstd::prelude::*;

pub mod boot;
pub mod constant;
pub mod context;
pub mod device;
pub mod device_tree;
pub mod elf_file;
pub mod guest;
pub mod decode;
pub mod memmap;
pub mod page_table;
pub mod plic;
pub mod sbi;
pub mod trap;
pub mod zicfiss;

use crate::device::DeviceProbeError;
use crate::device::Devices;
use crate::device::Uart;
use crate::device::VirtIO;
use crate::device::Clint;
use crate::device::Initrd;
use crate::device::Pci;
use crate::device_tree::fdt_initrd_of;
use crate::device_tree::fdt_initrd_region;
use crate::device_tree::fdt_node_region;
use crate::device_tree::fdt_plic_context_id;
use crate::device_tree::fdt_plic_context_of;
use crate::device_tree::fdt_region_of;
use crate::device_tree::fdt_virtio_of;
use crate::device_tree::fdt_virtio_regions;
use crate::guest::Guest;
use crate::memmap::HostPhysicalAddress;
use crate::plic::Plic;

verus! {

/// Global data of the hypervisor: one guest slot per HART and the device
/// registry, reached per HART rather than shared.
pub struct HypervisorData {
    /// The HART this view serves.
    pub current_hart: usize,
    /// One guest per HART, present once registered.
    pub guest: Vec<Option<Guest>>,
    /// The device registry, present once discovered.
    pub devices: Option<Devices>,
}

impl HypervisorData {
    /// A slot for every HART; present guests and devices are well formed.
    pub open spec fn wf(self) -> bool {
        &&& self.guest@.len() == crate::constant::MAX_HART_NUM
        &&& forall|i: int|
            0 <= i < self.guest@.len() ==> ((#[trigger] self.guest@[i]) matches Some(g) ==> g.wf())
        &&& (self.devices matches Some(d) ==> d.wf())
        &&& self.current_hart < crate::constant::MAX_HART_NUM
    }

    /// Borrow the device registry.
    pub fn devices(&self) -> (r: &Devices)
        requires
            self.devices is Some,
        ensures
            self.devices == Some(*r),
    {
        match &self.devices {
            Some(d) => d,
            None => vstd::pervasive::unreached(),
        }
    }

    /// Borrow the current HART's guest.
    pub fn guest(&mut self) -> (r: &mut Guest)
        requires
            old(self).wf(),
            old(self).guest@[old(self).current_hart as int] is Some,
        ensures
            old(self).guest@[old(self).current_hart as int] == Some(*r),
            final(self).guest@ == old(self).guest@.update(
                old(self).current_hart as int,
                Some(*final(r)),
            ),
            final(self).current_hart == old(self).current_hart,
            final(self).devices == old(self).devices,
    {
        let i = self.current_hart;
        match &mut self.guest[i] {
            Some(g) => g,
            None => vstd::pervasive::unreached(),
        }
    }

    /// Register a new guest under its HART id.
    pub fn register_guest(&mut self, new_guest: Guest)
        requires
            old(self).wf(),
            new_guest.guest_id < crate::constant::MAX_HART_NUM,
            new_guest.wf(),
        ensures
            final(self).wf(),
            final(self).guest@ == old(self).guest@.update(
                new_guest.guest_id as int,
                Some(new_guest),
            ),
            final(self).devices == old(self).devices,
            final(self).current_hart == old(self).current_hart,
    {
        let hart_id = new_guest.hart_id();
        self.guest[hart_id] = Some(new_guest);
    }

    /// Which failure device discovery reports for this blob, in the order
    /// the checks run; `None` when discovery succeeds.
    pub open spec fn spec_register_err(dtb: Seq<u8>) -> Option<DeviceProbeError> {
        if !crate::device_tree::spec_fdt_ok(dtb) {
            Some(DeviceProbeError::MalformedDeviceTree)
        } else if fdt_region_of(dtb, "/soc/serial"@) is None {
            Some(DeviceProbeError::UartNotFound)
        } else if fdt_initrd_of(dtb) is None {
            Some(DeviceProbeError::InitrdNotFound)
        } else if fdt_initrd_of(dtb)->Some_0.1 < fdt_initrd_of(dtb)->Some_0.0 {
            Some(DeviceProbeError::InitrdNotFound)
        } else if fdt_region_of(dtb, "/soc/plic"@) is None {
            Some(DeviceProbeError::PlicNotFound)
        } else if fdt_plic_context_of(dtb) is None {
            Some(DeviceProbeError::PlicContextNotFound)
        } else if fdt_plic_context_of(dtb)->Some_0 >= 0x1_0000 {
            Some(DeviceProbeError::PlicContextNotFound)
        } else if fdt_region_of(dtb, "/soc/clint"@) is None {
            Some(DeviceProbeError::ClintNotFound)
        } else if fdt_region_of(dtb, "/soc/pci"@) is None {
            Some(DeviceProbeError::PciNotFound)
        } else {
            None
        }
    }

    /// Discover the devices from the flattened device tree and store them.
    pub fn register_devices(&mut self, dtb: &[u8]) -> (r: Result<(), DeviceProbeError>)
        ensures
            final(self).guest == old(self).guest,
            final(self).current_hart == old(self).current_hart,
            Self::spec_register_err(dtb@) matches Some(e) ==> r == Err::<(), DeviceProbeError>(e)
                && *final(self) == *old(self),
            Self::spec_register_err(dtb@) is None ==> r is Ok,
            r is Ok ==> {
                &&& final(self).devices matches Some(d)
                &&& (fdt_region_of(dtb@, "/soc/serial"@) matches Some(u) && final(self).devices
                    matches Some(d) && d.uart == (Uart { base: u.0, size: u.1 }))
                &&& (fdt_initrd_of(dtb@) matches Some(ir) && final(self).devices matches Some(d)
                    && d.initrd == (Initrd { base: ir.0, size: (ir.1 - ir.0) as u64 }))
                &&& (fdt_region_of(dtb@, "/soc/plic"@) matches Some(p) && final(self).devices
                    matches Some(d) && d.plic.base == HostPhysicalAddress(p.0) && d.plic.size
                    == p.1)
                &&& (fdt_plic_context_of(dtb@) matches Some(c) && final(self).devices matches Some(
                    d,
                ) && d.plic_context == c)
                &&& (fdt_region_of(dtb@, "/soc/clint"@) matches Some(cl) && final(self).devices
                    matches Some(d) && d.clint == (Clint { base: cl.0, size: cl.1 }))
                &&& (fdt_region_of(dtb@, "/soc/pci"@) matches Some(pc) && final(self).devices
                    matches Some(d) && d.pci == (Pci { base: pc.0, size: pc.1 }))
                &&& (final(self).devices matches Some(d) && d.virtio@.len() == fdt_virtio_of(
                    dtb@,
                ).len() && forall|i: int|
                    0 <= i < d.virtio@.len() ==> (#[trigger] d.virtio@[i]) == (VirtIO {
                        base: fdt_virtio_of(dtb@)[i].0,
                        size: fdt_virtio_of(dtb@)[i].1,
                        irq: fdt_virtio_of(dtb@)[i].2,
                    }))
            },
    {
        if !crate::device_tree::fdt_structure_ok(dtb) {
            return Err(DeviceProbeError::MalformedDeviceTree);
        }
        let uart_reg = match fdt_node_region(dtb, "/soc/serial") {
            Some(v) => v,
            None => { return Err(DeviceProbeError::UartNotFound) },
        };
        let initrd_reg = match fdt_initrd_region(dtb) {
            Some(v) => v,
            None => { return Err(DeviceProbeError::InitrdNotFound) },
        };
        if initrd_reg.1 < initrd_reg.0 {
            return Err(DeviceProbeError::InitrdNotFound);
        }
        let plic_reg = match fdt_node_region(dtb, "/soc/plic") {
            Some(v) => v,
            None => { return Err(DeviceProbeError::PlicNotFound) },
        };
        let plic_ctx = match fdt_plic_context_id(dtb) {
            Some(v) => v,
            None => { return Err(DeviceProbeError::PlicContextNotFound) },
        };
        if plic_ctx >= 0x1_0000 {
            return Err(DeviceProbeError::PlicContextNotFound);
        }
        let clint_reg = match fdt_node_region(dtb, "/soc/clint") {
            Some(v) => v,
            None => { return Err(DeviceProbeError::ClintNotFound) },
        };
        let pci_reg = match fdt_node_region(dtb, "/soc/pci") {
            Some(v) => v,
            None => { return Err(DeviceProbeError::PciNotFound) },
        };
        let raw_virtio = fdt_virtio_regions(dtb);
        let mut virtio: Vec<VirtIO> = Vec::new();
        let mut i: usize = 0;
        while i < raw_virtio.len()
            invariant
                i <= raw_virtio@.len(),
                raw_virtio@ == fdt_virtio_of(dtb@),
                virtio@.len() == i,
                forall|k: int|
                    0 <= k < i ==> (#[trigger] virtio@[k]) == (VirtIO {
                        base: raw_virtio@[k].0,
                        size: raw_virtio@[k].1,
                        irq: raw_virtio@[k].2,
                    }),
            decreases raw_virtio@.len() - i,
        {
            let v = raw_virtio[i];
            virtio.push(VirtIO { base: v.0, size: v.1, irq: v.2 });
            i += 1;
        }
        self.devices = Some(
            Devices {
                uart: Uart { base: uart_reg.0, size: uart_reg.1 },
                virtio,
                initrd: Initrd { base: initrd_reg.0, size: initrd_reg.1 - initrd_reg.0 },
                plic: Plic::new(HostPhysicalAddress(plic_reg.0), plic_reg.1),
                plic_context: plic_ctx as usize,
                clint: Clint { base: clint_reg.0, size: clint_reg.1 },
                pci: Pci { base: pci_reg.0, size: pci_reg.1 },
            },
        );
        Ok(())
    }
}

impl Default for HypervisorData {
    /// Empty state: no guests registered, no devices discovered.
    fn default() -> (r: HypervisorData)
        ensures
            r.wf(),
            r.current_hart == 0,
            forall|i: int| 0 <= i < r.guest@.len() ==> (#[trigger] r.guest@[i]) is None,
            r.devices is None,
    {
        let mut guest: Vec<Option<Guest>> = Vec::new();
        let mut i: usize = 0;
        while i < crate::constant::MAX_HART_NUM
            invariant
                i <= crate::constant::MAX_HART_NUM,
                guest@.len() == i,
                forall|k: int| 0 <= k < i ==> (#[trigger] guest@[k]) is None,
            decreases crate::constant::MAX_HART_NUM - i,
        {
            guest.push(None);
            i += 1;
        }
        HypervisorData { current_hart: 0, guest, devices: None }
    }
}

} // verus!
