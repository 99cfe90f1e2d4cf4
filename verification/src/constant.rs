//! Layout constants of the hypervisor's host-physical arena and of the
//! guest-physical space handed to each guest.

use vstd::prelude::*;

verus! {

/// Max number of HARTs (hardware threads) the hypervisor serves.
pub const MAX_HART_NUM: usize = 8;

/// Base address of DRAM on the host.
pub const DRAM_BASE: u64 = 0x8000_0000;

/// Stack size reserved for each HART's trap stack.
pub const STACK_SIZE_PER_HART: u64 = 0x1_0000;

/// Size of the memory area a 4 KiB page covers.
pub const PAGE_SIZE: u64 = 4096;

/// Number of entries of one page-table node (vpn[1] and vpn[0] are 9 bits wide).
pub const PAGE_TABLE_SIZE: usize = 512;

/// Base of the hypervisor's own arena: text and read-only data start here.
pub const HYPERVISOR_BASE_ADDR: u64 = 0x8020_0000;

/// Offset of the kernel heap (allocator arena) inside the hypervisor arena.
pub const HEAP_OFFSET: u64 = 0x8_0000;

/// Size of the kernel heap.
pub const HEAP_SIZE: u64 = 0x8_0000;

/// Offset of the trap stacks inside the hypervisor arena.
pub const STACK_OFFSET: u64 = 0x10_0000;

/// Offset of the per-HART G-stage root tables inside the hypervisor arena.
pub const PAGE_TABLE_OFFSET: u64 = 0x18_0000;

/// Distance between the root tables of two consecutive HARTs.
pub const PAGE_TABLE_OFFSET_PER_HART: u64 = 0x2_0000;

/// Offset of the relocated device tree handed to the guest in `a1`.
pub const GUEST_DEVICE_TREE_OFFSET: u64 = 0x28_0000;

/// Start of guest DRAM in guest-physical space.
pub const GUEST_DRAM_BASE: u64 = 0x8000_0000;

/// Guest DRAM size per HART: 256 MiB.
pub const DRAM_SIZE_PER_GUEST: u64 = 0x1000_0000;

/// UART base address (for the panic path's raw output).
pub const UART_ADDR: u64 = 0x1000_0000;

/// CLINT base address.
pub const CLINT_ADDR: u64 = 0x200_0000;

/// `mtimecmp` registers' address inside the CLINT.
pub const MTIMECMP_ADDR: u64 = 0x200_4000;

/// Base address of the machine stack.
pub const MACHINE_STACK_BASE: u64 = 0x8080_0000;

} // verus!
