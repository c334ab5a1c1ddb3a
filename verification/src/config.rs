//! Compile-time platform configuration.

use vstd::prelude::*;

verus! {

/// Boot stack bytes per CPU.
pub const BOOT_KERNEL_STACK_SIZE: usize = 0x4000;

/// Kernel heap bytes.
pub const KERNEL_HEAP_SIZE: usize = 0x40_0000;

/// Start of the identity-mapped physical range.
pub const PHYS_VIRT_OFFSET: usize = 0x4000_0000;

/// End of usable physical memory.
pub const PHYS_MEMORY_END: usize = 0x6000_0000;

/// Physical CPUs.
pub const CPU_NUM: usize = 1;

/// Virtual machines.
pub const VM_NUM: usize = 1;

/// The CPU that boots first.
pub const PRIMARY_CPU_ID: usize = 0;

/// Ring size of the paravirtual block device.
pub const BLK_QUEUE_SIZE: usize = 16;

/// Host-physical staging area of the guest images.
pub const GUEST_IMAGE_PADDR: usize = 0x400_1000;

/// Bytes per staged guest image.
pub const GUEST_IMAGE_SIZE: usize = 0x300_0000;

/// Guest-physical base of guest RAM.
pub const GUEST_PHYS_MEMORY_BASE: usize = 0x4000_0000;

/// Bytes of RAM each guest sees.
pub const GUEST_PHYS_MEMORY_SIZE: usize = 0x800_0000;

/// Guest-physical entry point of a guest kernel.
pub const GUEST_ENTRY: usize = 0x4020_0000;

/// Guest-physical base of the device-tree blob.
pub const GUEST_DTB_ADDR: usize = 0x4a00_0000;

/// Guest-physical range of the initial ramdisk.
pub const GUEST_INITRAMFS_START: usize = 0x4800_0000;

pub const GUEST_INITRAMFS_END: usize = 0x4820_0000;

/// The host-physical staging slot holding VM `vm_id`'s guest image;
/// the boot path copies it into the VM's RAM.
pub fn guest_image_slot(vm_id: usize) -> (r: usize)
    requires
        vm_id < VM_NUM,
    ensures
        r == GUEST_IMAGE_PADDR + vm_id * GUEST_IMAGE_SIZE,
{
    GUEST_IMAGE_PADDR + vm_id * GUEST_IMAGE_SIZE
}

/// Which VM each physical CPU serves.
pub fn cpu_to_vm_table() -> (r: Vec<usize>)
    ensures
        r@.len() == CPU_NUM,
        forall|i: int| 0 <= i < r@.len() ==> #[trigger] r@[i] < VM_NUM,
{
    let mut t: Vec<usize> = Vec::new();
    t.push(0);
    t
}

} // verus!
