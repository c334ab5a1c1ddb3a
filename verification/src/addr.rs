//! Physical and virtual addresses, page alignment.
//!
//! The hypervisor runs under an identity mapping, so the conversions
//! between physical and virtual addresses are the identity.

use vstd::prelude::*;

verus! {

pub type PhysAddr = usize;
pub type VirtAddr = usize;

/// Translation granule: 4 KiB pages.
pub const PAGE_SIZE: usize = 0x1000;

/// An address is aligned when it is a multiple of the page size.
pub open spec fn is_aligned_spec(addr: usize) -> bool {
    addr % PAGE_SIZE == 0
}

/// Physical to virtual: the identity map.
pub fn phys_to_virt(paddr: PhysAddr) -> (r: VirtAddr)
    ensures
        r == paddr,
{
    paddr
}

/// Virtual to physical: the identity map.
pub fn virt_to_phys(vaddr: VirtAddr) -> (r: PhysAddr)
    ensures
        r == vaddr,
{
    vaddr
}

/// Round an address down to the page boundary at or below it.
pub fn align_down(addr: usize) -> (r: usize)
    ensures
        r == addr - addr % PAGE_SIZE,
        is_aligned_spec(r),
        r <= addr,
        addr - r < PAGE_SIZE,
{
    proof {
        assert((addr & !0xfffusize) + addr % 0x1000 == addr && (addr & !0xfffusize) % 0x1000 == 0)
            by (bit_vector);
    }
    addr & !(PAGE_SIZE - 1)
}

/// Round an address up to the page boundary at or above it.
pub fn align_up(addr: usize) -> (r: usize)
    requires
        addr + PAGE_SIZE - 1 <= usize::MAX,
    ensures
        r >= addr,
        r - addr < PAGE_SIZE,
        is_aligned_spec(r),
        r == addr + (if addr % PAGE_SIZE == 0 { 0int } else { PAGE_SIZE - addr % PAGE_SIZE }),
{
    let sum: usize = addr + (PAGE_SIZE - 1);
    proof {
        assert((sum & !0xfffusize) + sum % 0x1000 == sum && (sum & !0xfffusize) % 0x1000 == 0)
            by (bit_vector);
    }
    sum & !(PAGE_SIZE - 1)
}

/// Whether an address lies on a page boundary.
pub fn is_aligned(addr: usize) -> (r: bool)
    ensures
        r == is_aligned_spec(addr),
{
    proof {
        assert((addr & 0xfffusize) == addr % 0x1000) by (bit_vector);
    }
    (addr & (PAGE_SIZE - 1)) == 0
}

} // verus!
