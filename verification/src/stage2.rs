//! Stage-2 (guest-physical to host-physical) translation descriptors,
//! VMSAv8-64 format.
//!
//! Stage-2 permissions use the S2AP encoding: bit 6 grants reads,
//! bit 7 grants writes; execute-never is XN[1] (bit 54). Memory
//! attribute index 1 names device memory, index 15 normal write-back
//! cacheable memory.

use vstd::prelude::*;

use crate::flags::MemFlags;

verus! {

/// Descriptor is valid.
pub const PTE_VALID: u64 = 1;

/// Descriptor points at a next-level table or a 4 KiB page
/// rather than a 1 GiB / 2 MiB block.
pub const PTE_NON_BLOCK: u64 = 2;

/// The access flag.
pub const PTE_AF: u64 = 0x400;

/// Memory attribute index 1: device-nGnRE.
pub const S2_ATTR_DEVICE: u64 = 0x4;

/// Memory attribute index 15: normal write-back cacheable.
pub const S2_ATTR_NORMAL: u64 = 0x3c;

/// Inner shareable (with `S2_SHAREABLE`).
pub const S2_INNER: u64 = 0x100;

/// Shareable at all.
pub const S2_SHAREABLE: u64 = 0x200;

/// Stage-2 access permission: readable.
pub const S2AP_R: u64 = 0x40;

/// Stage-2 access permission: writable.
pub const S2AP_W: u64 = 0x80;

/// Execute-never, XN[1].
pub const S2_XN1: u64 = 0x40000000000000;

/// Output-address field of a descriptor: bits 47..12.
pub const PTE_ADDR_MASK: u64 = 0xffff_ffff_f000;

/// The kind of memory a descriptor maps.
#[derive(Clone, Copy, PartialEq, Eq, Structural, Debug)]
pub enum MemType {
    Device,
    Normal,
}

/// Attribute bits encoding a memory type, before permissions.
pub open spec fn spec_attr_of_mem_type(t: MemType) -> u64 {
    match t {
        MemType::Device => S2_ATTR_DEVICE,
        MemType::Normal => S2_ATTR_NORMAL | S2_INNER | S2_SHAREABLE,
    }
}

/// Attribute bits of a block or page descriptor carrying `f`.
pub open spec fn spec_attr_of_flags(f: MemFlags) -> u64 {
    spec_attr_of_mem_type(if f.device { MemType::Device } else { MemType::Normal })
    | (if f.read { PTE_VALID | S2AP_R } else { 0 })
    | (if f.write { S2AP_W } else { 0 })
    | (if !f.execute { S2_XN1 } else { 0 })
}

/// The permissions a descriptor's attribute bits grant. Stage-2
/// attributes never grant unprivileged-only access, so `user` is
/// always clear.
pub open spec fn spec_flags_of_attr(a: u64) -> MemFlags {
    MemFlags {
        read: a & PTE_VALID != 0 && a & S2AP_R != 0,
        write: a & S2AP_W != 0,
        execute: a & S2_XN1 == 0,
        device: (a >> 2) & 0xf == 1,
        user: false,
    }
}

/// Attribute bits encoding a memory type, before permissions.
pub fn attr_of_mem_type(t: MemType) -> (r: u64)
    ensures
        r == spec_attr_of_mem_type(t),
{
    match t {
        MemType::Device => S2_ATTR_DEVICE,
        MemType::Normal => S2_ATTR_NORMAL | S2_INNER | S2_SHAREABLE,
    }
}

/// The memory type named by a descriptor's attribute-index field.
///
/// Only indices 1 (device) and 15 (normal) are ever written by this
/// library, so every other index is rejected by the precondition.
pub fn mem_type_of_attr(a: u64) -> (r: MemType)
    requires
        (a >> 2) & 0xf == 1 || (a >> 2) & 0xf == 15,
    ensures
        r == (if (a >> 2) & 0xf == 1 { MemType::Device } else { MemType::Normal }),
{
    let idx = (a >> 2) & 0xf;
    if idx == 1 {
        MemType::Device
    } else {
        MemType::Normal
    }
}

/// Attribute bits of a block or page descriptor carrying `f`.
pub fn attr_of_flags(f: MemFlags) -> (r: u64)
    ensures
        r == spec_attr_of_flags(f),
{
    let base = if f.device {
        attr_of_mem_type(MemType::Device)
    } else {
        attr_of_mem_type(MemType::Normal)
    };
    let r1 = if f.read { base | (PTE_VALID | S2AP_R) } else { base | 0 };
    let r2 = if f.write { r1 | S2AP_W } else { r1 | 0 };
    if !f.execute { r2 | S2_XN1 } else { r2 | 0 }
}

/// A stage-2 translation-table descriptor.
#[derive(Clone, Copy, PartialEq, Eq, Structural, Debug)]
pub struct PageTableEntry(pub u64);

/// Attribute words built from four permission summands stay clear of
/// the output-address field.
proof fn lemma_summands_clear(a: u64, base: u64, rb: u64, wb: u64, xb: u64)
    by (bit_vector)
    requires
        a == base | rb | wb | xb,
        base == 0x4u64 || base == 0x33cu64,
        rb == 0x41u64 || rb == 0u64,
        wb == 0x80u64 || wb == 0u64,
        xb == 0x40000000000000u64 || xb == 0u64,
    ensures
        a & 0xffff_ffff_f000 == 0,
{
}

/// Attribute bits never overlap the output-address field.
pub proof fn lemma_attr_clear_of_addr(f: MemFlags)
    ensures
        spec_attr_of_flags(f) & PTE_ADDR_MASK == 0,
{
    let a = spec_attr_of_flags(f);
    let base: u64 = if f.device { 0x4u64 } else { 0x33cu64 };
    let rb: u64 = if f.read { 0x41u64 } else { 0u64 };
    let wb: u64 = if f.write { 0x80u64 } else { 0u64 };
    let xb: u64 = if !f.execute { 0x40000000000000u64 } else { 0u64 };
    assert(0x3cu64 | 0x100 | 0x200 == 0x33cu64 && 0x1u64 | 0x40 == 0x41u64) by (bit_vector);
    assert(a == base | rb | wb | xb);
    lemma_summands_clear(a, base, rb, wb, xb);
}

/// Which attribute bits each permission contributes.
proof fn lemma_summand_bits(a: u64, base: u64, rb: u64, wb: u64, xb: u64)
    by (bit_vector)
    requires
        a == base | rb | wb | xb,
        base == 0x4u64 || base == 0x33cu64,
        rb == 0x41u64 || rb == 0u64,
        wb == 0x80u64 || wb == 0u64,
        xb == 0x40000000000000u64 || xb == 0u64,
    ensures
        a & 1 == (if rb == 0x41u64 { 1u64 } else { 0u64 }),
        a & 2 == 0,
        a & 0x40 == (if rb == 0x41u64 { 0x40u64 } else { 0u64 }),
        a & 0x80 == (if wb == 0x80u64 { 0x80u64 } else { 0u64 }),
        a & 0x40000000000000 == (if xb == 0x40000000000000u64 { 0x40000000000000u64 } else { 0u64 }),
        (a >> 2) & 0xf == (if base == 0x4u64 { 1u64 } else { 0xfu64 }),
{
}

/// How the attribute word of `f` answers each bit test that
/// `spec_flags_of_attr` makes.
pub proof fn lemma_attr_of_flags_bits(f: MemFlags)
    ensures
        spec_attr_of_flags(f) & PTE_VALID == (if f.read { PTE_VALID } else { 0u64 }),
        spec_attr_of_flags(f) & PTE_NON_BLOCK == 0,
        spec_attr_of_flags(f) & S2AP_R == (if f.read { S2AP_R } else { 0u64 }),
        spec_attr_of_flags(f) & S2AP_W == (if f.write { S2AP_W } else { 0u64 }),
        spec_attr_of_flags(f) & S2_XN1 == (if f.execute { 0u64 } else { S2_XN1 }),
        (spec_attr_of_flags(f) >> 2) & 0xf == (if f.device { 1u64 } else { 0xfu64 }),
        spec_flags_of_attr(spec_attr_of_flags(f)) == (MemFlags { user: false, ..f }),
{
    let a = spec_attr_of_flags(f);
    let base: u64 = if f.device { 0x4u64 } else { 0x33cu64 };
    let rb: u64 = if f.read { 0x41u64 } else { 0u64 };
    let wb: u64 = if f.write { 0x80u64 } else { 0u64 };
    let xb: u64 = if !f.execute { 0x40000000000000u64 } else { 0u64 };
    assert(0x3cu64 | 0x100 | 0x200 == 0x33cu64 && 0x1u64 | 0x40 == 0x41u64) by (bit_vector);
    assert(a == base | rb | wb | xb);
    lemma_summand_bits(a, base, rb, wb, xb);
}

/// Composing attributes with an aligned output address keeps both
/// fields readable: the address mask recovers the address and none of
/// the tested attribute bits change.
pub proof fn lemma_compose(attr: u64, pa: u64)
    by (bit_vector)
    requires
        attr & 0xffff_ffff_f000 == 0,
        pa & 0xfff == 0,
        pa < 0x1_0000_0000_0000,
    ensures
        (attr | pa) & 0xffff_ffff_f000 == pa,
        (attr | pa) & 1 == attr & 1,
        (attr | pa) & 2 == attr & 2,
        (attr | pa) & 0x40 == attr & 0x40,
        (attr | pa) & 0x80 == attr & 0x80,
        (attr | pa) & 0x400 == attr & 0x400,
        (attr | pa) & 0x40000000000000 == attr & 0x40000000000000,
        ((attr | pa) >> 2) & 0xf == (attr >> 2) & 0xf,
        attr | pa != 0 || attr == 0 && pa == 0,
{
}

impl PageTableEntry {
    /// The all-zero descriptor: invalid, unused.
    pub fn empty() -> (r: Self)
        ensures
            r.0 == 0,
    {
        PageTableEntry(0)
    }

    /// A page (4 KiB, `is_huge == false`) or block (`is_huge == true`)
    /// descriptor mapping `paddr` with permissions `flags`.
    pub fn new_page(paddr: usize, flags: MemFlags, is_huge: bool) -> (r: Self)
        requires
            paddr & 0xfff == 0,
            paddr < 0x1_0000_0000_0000,
        ensures
            r.0 == (spec_attr_of_flags(flags) | PTE_AF | (if is_huge { 0u64 } else { PTE_NON_BLOCK })
                | paddr as u64),
            r.spec_paddr() == paddr,
            r.spec_flags() == (MemFlags { user: false, ..flags }),
            r.spec_is_huge() == is_huge,
            r.spec_is_present() == flags.read,
    {
        let nb: u64 = if is_huge { 0 } else { PTE_NON_BLOCK };
        let attr = attr_of_flags(flags) | PTE_AF | nb;
        proof {
            let a = spec_attr_of_flags(flags);
            lemma_attr_clear_of_addr(flags);
            lemma_attr_of_flags_bits(flags);
            assert(a & 0xffff_ffff_f000u64 == 0 ==> (a | 0x400 | nb) & 0xffff_ffff_f000u64 == 0
                && (a | 0x400 | nb) & 1 == a & 1 && (a | 0x400 | nb) & 2 == nb
                && (a | 0x400 | nb) & 0x40 == a & 0x40 && (a | 0x400 | nb) & 0x80 == a & 0x80
                && (a | 0x400 | nb) & 0x40000000000000 == a & 0x40000000000000
                && ((a | 0x400 | nb) >> 2) & 0xf == (a >> 2) & 0xf) by (bit_vector)
                requires
                    nb == 0u64 || nb == 2u64,
                    a & 2 == 0,
            ;
            lemma_compose(attr, paddr as u64);
            assert((paddr as u64) & 0xfffu64 == 0 && paddr < 0x1_0000_0000_0000u64 ==> (paddr
                as u64) & 0xffff_ffff_f000u64 == paddr as u64) by (bit_vector);
        }
        PageTableEntry(attr | paddr as u64)
    }

    /// A table descriptor pointing at the next-level table at `paddr`.
    pub fn new_table(paddr: usize) -> (r: Self)
        requires
            paddr & 0xfff == 0,
            paddr < 0x1_0000_0000_0000,
        ensures
            r.0 == ((PTE_NON_BLOCK | PTE_VALID | S2_ATTR_NORMAL | S2AP_R | S2AP_W | PTE_AF
                | S2_SHAREABLE | S2_INNER) | paddr as u64),
            r.spec_paddr() == paddr,
            r.spec_is_present(),
            !r.spec_is_huge(),
    {
        let attr = PTE_NON_BLOCK | PTE_VALID | S2_ATTR_NORMAL | S2AP_R | S2AP_W | PTE_AF
            | S2_SHAREABLE | S2_INNER;
        proof {
            assert((0x2u64 | 0x1 | 0x3c | 0x40 | 0x80 | 0x400 | 0x200 | 0x100)
                & 0xffff_ffff_f000u64 == 0 && (0x2u64 | 0x1 | 0x3c | 0x40 | 0x80 | 0x400 | 0x200
                | 0x100) & 1 == 1 && (0x2u64 | 0x1 | 0x3c | 0x40 | 0x80 | 0x400 | 0x200 | 0x100)
                & 2 == 2) by (bit_vector);
            lemma_compose(attr, paddr as u64);
            assert((paddr as u64) & 0xfffu64 == 0 && paddr < 0x1_0000_0000_0000u64 ==> (paddr
                as u64) & 0xffff_ffff_f000u64 == paddr as u64) by (bit_vector);
        }
        PageTableEntry(attr | paddr as u64)
    }

    /// The output address field.
    pub open spec fn spec_paddr(self) -> usize {
        (self.0 & PTE_ADDR_MASK) as usize
    }

    /// The permissions granted by the descriptor's attribute bits.
    pub open spec fn spec_flags(self) -> MemFlags {
        spec_flags_of_attr(self.0)
    }

    pub open spec fn spec_is_unused(self) -> bool {
        self.0 == 0
    }

    pub open spec fn spec_is_present(self) -> bool {
        self.0 & PTE_VALID != 0
    }

    /// A present descriptor without `PTE_NON_BLOCK` maps a whole
    /// 1 GiB or 2 MiB block.
    pub open spec fn spec_is_huge(self) -> bool {
        self.0 & PTE_NON_BLOCK == 0
    }

    /// The output address field.
    pub fn paddr(&self) -> (r: usize)
        ensures
            r == self.spec_paddr(),
    {
        proof {
            let v = self.0;
            assert(v & 0xffff_ffff_f000u64 < 0x1_0000_0000_0000u64) by (bit_vector);
        }
        (self.0 & PTE_ADDR_MASK) as usize
    }

    /// The permissions granted by the descriptor's attribute bits.
    pub fn flags(&self) -> (r: MemFlags)
        ensures
            r == self.spec_flags(),
    {
        MemFlags {
            read: self.0 & PTE_VALID != 0 && self.0 & S2AP_R != 0,
            write: self.0 & S2AP_W != 0,
            execute: self.0 & S2_XN1 == 0,
            device: (self.0 >> 2) & 0xf == 1,
            user: false,
        }
    }

    pub fn is_unused(&self) -> (r: bool)
        ensures
            r == self.spec_is_unused(),
    {
        self.0 == 0
    }

    pub fn is_present(&self) -> (r: bool)
        ensures
            r == self.spec_is_present(),
    {
        self.0 & PTE_VALID != 0
    }

    pub fn is_huge(&self) -> (r: bool)
        ensures
            r == self.spec_is_huge(),
    {
        self.0 & PTE_NON_BLOCK == 0
    }

    /// Reset the descriptor to invalid.
    pub fn clear(&mut self)
        ensures
            final(self).0 == 0,
    {
        self.0 = 0;
    }
}

} // verus!
