//! Stage-1 (hypervisor's own) translation descriptors, VMSAv8-64
//! format.
//!
//! Stage-1 permissions use AP and XN: AP[2] (bit 7) makes a mapping
//! read-only, AP[1] (bit 6) opens it to EL0, and PXN/UXN (bits 53,
//! 54) forbid privileged and unprivileged execution. Memory attribute
//! index 0 names device memory, index 1 normal write-back cacheable
//! memory.

use vstd::prelude::*;

use crate::flags::MemFlags;

verus! {

/// Descriptor is valid.
pub const S1_VALID: u64 = 1;

/// Descriptor points at a next-level table or a 4 KiB page
/// rather than a 1 GiB / 2 MiB block.
pub const S1_NON_BLOCK: u64 = 2;

/// The access flag.
pub const S1_AF: u64 = 0x400;

/// Memory attribute index 1: normal write-back cacheable.
pub const S1_ATTR_NORMAL: u64 = 0x4;

/// Inner shareable (with `S1_SHAREABLE`).
pub const S1_INNER: u64 = 0x100;

/// Shareable at all.
pub const S1_SHAREABLE: u64 = 0x200;

/// Access permission: reachable from EL0.
pub const S1_AP_EL0: u64 = 0x40;

/// Access permission: read-only.
pub const S1_AP_RO: u64 = 0x80;

/// Privileged execute-never.
pub const S1_PXN: u64 = 0x20000000000000;

/// (Unprivileged) execute-never.
pub const S1_UXN: u64 = 0x40000000000000;

/// Output-address field of a descriptor: bits 47..12.
pub const S1_ADDR_MASK: u64 = 0xffff_ffff_f000;

/// The kind of memory a descriptor maps.
#[derive(Clone, Copy, PartialEq, Eq, Structural, Debug)]
pub enum MemType {
    Device,
    Normal,
}

/// Attribute bits encoding a memory type, before permissions.
/// Device memory is attribute index 0, so it contributes no bits.
pub open spec fn spec_attr_of_mem_type(t: MemType) -> u64 {
    match t {
        MemType::Device => 0,
        MemType::Normal => S1_ATTR_NORMAL | S1_INNER | S1_SHAREABLE,
    }
}

/// The execution-control bits for a given user/execute pairing.
pub open spec fn spec_xn_bits(user: bool, execute: bool) -> u64 {
    if user {
        if execute { S1_AP_EL0 | S1_PXN } else { S1_AP_EL0 | S1_PXN | S1_UXN }
    } else {
        if execute { S1_UXN } else { S1_UXN | S1_PXN }
    }
}

/// Attribute bits of a block or page descriptor carrying `f`.
pub open spec fn spec_attr_of_flags(f: MemFlags) -> u64 {
    spec_attr_of_mem_type(if f.device { MemType::Device } else { MemType::Normal })
    | (if f.read { S1_VALID } else { 0 })
    | (if !f.write { S1_AP_RO } else { 0 })
    | spec_xn_bits(f.user, f.execute)
}

/// The permissions a descriptor's attribute bits grant.
pub open spec fn spec_flags_of_attr(a: u64) -> MemFlags {
    MemFlags {
        read: a & S1_VALID != 0,
        write: a & S1_AP_RO == 0,
        execute: if a & S1_AP_EL0 != 0 { a & S1_UXN == 0 } else { a & S1_PXN == 0 },
        device: (a >> 2) & 0x7 == 0,
        user: a & S1_AP_EL0 != 0,
    }
}

/// Attribute bits encoding a memory type, before permissions.
pub fn attr_of_mem_type(t: MemType) -> (r: u64)
    ensures
        r == spec_attr_of_mem_type(t),
{
    match t {
        MemType::Device => 0,
        MemType::Normal => S1_ATTR_NORMAL | S1_INNER | S1_SHAREABLE,
    }
}

/// The memory type named by a descriptor's attribute-index field.
pub fn mem_type_of_attr(a: u64) -> (r: MemType)
    requires
        (a >> 2) & 0x7 == 0 || (a >> 2) & 0x7 == 1,
    ensures
        r == (if (a >> 2) & 0x7 == 0 { MemType::Device } else { MemType::Normal }),
{
    let idx = (a >> 2) & 0x7;
    if idx == 0 {
        MemType::Device
    } else {
        MemType::Normal
    }
}

/// Attribute bits of a block or page descriptor carrying `f`.
pub fn attr_of_flags(f: MemFlags) -> (r: u64)
    ensures
        r == spec_attr_of_flags(f),
{
    let base = if f.device {
        attr_of_mem_type(MemType::Device)
    } else {
        attr_of_mem_type(MemType::Normal)
    };
    let r1 = if f.read { base | S1_VALID } else { base | 0 };
    let r2 = if !f.write { r1 | S1_AP_RO } else { r1 | 0 };
    let xn = if f.user {
        if f.execute { S1_AP_EL0 | S1_PXN } else { S1_AP_EL0 | S1_PXN | S1_UXN }
    } else {
        if f.execute { S1_UXN } else { S1_UXN | S1_PXN }
    };
    r2 | xn
}

/// A stage-1 translation-table descriptor.
#[derive(Clone, Copy, PartialEq, Eq, Structural, Debug)]
pub struct PageTableEntry(pub u64);

/// Which attribute bits each permission contributes; the word stays
/// clear of the output-address field.
proof fn lemma_summand_bits(a: u64, base: u64, rv: u64, wv: u64, xn: u64)
    by (bit_vector)
    requires
        a == base | rv | wv | xn,
        base == 0u64 || base == 0x304u64,
        rv == 1u64 || rv == 0u64,
        wv == 0x80u64 || wv == 0u64,
        xn == 0x20000000000040u64 || xn == 0x60000000000040u64 || xn == 0x40000000000000u64
            || xn == 0x60000000000000u64,
    ensures
        a & 0xffff_ffff_f000 == 0,
        a & 1 == (if rv == 1u64 { 1u64 } else { 0u64 }),
        a & 2 == 0,
        a & 0x80 == (if wv == 0x80u64 { 0x80u64 } else { 0u64 }),
        a & 0x40 == (if xn == 0x20000000000040u64 || xn == 0x60000000000040u64 {
            0x40u64
        } else {
            0u64
        }),
        a & 0x20000000000000 == (if xn == 0x40000000000000u64 { 0u64 } else { 0x20000000000000u64 }),
        a & 0x40000000000000 == (if xn == 0x20000000000040u64 { 0u64 } else { 0x40000000000000u64 }),
        (a >> 2) & 0x7 == (if base == 0u64 { 0u64 } else { 1u64 }),
{
}

/// How the attribute word of `f` answers each bit test that
/// `spec_flags_of_attr` makes; in particular the translation of
/// permissions into stage-1 attributes loses nothing.
pub proof fn lemma_attr_of_flags_bits(f: MemFlags)
    ensures
        spec_attr_of_flags(f) & S1_ADDR_MASK == 0,
        spec_attr_of_flags(f) & S1_NON_BLOCK == 0,
        spec_flags_of_attr(spec_attr_of_flags(f)) == f,
{
    let a = spec_attr_of_flags(f);
    let base: u64 = if f.device { 0u64 } else { 0x304u64 };
    let rv: u64 = if f.read { 1u64 } else { 0u64 };
    let wv: u64 = if !f.write { 0x80u64 } else { 0u64 };
    let xn: u64 = if f.user {
        if f.execute { 0x20000000000040u64 } else { 0x60000000000040u64 }
    } else {
        if f.execute { 0x40000000000000u64 } else { 0x60000000000000u64 }
    };
    assert(0x4u64 | 0x100 | 0x200 == 0x304u64 && 0x40u64 | 0x20000000000000 == 0x20000000000040u64
        && 0x40u64 | 0x20000000000000 | 0x40000000000000 == 0x60000000000040u64
        && 0x40000000000000u64 | 0x20000000000000 == 0x60000000000000u64) by (bit_vector);
    assert(a == base | rv | wv | xn);
    lemma_summand_bits(a, base, rv, wv, xn);
}

/// Composing attributes with an aligned output address keeps both
/// fields readable.
pub proof fn lemma_compose(attr: u64, pa: u64)
    by (bit_vector)
    requires
        attr & 0xffff_ffff_f000 == 0,
        pa & 0xfff == 0,
        pa < 0x1_0000_0000_0000,
    ensures
        (attr | pa) & 0xffff_ffff_f000 == pa,
        (attr | pa) & 1 == attr & 1,
        (attr | pa) & 2 == attr & 2,
        (attr | pa) & 0x40 == attr & 0x40,
        (attr | pa) & 0x80 == attr & 0x80,
        (attr | pa) & 0x20000000000000 == attr & 0x20000000000000,
        (attr | pa) & 0x40000000000000 == attr & 0x40000000000000,
        ((attr | pa) >> 2) & 0x7 == (attr >> 2) & 0x7,
{
}

impl PageTableEntry {
    /// The all-zero descriptor: invalid, unused.
    pub fn empty() -> (r: Self)
        ensures
            r.0 == 0,
    {
        PageTableEntry(0)
    }

    /// A page (4 KiB, `is_huge == false`) or block (`is_huge == true`)
    /// descriptor mapping `paddr` with permissions `flags`.
    pub fn new_page(paddr: usize, flags: MemFlags, is_huge: bool) -> (r: Self)
        requires
            paddr & 0xfff == 0,
            paddr < 0x1_0000_0000_0000,
        ensures
            r.0 == (spec_attr_of_flags(flags) | S1_AF | (if is_huge { 0u64 } else { S1_NON_BLOCK })
                | paddr as u64),
            r.spec_paddr() == paddr,
            r.spec_flags() == flags,
            r.spec_is_huge() == is_huge,
            r.spec_is_present() == flags.read,
    {
        let nb: u64 = if is_huge { 0 } else { S1_NON_BLOCK };
        let attr = attr_of_flags(flags) | S1_AF | nb;
        proof {
            let a = spec_attr_of_flags(flags);
            lemma_attr_of_flags_bits(flags);
            assert(a & 0xffff_ffff_f000u64 == 0 && a & 2 == 0 ==> (a | 0x400 | nb)
                & 0xffff_ffff_f000u64 == 0 && (a | 0x400 | nb) & 1 == a & 1 && (a | 0x400 | nb) & 2
                == nb && (a | 0x400 | nb) & 0x40 == a & 0x40 && (a | 0x400 | nb) & 0x80 == a & 0x80
                && (a | 0x400 | nb) & 0x20000000000000 == a & 0x20000000000000 && (a | 0x400 | nb)
                & 0x40000000000000 == a & 0x40000000000000 && ((a | 0x400 | nb) >> 2) & 0x7 == (a
                >> 2) & 0x7) by (bit_vector)
                requires
                    nb == 0u64 || nb == 2u64,
            ;
            lemma_compose(attr, paddr as u64);
            assert((paddr as u64) & 0xfffu64 == 0 && paddr < 0x1_0000_0000_0000u64 ==> (paddr
                as u64) & 0xffff_ffff_f000u64 == paddr as u64) by (bit_vector);
        }
        PageTableEntry(attr | paddr as u64)
    }

    /// A table descriptor pointing at the next-level table at `paddr`.
    pub fn new_table(paddr: usize) -> (r: Self)
        requires
            paddr & 0xfff == 0,
            paddr < 0x1_0000_0000_0000,
        ensures
            r.0 == ((S1_NON_BLOCK | S1_VALID) | paddr as u64),
            r.spec_paddr() == paddr,
            r.spec_is_present(),
            !r.spec_is_huge(),
    {
        let attr = S1_NON_BLOCK | S1_VALID;
        proof {
            assert((0x2u64 | 0x1) & 0xffff_ffff_f000u64 == 0 && (0x2u64 | 0x1) & 1 == 1 && (0x2u64
                | 0x1) & 2 == 2) by (bit_vector);
            lemma_compose(attr, paddr as u64);
            assert((paddr as u64) & 0xfffu64 == 0 && paddr < 0x1_0000_0000_0000u64 ==> (paddr
                as u64) & 0xffff_ffff_f000u64 == paddr as u64) by (bit_vector);
        }
        PageTableEntry(attr | paddr as u64)
    }

    /// The output address field.
    pub open spec fn spec_paddr(self) -> usize {
        (self.0 & S1_ADDR_MASK) as usize
    }

    /// The permissions granted by the descriptor's attribute bits.
    pub open spec fn spec_flags(self) -> MemFlags {
        spec_flags_of_attr(self.0)
    }

    pub open spec fn spec_is_unused(self) -> bool {
        self.0 == 0
    }

    pub open spec fn spec_is_present(self) -> bool {
        self.0 & S1_VALID != 0
    }

    /// A present descriptor without `S1_NON_BLOCK` maps a whole
    /// 1 GiB or 2 MiB block.
    pub open spec fn spec_is_huge(self) -> bool {
        self.0 & S1_NON_BLOCK == 0
    }

    /// The output address field.
    pub fn paddr(&self) -> (r: usize)
        ensures
            r == self.spec_paddr(),
    {
        proof {
            let v = self.0;
            assert(v & 0xffff_ffff_f000u64 < 0x1_0000_0000_0000u64) by (bit_vector);
        }
        (self.0 & S1_ADDR_MASK) as usize
    }

    /// The permissions granted by the descriptor's attribute bits.
    pub fn flags(&self) -> (r: MemFlags)
        ensures
            r == self.spec_flags(),
    {
        MemFlags {
            read: self.0 & S1_VALID != 0,
            write: self.0 & S1_AP_RO == 0,
            execute: if self.0 & S1_AP_EL0 != 0 {
                self.0 & S1_UXN == 0
            } else {
                self.0 & S1_PXN == 0
            },
            device: (self.0 >> 2) & 0x7 == 0,
            user: self.0 & S1_AP_EL0 != 0,
        }
    }

    pub fn is_unused(&self) -> (r: bool)
        ensures
            r == self.spec_is_unused(),
    {
        self.0 == 0
    }

    pub fn is_present(&self) -> (r: bool)
        ensures
            r == self.spec_is_present(),
    {
        self.0 & S1_VALID != 0
    }

    pub fn is_huge(&self) -> (r: bool)
        ensures
            r == self.spec_is_huge(),
    {
        self.0 & S1_NON_BLOCK == 0
    }

    /// Reset the descriptor to invalid.
    pub fn clear(&mut self)
        ensures
            final(self).0 == 0,
    {
        self.0 = 0;
    }
}

/// The two-entry boot translation table for the hypervisor itself:
/// the low gigabyte is device memory, the second gigabyte is normal
/// memory holding the hypervisor image, both 1 GiB blocks.
pub fn boot_block_entries() -> (r: (PageTableEntry, PageTableEntry))
    ensures
        r.0.spec_paddr() == 0 && r.0.spec_is_huge() && r.0.spec_flags() == (MemFlags {
            read: true,
            write: true,
            execute: false,
            device: true,
            user: false,
        }),
        r.1.spec_paddr() == 0x4000_0000usize && r.1.spec_is_huge() && r.1.spec_flags() == (MemFlags {
            read: true,
            write: true,
            execute: true,
            device: false,
            user: false,
        }),
{
    proof {
        assert(0usize & 0xfff == 0 && 0x4000_0000usize & 0xfff == 0) by (bit_vector);
        lemma_attr_of_flags_bits(
            MemFlags { read: true, write: true, execute: false, device: true, user: false },
        );
        lemma_attr_of_flags_bits(
            MemFlags { read: true, write: true, execute: true, device: false, user: false },
        );
    }
    let dev = PageTableEntry::new_page(
        0,
        MemFlags { read: true, write: true, execute: false, device: true, user: false },
        true,
    );
    let normal = PageTableEntry::new_page(
        0x4000_0000,
        MemFlags { read: true, write: true, execute: true, device: false, user: false },
        true,
    );
    (dev, normal)
}

} // verus!
