//! Emulated interrupt distributor: the guest's view of GICD.
//!
//! It reports a small fixed identity, stores an enabled flag, drops
//! writes to everything else, and serves other reads from a shadow
//! of the distributor window.

use vstd::prelude::*;

use crate::err::RvmError;
use crate::err::RvmResult;

verus! {

/// Identity reported for GICD_TYPER.
pub const VGICD_TYPER: u32 = 0x4;

/// Identity reported for GICD_IIDR.
pub const VGICD_IIDR: u32 = 0x43b;

/// The mutable part of the emulated distributor.
pub struct VgicdInner {
    pub enabled: bool,
}

impl VgicdInner {
    pub fn new() -> (r: VgicdInner)
        ensures
            !r.enabled,
    {
        VgicdInner { enabled: false }
    }
}

pub struct Vgic {
    pub base_vaddr: usize,
    pub gicd_size: usize,
    pub inner: VgicdInner,
    /// Shadow of the distributor window, one word per 4 bytes.
    pub shadow: Vec<u32>,
}

impl Vgic {
    /// The value a read returns: the enabled flag, the fixed
    /// identity, or the shadow word.
    pub open spec fn spec_read_value(self, off: int) -> u32 {
        if off == 0 {
            if self.inner.enabled {
                1u32
            } else {
                0u32
            }
        } else if off == 4 {
            VGICD_TYPER
        } else if off == 8 {
            VGICD_IIDR
        } else {
            self.shadow@[off / 4]
        }
    }

    pub open spec fn wf(self) -> bool {
        &&& self.shadow@.len() == self.gicd_size as int / 4
        &&& self.gicd_size % 4 == 0
        &&& self.base_vaddr + self.gicd_size <= usize::MAX
    }

    pub fn new(base_vaddr: usize, gicd_size: usize) -> (r: Vgic)
        requires
            base_vaddr + gicd_size <= usize::MAX,
            gicd_size <= 0x10000,
            gicd_size % 4 == 0,
        ensures
            r.wf(),
            r.base_vaddr == base_vaddr,
            r.gicd_size == gicd_size,
            !r.inner.enabled,
            forall|k: int| 0 <= k < r.shadow@.len() ==> r.shadow@[k] == 0,
    {
        let words = gicd_size / 4;
        let mut shadow: Vec<u32> = Vec::new();
        let mut i: usize = 0;
        while i < words
            invariant
                shadow@.len() == i,
                i <= words,
                forall|k: int| 0 <= k < i ==> shadow@[k] == 0,
            decreases words - i,
        {
            shadow.push(0);
            i = i + 1;
        }
        Vgic { base_vaddr, gicd_size, inner: VgicdInner::new(), shadow }
    }

    /// The claimed guest-physical window.
    pub fn mem_range(&self) -> (r: (usize, usize))
        requires
            self.wf(),
        ensures
            r.0 == self.base_vaddr,
            r.1 == self.base_vaddr + self.gicd_size,
    {
        (self.base_vaddr, self.base_vaddr + self.gicd_size)
    }

    /// Reads: the control register reports the enabled flag, the
    /// identity registers report the fixed identity, everything else
    /// passes through to the shadow window.
    pub fn read(&self, addr: usize, _access_size: u8) -> (r: RvmResult<u32>)
        requires
            self.wf(),
            self.base_vaddr <= addr,
            addr - self.base_vaddr < self.gicd_size,
        ensures
            r == RvmResult::<u32>::Ok(self.spec_read_value(addr - self.base_vaddr)),
            ({
                let off = addr - self.base_vaddr;
                if off == 0 {
                    r == RvmResult::<u32>::Ok(if self.inner.enabled { 1u32 } else { 0u32 })
                } else if off == 4 {
                    r == RvmResult::<u32>::Ok(VGICD_TYPER)
                } else if off == 8 {
                    r == RvmResult::<u32>::Ok(VGICD_IIDR)
                } else {
                    r == RvmResult::<u32>::Ok(self.shadow@[off / 4])
                }
            }),
    {
        let off = addr - self.base_vaddr;
        proof {
            assert(off < self.gicd_size && self.gicd_size % 4 == 0 ==> off / 4
                < self.gicd_size as int / 4) by (nonlinear_arith);
        }
        if off == 0 {
            Ok(if self.inner.enabled { 1 } else { 0 })
        } else if off == 4 {
            Ok(VGICD_TYPER)
        } else if off == 8 {
            Ok(VGICD_IIDR)
        } else {
            Ok(self.shadow[off / 4])
        }
    }

    /// Writes: the control register stores the enable bit; all
    /// other registers drop the write.
    pub fn write(&mut self, addr: usize, val: u32, _access_size: u8) -> (r: RvmResult<()>)
        requires
            old(self).wf(),
            old(self).base_vaddr <= addr,
            addr - old(self).base_vaddr < old(self).gicd_size,
        ensures
            final(self).wf(),
            r is Ok,
            addr - old(self).base_vaddr == 0 ==> *final(self) == (Vgic {
                inner: VgicdInner { enabled: val & 1 == 1 },
                ..*old(self)
            }),
            addr - old(self).base_vaddr != 0 ==> *final(self) == *old(self),
    {
        let off = addr - self.base_vaddr;
        if off == 0 {
            self.inner.enabled = val & 1 == 1;
        }
        Ok(())
    }
}

} // verus!
