//! A pad device: claims an address window and absorbs all accesses.

use vstd::prelude::*;

use crate::err::RvmResult;

verus! {

pub struct Dummy {
    pub base_vaddr: usize,
    pub dummy_size: usize,
}

impl Dummy {
    pub fn new(base_vaddr: usize, dummy_size: usize) -> (r: Dummy)
        ensures
            r.base_vaddr == base_vaddr,
            r.dummy_size == dummy_size,
    {
        Dummy { base_vaddr, dummy_size }
    }

    /// The claimed guest-physical window.
    pub fn mem_range(&self) -> (r: (usize, usize))
        requires
            self.base_vaddr + self.dummy_size <= usize::MAX,
        ensures
            r.0 == self.base_vaddr,
            r.1 == self.base_vaddr + self.dummy_size,
    {
        (self.base_vaddr, self.base_vaddr + self.dummy_size)
    }

    /// Reads return zero.
    pub fn read(&self, _addr: usize, _access_size: u8) -> (r: RvmResult<u32>)
        ensures
            r == RvmResult::<u32>::Ok(0),
    {
        Ok(0)
    }

    /// Writes are absorbed.
    pub fn write(&mut self, _addr: usize, _val: u32, _access_size: u8) -> (r: RvmResult<()>)
        ensures
            r is Ok,
            *final(self) == *old(self),
    {
        Ok(())
    }
}

} // verus!
