//! Permission and attribute flags for memory mappings.

use vstd::prelude::*;

verus! {

/// What a mapping permits and what kind of memory it names.
///
/// `device` selects device-nGnRE attributes instead of normal
/// write-back cacheable memory; `user` grants unprivileged access
/// (meaningful only for stage-1 mappings).
#[derive(Clone, Copy, PartialEq, Eq, Structural, Debug)]
pub struct MemFlags {
    pub read: bool,
    pub write: bool,
    pub execute: bool,
    pub device: bool,
    pub user: bool,
}

impl MemFlags {
    /// No permissions, normal memory.
    pub fn empty() -> (r: MemFlags)
        ensures
            r == (MemFlags { read: false, write: false, execute: false, device: false, user: false }),
    {
        MemFlags { read: false, write: false, execute: false, device: false, user: false }
    }

    /// Read + write + execute, normal memory: guest RAM.
    pub fn rwx() -> (r: MemFlags)
        ensures
            r == (MemFlags { read: true, write: true, execute: true, device: false, user: false }),
    {
        MemFlags { read: true, write: true, execute: true, device: false, user: false }
    }

    /// Read + write, normal memory.
    pub fn rw() -> (r: MemFlags)
        ensures
            r == (MemFlags { read: true, write: true, execute: false, device: false, user: false }),
    {
        MemFlags { read: true, write: true, execute: false, device: false, user: false }
    }

    /// Read + write, device memory: an MMIO window.
    pub fn rw_device() -> (r: MemFlags)
        ensures
            r == (MemFlags { read: true, write: true, execute: false, device: true, user: false }),
    {
        MemFlags { read: true, write: true, execute: false, device: true, user: false }
    }
}

} // verus!
