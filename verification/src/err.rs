//! Error taxonomy of the hypervisor core.

use vstd::prelude::*;

verus! {

/// Why an operation was refused.
#[derive(Clone, Copy, PartialEq, Eq, Structural, Debug)]
pub enum RvmError {
    /// A hardware feature is required but absent.
    Unsupported,
    /// The caller passed an out-of-range address or size.
    InvalidParam,
    /// An allocator is exhausted or an MMIO address is unclaimed.
    OutOfMemory,
    /// An instruction abort arrived from the guest.
    ResourceBusy,
}

pub type RvmResult<T> = Result<T, RvmError>;

} // verus!
