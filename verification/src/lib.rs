//! A library modelling the core of a type-1 hypervisor for ARMv8-A:
//! guest physical memory management with two-stage translation,
//! interrupt-controller and console driver state, virtual-device
//! emulation, and trap decoding and dispatch.
//!
//! Hardware accesses (volatile loads and stores of device registers,
//! system-register reads and writes, the exception-return path) live
//! outside this crate; the library computes the values those accesses
//! carry and keeps a faithful model of the device state they produce.

pub mod addr;
pub mod config;
pub mod devices;
pub mod emu;
pub mod err;
pub mod exit;
pub mod flags;
pub mod frames;
pub mod gic;
pub mod gpm;
pub mod lazy;
pub mod npt;
pub mod psci;
pub mod smmu;
pub mod stage1;
pub mod stage2;
pub mod sysreg;
pub mod timer;
pub mod uart;
pub mod vcpu;

use vstd::prelude::*;

verus! {

/// Early device bring-up: program the console so diagnostics flow.
pub fn init_early(console: &mut uart::Pl011Uart)
    ensures
        final(console).icr == 0x3ff,
        final(console).cr == 0x301,
        final(console).tx@ == old(console).tx@,
{
    console.init();
}

/// Device bring-up once memory is up: program the interrupt
/// controller.
pub fn init(intc: &mut gic::Gic)
    requires
        old(intc).wf(),
    ensures
        final(intc).wf(),
        final(intc).ctlr == 1,
        final(intc).max_irqs == (((old(intc).typer & 0b11111) + 1) * 32),
{
    intc.init();
}

} // verus!
