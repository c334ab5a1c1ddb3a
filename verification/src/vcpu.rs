//! VCPU context: the guest register frame and the per-CPU
//! virtualization state.
//!
//! The frame holds the 31 general registers, the guest stack
//! pointer, the saved guest program counter (exception link
//! register), the saved program status and the host stack top, in
//! the order the entry/exit trampoline saves and restores them. The
//! trampoline itself (context save/restore and exception return) is
//! assembly outside this crate.

use vstd::prelude::*;

use crate::err::RvmResult;
use crate::exit::exit_class;
use crate::exit::ExitClass;
use crate::sysreg::hcr_vm_enabled;
use crate::sysreg::spsr_guest_initial;
use crate::sysreg::vtcr_stage2;

verus! {

/// The 31 general-purpose registers x0..x30.
pub struct GeneralRegisters {
    pub x: Vec<u64>,
}

impl GeneralRegisters {
    pub open spec fn wf(self) -> bool {
        self.x@.len() == 31
    }

    /// All registers zero.
    pub fn zeroed() -> (r: GeneralRegisters)
        ensures
            r.wf(),
            forall|i: int| 0 <= i < 31 ==> r.x@[i] == 0,
    {
        let mut x: Vec<u64> = Vec::new();
        let mut i: usize = 0;
        while i < 31
            invariant
                x@.len() == i,
                i <= 31,
                forall|k: int| 0 <= k < i ==> x@[k] == 0,
            decreases 31 - i,
        {
            x.push(0);
            i = i + 1;
        }
        GeneralRegisters { x }
    }
}

impl Default for GeneralRegisters {
    /// All registers zero.
    fn default() -> (r: GeneralRegisters)
        ensures
            r.wf(),
            forall|i: int| 0 <= i < 31 ==> r.x@[i] == 0,
    {
        GeneralRegisters::zeroed()
    }
}

/// What a guest exit reports: the decoded exception class and the
/// guest program counter at the exit.
pub struct ArmExitInfo {
    pub exit_reason: ExitClass,
    pub guest_pc: u64,
}

pub struct ArmVcpu {
    /// General registers of the guest.
    pub guest_regs: GeneralRegisters,
    /// Guest stack pointer (SP_EL1).
    pub guest_sp: u64,
    /// Saved guest program counter (ELR_EL2 at exit).
    pub elr: u64,
    /// Saved guest program status (SPSR_EL2 at exit).
    pub spsr: u64,
    /// Hypervisor stack top, restored on exit.
    pub host_stack_top: u64,
    /// The physical CPU this VCPU is pinned to.
    pub cpu_id: u64,
}

impl ArmVcpu {
    pub open spec fn wf(self) -> bool {
        self.guest_regs.wf()
    }

    /// A fresh VCPU entering the guest at `entry`: the saved program
    /// counter is the guest entry, the saved status is EL1h with all
    /// interrupts masked, and every register is clear.
    pub fn new(entry: u64, cpu_id: u64) -> (r: ArmVcpu)
        ensures
            r.wf(),
            r.elr == entry,
            r.spsr == 0x3c5,
            r.guest_sp == 0,
            r.host_stack_top == 0,
            r.cpu_id == cpu_id,
            forall|i: int| 0 <= i < 31 ==> r.guest_regs.x@[i] == 0,
    {
        ArmVcpu {
            guest_regs: GeneralRegisters::zeroed(),
            guest_sp: 0,
            elr: entry,
            spsr: spsr_guest_initial(),
            host_stack_top: 0,
            cpu_id,
        }
    }

    /// The values the stage-2 control registers get before the first
    /// entry: the translation control word and the table root for
    /// the base register.
    pub fn stage2_config(&self, npt_root: usize) -> (r: (u64, u64))
        ensures
            r.0 == 0x4_3594u64,
            r.1 == npt_root as u64,
    {
        (vtcr_stage2(), npt_root as u64)
    }

    /// Decode one exit: the exception class of the syndrome word and
    /// the saved guest program counter.
    pub fn exit_info(&self, esr: u64) -> (r: ArmExitInfo)
        ensures
            r.exit_reason == crate::exit::spec_exit_class(esr),
            r.guest_pc == self.elr,
    {
        ArmExitInfo { exit_reason: exit_class(esr), guest_pc: self.elr }
    }

    /// Step over the trapping instruction.
    pub fn advance_pc(&mut self)
        requires
            old(self).elr + 4 <= u64::MAX,
        ensures
            final(self).elr == old(self).elr + 4,
            *final(self) == (ArmVcpu { elr: final(self).elr, ..*old(self) }),
    {
        self.elr = self.elr + 4;
    }

    pub fn cpu_id(&self) -> (r: u64)
        ensures
            r == self.cpu_id,
    {
        self.cpu_id
    }

    pub fn regs(&self) -> (r: &GeneralRegisters)
        ensures
            *r == self.guest_regs,
    {
        &self.guest_regs
    }

    pub fn regs_mut(&mut self) -> (r: &mut GeneralRegisters)
        ensures
            *r == old(self).guest_regs,
            *final(self) == (ArmVcpu { guest_regs: *final(r), ..*old(self) }),
    {
        &mut self.guest_regs
    }
}

/// Virtualization support is architectural at EL2.
pub fn has_hardware_support() -> (r: bool)
    ensures
        r == true,
{
    true
}

/// Per-CPU virtualization state: whether stage-2 translation is
/// switched on in the hypervisor configuration register.
pub struct ArmPerCpuState {
    pub enabled: bool,
}

impl ArmPerCpuState {
    pub fn new() -> (r: ArmPerCpuState)
        ensures
            !r.enabled,
    {
        ArmPerCpuState { enabled: false }
    }

    pub fn is_enabled(&self) -> (r: bool)
        ensures
            r == self.enabled,
    {
        self.enabled
    }

    /// Switch virtualization on; the returned word is what the
    /// embedder writes to the hypervisor configuration register.
    pub fn hardware_enable(&mut self) -> (r: RvmResult<u64>)
        ensures
            final(self).enabled,
            r == RvmResult::<u64>::Ok(0x8000_0029u64),
    {
        self.enabled = true;
        Ok(hcr_vm_enabled())
    }

    pub fn hardware_disable(&mut self) -> (r: RvmResult<()>)
        ensures
            !final(self).enabled,
            r is Ok,
    {
        self.enabled = false;
        Ok(())
    }
}

} // verus!
