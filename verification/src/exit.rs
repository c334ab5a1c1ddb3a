//! Guest-exit decoding and dispatch: the syndrome register's
//! exception class, the data-abort syndrome fields, hypercalls, and
//! interrupt routing.

use vstd::prelude::*;

use crate::devices::VirtDevice;
use crate::devices::VirtDeviceList;
use crate::emu::virtio::VirtQueueRing;
use crate::err::RvmError;
use crate::err::RvmResult;
use crate::gic::Gic;
use crate::gic::IAR_SPURIOUS;
use crate::gpm::GuestPhysMemorySet;
use crate::uart::Pl011Uart;
use crate::vcpu::ArmVcpu;

verus! {

/// PSCI function id: power a core on.
pub const PSCI_CPU_ON: u64 = 0x8400_0003;

/// PSCI function id: power the calling core off.
pub const PSCI_CPU_OFF: u64 = 0x8400_0008;

/// The exception classes the exit handler dispatches on, decoded
/// from bits 31..26 of the syndrome register.
#[derive(Clone, Copy, PartialEq, Eq, Structural, Debug)]
pub enum ExitClass {
    Hvc64,
    InstrAbortLowerEL,
    InstrAbortCurrentEL,
    DataAbortLowerEL,
    DataAbortCurrentEL,
    Unknown,
}

pub open spec fn spec_exit_class(esr: u64) -> ExitClass {
    let ec = (esr >> 26) & 0x3f;
    if ec == 0x16 {
        ExitClass::Hvc64
    } else if ec == 0x20 {
        ExitClass::InstrAbortLowerEL
    } else if ec == 0x21 {
        ExitClass::InstrAbortCurrentEL
    } else if ec == 0x24 {
        ExitClass::DataAbortLowerEL
    } else if ec == 0x25 {
        ExitClass::DataAbortCurrentEL
    } else {
        ExitClass::Unknown
    }
}

/// Decode the exception class of a syndrome word.
pub fn exit_class(esr: u64) -> (r: ExitClass)
    ensures
        r == spec_exit_class(esr),
{
    let ec = (esr >> 26) & 0x3f;
    if ec == 0x16 {
        ExitClass::Hvc64
    } else if ec == 0x20 {
        ExitClass::InstrAbortLowerEL
    } else if ec == 0x21 {
        ExitClass::InstrAbortCurrentEL
    } else if ec == 0x24 {
        ExitClass::DataAbortLowerEL
    } else if ec == 0x25 {
        ExitClass::DataAbortCurrentEL
    } else {
        ExitClass::Unknown
    }
}

/// The decoded instruction-specific syndrome of a data abort.
#[derive(Clone, Copy, PartialEq, Eq, Structural, Debug)]
pub struct DabtInfo {
    /// Faulting guest-physical address (low 48 bits of FAR).
    pub fault_vaddr: u64,
    /// Access width in bytes: 1, 2, 4 or 8.
    pub size: u8,
    /// Transfer register 0..31; 31 names the zero register.
    pub srt: u8,
    /// The access was a write.
    pub is_write: bool,
}

/// Decode a data abort's syndrome fields: `SAS` (bits 23..22) gives
/// the access width, `SRT` (bits 20..16) the transfer register and
/// `WnR` (bit 6) the direction; the faulting address is the low 48
/// bits of the fault address register.
pub fn decode_dabt(esr: u64, far: u64) -> (r: DabtInfo)
    ensures
        r.fault_vaddr == far & 0xffff_ffff_ffff,
        r.size == (1u64 << ((esr >> 22) & 0x3)) as u8,
        r.srt == ((esr >> 16) & 0x1f) as u8,
        r.is_write == ((esr >> 6) & 1 == 1),
        r.srt < 32,
        (esr >> 16) & 0x1f < 32,
        (esr >> 22) & 0x3 < 4,
        r.size == 1 || r.size == 2 || r.size == 4 || r.size == 8,
{
    proof {
        let e = esr;
        assert((e >> 22) & 0x3 < 4 && (e >> 16) & 0x1f < 32 && (1u64 << ((e >> 22) & 0x3)) <= 8 && (
        1u64 << ((e >> 22) & 0x3)) >= 1 && ((1u64 << ((e >> 22) & 0x3)) == 1 || (1u64 << ((e >> 22)
            & 0x3)) == 2 || (1u64 << ((e >> 22) & 0x3)) == 4 || (1u64 << ((e >> 22) & 0x3)) == 8))
            by (bit_vector);
    }
    let sas = (esr >> 22) & 0x3;
    let srt = (esr >> 16) & 0x1f;
    let is_write = (esr >> 6) & 1 == 1;
    DabtInfo {
        fault_vaddr: far & 0xffff_ffff_ffff,
        size: (1u64 << sas) as u8,
        srt: srt as u8,
        is_write,
    }
}

/// What the embedder does after a handled exit: resume the guest,
/// or park the calling core forever (a guest asked to power it
/// off).
#[derive(Clone, Copy, PartialEq, Eq, Structural, Debug)]
pub enum ExitAction {
    Resume,
    HaltCpu,
}

/// Handle a hypercall, with x0 carrying the call code and x1..x4
/// the arguments.
///
/// A PSCI `CPU_ON` records the target core's guest entry (x2) and
/// context (x3) in the per-CPU slots — the embedder orders the two
/// stores with a barrier — and reports success in x0; the core
/// itself was powered on earlier and spins on its slot. A PSCI
/// `CPU_OFF` parks the calling core. Every other code is logged and
/// ignored, with all registers unchanged.
pub fn handle_hypercall(
    vcpu: &mut ArmVcpu,
    entries: &mut Vec<usize>,
    contexts: &mut Vec<usize>,
) -> (r: RvmResult<ExitAction>)
    requires
        old(vcpu).wf(),
        old(entries)@.len() == old(contexts)@.len(),
        old(vcpu).guest_regs.x@[0] == PSCI_CPU_ON ==> old(vcpu).guest_regs.x@[1] + old(vcpu).cpu_id < old(entries)@.len() && old(vcpu).guest_regs.x@[2] <= usize::MAX && old(vcpu).guest_regs.x@[3] <= usize::MAX,
    ensures
        final(vcpu).wf(),
        r is Ok,
        old(vcpu).guest_regs.x@[0] == PSCI_CPU_ON ==> ({
            let p = (old(vcpu).guest_regs.x@[1] + old(vcpu).cpu_id) as int;
            &&& final(entries)@ == old(entries)@.update(p, old(vcpu).guest_regs.x@[2] as usize)
            &&& final(contexts)@ == old(contexts)@.update(p, old(vcpu).guest_regs.x@[3] as usize)
            &&& final(vcpu).guest_regs.x@ == old(vcpu).guest_regs.x@.update(0, 0u64)
            &&& final(vcpu).elr == old(vcpu).elr
            &&& r == RvmResult::<ExitAction>::Ok(ExitAction::Resume)
        }),
        old(vcpu).guest_regs.x@[0] == PSCI_CPU_OFF ==> *final(vcpu) == *old(vcpu) && *final(entries) == *old(entries) && *final(contexts) == *old(contexts) && r == RvmResult::<
            ExitAction,
        >::Ok(ExitAction::HaltCpu),
        old(vcpu).guest_regs.x@[0] != PSCI_CPU_ON && old(vcpu).guest_regs.x@[0] != PSCI_CPU_OFF
            ==> *final(vcpu) == *old(vcpu) && *final(entries) == *old(entries) && *final(contexts)
            == *old(contexts) && r == RvmResult::<ExitAction>::Ok(ExitAction::Resume),
{
    let code = vcpu.guest_regs.x[0];
    if code == PSCI_CPU_ON {
        let target = vcpu.guest_regs.x[1];
        let n = entries.len();
        proof {
            assert(code == old(vcpu).guest_regs.x@[0]);
            assert(target == old(vcpu).guest_regs.x@[1]);
            assert(target + vcpu.cpu_id < n);
        }
        let pcpu = (target + vcpu.cpu_id) as usize;
        let entry = vcpu.guest_regs.x[2] as usize;
        let context = vcpu.guest_regs.x[3] as usize;
        contexts[pcpu] = context;
        entries[pcpu] = entry;
        vcpu.guest_regs.x[0] = 0;
        Ok(ExitAction::Resume)
    } else if code == PSCI_CPU_OFF {
        Ok(ExitAction::HaltCpu)
    } else {
        Ok(ExitAction::Resume)
    }
}

/// An instruction abort from the guest is not forwarded: the caller
/// treats it as fatal.
pub fn handle_iabt(_vcpu: &ArmVcpu) -> (r: RvmResult<ExitAction>)
    ensures
        r == RvmResult::<ExitAction>::Err(RvmError::ResourceBusy),
{
    Err(RvmError::ResourceBusy)
}


/// Whether the device claiming a faulted address serves a read
/// there.
pub open spec fn spec_device_read_ok(dev: VirtDevice, fault: int) -> bool {
    match dev {
        VirtDevice::Console(c) => c.spec_read_ok(fault - c.base_vaddr),
        _ => true,
    }
}

/// The value a device read returns.
pub open spec fn spec_device_read_value(dev: VirtDevice, fault: int, uart: Pl011Uart) -> u32 {
    match dev {
        VirtDevice::Console(c) => c.spec_read_value(fault - c.base_vaddr, uart),
        VirtDevice::Distributor(g) => g.spec_read_value(fault - g.base_vaddr),
        VirtDevice::Pad(_) => 0u32,
        VirtDevice::Transport(t) => t.shadow@[(fault - t.base_vaddr) / 4],
    }
}

/// Whether the device claiming a faulted address accepts a write
/// there.
pub open spec fn spec_device_write_ok(
    dev: VirtDevice,
    fault: int,
    val: u32,
    gpm: GuestPhysMemorySet,
    rings: Seq<VirtQueueRing>,
) -> bool {
    match dev {
        VirtDevice::Transport(t) => t.spec_write_ok(fault - t.base_vaddr, val, gpm, rings),
        _ => true,
    }
}

/// Handle a data abort: decode the syndrome, find the emulated
/// device claiming the faulting guest-physical address, dispatch
/// the access, and step over the trapping instruction.
///
/// A fault at an address no device claims is refused as
/// `OutOfMemory` with nothing changed; the caller treats it as
/// fatal, as it treats any error a device access reports.
pub fn handle_dabt(
    vcpu: &mut ArmVcpu,
    esr: u64,
    far: u64,
    devices: &mut VirtDeviceList,
    gpm: &GuestPhysMemorySet,
    uart: &mut Pl011Uart,
    rings: &mut Vec<VirtQueueRing>,
) -> (r: RvmResult<ExitAction>)
    requires
        old(vcpu).wf(),
        old(devices).wf(),
        gpm.inv(),
        old(vcpu).elr + 4 <= u64::MAX,
    ensures
        final(vcpu).wf(),
        final(devices).wf(),
        (forall|k: int|
            0 <= k < old(devices).devices@.len() ==> !(#[trigger] old(devices).devices@[k]).spec_contains(
                (far & 0xffff_ffff_ffff) as int,
            )) ==> r == RvmResult::<ExitAction>::Err(RvmError::OutOfMemory) && *final(vcpu) == *old(
            vcpu,
        ) && *final(devices) == *old(devices) && *final(uart) == *old(uart) && *final(rings)
            == *old(rings),
        r is Ok ==> final(vcpu).elr == old(vcpu).elr + 4 && r == RvmResult::<ExitAction>::Ok(
            ExitAction::Resume,
        ),
        (esr >> 6) & 1 == 1 ==> final(vcpu).guest_regs == old(vcpu).guest_regs,
        ({
            let fault = (far & 0xffff_ffff_ffff) as int;
            let srt = (esr >> 16) & 0x1f;
            let value = if srt == 31 {
                0u64
            } else {
                old(vcpu).guest_regs.x@[srt as int]
            };
            forall|k: int|
                ((0 <= k < old(devices).devices@.len() && (esr >> 6) & 1 == 1 && r is Ok) && ((
                #[trigger] old(devices).devices@[k]) matches VirtDevice::Console(c) && fault
                    == c.base_vaddr)) ==> final(uart).tx@ == old(uart).tx@.push(
                    ((value as u32) as u8),
                )
        }),
        ({
            let fault = (far & 0xffff_ffff_ffff) as int;
            let is_write = (esr >> 6) & 1 == 1;
            let srt = (esr >> 16) & 0x1f;
            let wval = ((if srt == 31 {
                0u64
            } else {
                old(vcpu).guest_regs.x@[srt as int]
            }) as u32);
            let claimed = exists|k: int|
                0 <= k < old(devices).devices@.len() && (
                #[trigger] old(devices).devices@[k]).spec_contains(fault);
            let dev = old(devices).devices@[crate::devices::spec_claimant(*old(devices), fault)];
            &&& (claimed && is_write ==> (r is Ok <==> spec_device_write_ok(
                dev,
                fault,
                wval,
                *gpm,
                old(rings)@,
            )))
            &&& (claimed && !is_write ==> (r is Ok <==> spec_device_read_ok(dev, fault)))
            &&& (claimed && !is_write && r is Ok ==> ({
                let v = spec_device_read_value(dev, fault, *old(uart));
                &&& (srt != 31 ==> final(vcpu).guest_regs.x@ == old(vcpu).guest_regs.x@.update(
                    srt as int,
                    v as u64,
                ))
                &&& (srt == 31 ==> final(vcpu).guest_regs == old(vcpu).guest_regs)
            }))
            &&& (claimed && is_write && r is Err ==> r == RvmResult::<ExitAction>::Err(
                RvmError::InvalidParam,
            ))
            &&& (claimed && !is_write && r is Err ==> r == RvmResult::<ExitAction>::Err(
                RvmError::Unsupported,
            ))
        }),
{
    let info = decode_dabt(esr, far);
    if info.fault_vaddr > usize::MAX as u64 {
        proof {
            assert forall|k: int|
                0 <= k < devices.devices@.len() implies !(
            #[trigger] devices.devices@[k]).spec_contains((far & 0xffff_ffff_ffff) as int) by {
                assert(devices.devices@[k].wf());
            }
        }
        return Err(RvmError::OutOfMemory);
    }
    let addr = info.fault_vaddr as usize;
    let di = match devices.find_mmio_device(addr) {
        None => {
            return Err(RvmError::OutOfMemory);
        },
        Some(d) => d,
    };
    proof {
        crate::devices::lemma_claimant_is(*old(devices), (far & 0xffff_ffff_ffff) as int, di as int);
    }
    let value64: u64 = if info.is_write && info.srt != 31 {
        vcpu.guest_regs.x[info.srt as usize]
    } else {
        0
    };
    let val = value64 as u32;
    if info.is_write {
        let res: RvmResult<()> = match &mut devices.devices[di] {
            VirtDevice::Console(c) => c.write(addr, val, info.size, uart),
            VirtDevice::Distributor(g) => g.write(addr, val, info.size),
            VirtDevice::Pad(p) => p.write(addr, val, info.size),
            VirtDevice::Transport(t) => t.write(addr, val, info.size, gpm, rings),
        };
        proof {
            assert(final(devices).devices@.len() == old(devices).devices@.len());
        }
        match res {
            Err(e) => Err(e),
            Ok(()) => {
                vcpu.advance_pc();
                proof {
                    let fault = (far & 0xffff_ffff_ffff) as int;
                    let srt = (esr >> 16) & 0x1f;
                    let value = if srt == 31 {
                        0u64
                    } else {
                        old(vcpu).guest_regs.x@[srt as int]
                    };
                    assert forall|k: int|
                        0 <= k < old(devices).devices@.len() && ((#[trigger] old(
                            devices,
                        ).devices@[k]) matches VirtDevice::Console(c) && fault == c.base_vaddr)
                        implies uart.tx@ == old(uart).tx@.push(((value as u32) as u8)) by {
                        if k != di as int {
                            assert(old(devices).devices@[k].spec_contains(fault));
                            crate::devices::lemma_devices_disjoint(
                                *old(devices),
                                di as int,
                                k,
                                fault,
                            );
                        }
                        assert(k == di as int);
                        assert(value == value64);
                        assert(val == (value as u32));
                    }
                }
                Ok(ExitAction::Resume)
            },
        }
    } else {
        let rv: RvmResult<u32> = match &mut devices.devices[di] {
            VirtDevice::Console(c) => c.read(addr, info.size, uart),
            VirtDevice::Distributor(g) => g.read(addr, info.size),
            VirtDevice::Pad(p) => p.read(addr, info.size),
            VirtDevice::Transport(t) => t.read(addr, info.size),
        };
        match rv {
            Err(e) => Err(e),
            Ok(v) => {
                if info.srt != 31 {
                    vcpu.guest_regs.x[info.srt as usize] = v as u64;
                }
                vcpu.advance_pc();
                Ok(ExitAction::Resume)
            },
        }
    }
}

/// Dispatch one guest exit on the exception class of the syndrome
/// word: hypercalls, instruction aborts (fatal), data aborts, and
/// everything else (fatal). An error return makes the embedder dump
/// the register frame and stop: errors in trap handling are
/// fatal by design.
pub fn vmexit_handler(
    vcpu: &mut ArmVcpu,
    esr: u64,
    far: u64,
    devices: &mut VirtDeviceList,
    gpm: &GuestPhysMemorySet,
    uart: &mut Pl011Uart,
    rings: &mut Vec<VirtQueueRing>,
    entries: &mut Vec<usize>,
    contexts: &mut Vec<usize>,
) -> (r: RvmResult<ExitAction>)
    requires
        old(vcpu).wf(),
        old(devices).wf(),
        gpm.inv(),
        old(vcpu).elr + 4 <= u64::MAX,
        old(entries)@.len() == old(contexts)@.len(),
        old(vcpu).guest_regs.x@[0] == PSCI_CPU_ON ==> old(vcpu).guest_regs.x@[1] + old(
            vcpu,
        ).cpu_id < old(entries)@.len() && old(vcpu).guest_regs.x@[2] <= usize::MAX && old(
            vcpu,
        ).guest_regs.x@[3] <= usize::MAX,
    ensures
        final(vcpu).wf(),
        final(devices).wf(),
        spec_exit_class(esr) == ExitClass::Hvc64 ==> r is Ok && final(vcpu).elr == old(vcpu).elr,
        spec_exit_class(esr) == ExitClass::Hvc64 && old(vcpu).guest_regs.x@[0] != PSCI_CPU_ON
            && old(vcpu).guest_regs.x@[0] != PSCI_CPU_OFF ==> *final(vcpu) == *old(vcpu) && r
            == RvmResult::<ExitAction>::Ok(ExitAction::Resume),
        spec_exit_class(esr) == ExitClass::Hvc64 && old(vcpu).guest_regs.x@[0] == PSCI_CPU_OFF
            ==> r == RvmResult::<ExitAction>::Ok(ExitAction::HaltCpu),
        spec_exit_class(esr) == ExitClass::InstrAbortLowerEL || spec_exit_class(esr)
            == ExitClass::InstrAbortCurrentEL ==> r == RvmResult::<ExitAction>::Err(
            RvmError::ResourceBusy,
        ),
        spec_exit_class(esr) == ExitClass::Unknown ==> r == RvmResult::<ExitAction>::Err(
            RvmError::Unsupported,
        ),
        (spec_exit_class(esr) == ExitClass::DataAbortLowerEL || spec_exit_class(esr)
            == ExitClass::DataAbortCurrentEL) && r is Ok ==> final(vcpu).elr == old(vcpu).elr + 4,
        (spec_exit_class(esr) == ExitClass::DataAbortLowerEL || spec_exit_class(esr)
            == ExitClass::DataAbortCurrentEL) ==> ({
            let fault = (far & 0xffff_ffff_ffff) as int;
            let is_write = (esr >> 6) & 1 == 1;
            let srt = (esr >> 16) & 0x1f;
            let wval = ((if srt == 31 {
                0u64
            } else {
                old(vcpu).guest_regs.x@[srt as int]
            }) as u32);
            let claimed = exists|k: int|
                0 <= k < old(devices).devices@.len() && (
                #[trigger] old(devices).devices@[k]).spec_contains(fault);
            let dev = old(devices).devices@[crate::devices::spec_claimant(*old(devices), fault)];
            &&& (!claimed ==> r == RvmResult::<ExitAction>::Err(RvmError::OutOfMemory))
            &&& (claimed && is_write ==> (r is Ok <==> spec_device_write_ok(
                dev,
                fault,
                wval,
                *gpm,
                old(rings)@,
            )))
            &&& (claimed && !is_write ==> (r is Ok <==> spec_device_read_ok(dev, fault)))
            &&& (claimed && is_write && r is Err ==> r == RvmResult::<ExitAction>::Err(
                RvmError::InvalidParam,
            ))
            &&& (claimed && !is_write && r is Err ==> r == RvmResult::<ExitAction>::Err(
                RvmError::Unsupported,
            ))
        }),
{
    let class = exit_class(esr);
    match class {
        ExitClass::Hvc64 => handle_hypercall(vcpu, entries, contexts),
        ExitClass::InstrAbortLowerEL => handle_iabt(vcpu),
        ExitClass::InstrAbortCurrentEL => handle_iabt(vcpu),
        ExitClass::DataAbortLowerEL => handle_dabt(vcpu, esr, far, devices, gpm, uart, rings),
        ExitClass::DataAbortCurrentEL => handle_dabt(vcpu, esr, far, devices, gpm, uart, rings),
        ExitClass::Unknown => Err(RvmError::Unsupported),
    }
}

/// An interrupt arrived while the guest ran: acknowledge it, retire
/// it on the physical CPU interface, and inject it into the guest
/// through a free list register.
#[verifier::rlimit(60)]
pub fn irq_handler(gic: &mut Gic, iar: u32) -> (r: RvmResult<()>)
    requires
        old(gic).wf(),
    ensures
        final(gic).wf(),
        r is Ok,
        iar >= IAR_SPURIOUS ==> *final(gic) == *old(gic),
        iar < IAR_SPURIOUS ==> final(gic).eoir_log@ == old(gic).eoir_log@.push(iar),
        iar < IAR_SPURIOUS && (old(gic).spec_holds_virq(iar) || old(gic).spec_all_lrs_busy())
            ==> final(gic).lr@ == old(gic).lr@,
        iar < IAR_SPURIOUS && !old(gic).spec_holds_virq(iar) && !old(gic).spec_all_lrs_busy()
            ==> final(gic).lr@ == old(gic).lr@.update(
            choose|i: int|
                0 <= i < old(gic).spec_lr_num() && (#[trigger] old(gic).lr@[i]) == 0 && forall|
                    k: int,
                | 0 <= k < i ==> old(gic).lr@[k] != 0,
            crate::gic::spec_lr_value(iar),
        ),
{
    let pending = gic.pending_irq(iar);
    match pending {
        None => {
            proof {
                assert(iar >= IAR_SPURIOUS);
            }
            Ok(())
        },
        Some(vector) => {
            proof {
                assert(iar < IAR_SPURIOUS);
                assert(vector == iar as usize);
                assert(vector as u32 == iar);
            }
            gic.eoi(vector as u32);
            let ghost mid = *gic;
            proof {
                assert(mid.lr@ == old(gic).lr@ && mid.vtr == old(gic).vtr);
                assert(mid.spec_lr_num() == old(gic).spec_lr_num());
                assert(mid.spec_holds_virq(iar) <==> old(gic).spec_holds_virq(iar)) by {
                    if mid.spec_holds_virq(iar) {
                        let i = choose|i: int|
                            0 <= i < mid.spec_lr_num() && (#[trigger] mid.lr@[i]) != 0
                                && mid.lr@[i] & crate::gic::LR_VIRTIRQ_MASK == iar;
                        assert((old(gic).lr@[i]) != 0 && old(gic).lr@[i]
                            & crate::gic::LR_VIRTIRQ_MASK == iar);
                    }
                    if old(gic).spec_holds_virq(iar) {
                        let i = choose|i: int|
                            0 <= i < old(gic).spec_lr_num() && (#[trigger] old(gic).lr@[i]) != 0
                                && old(gic).lr@[i] & crate::gic::LR_VIRTIRQ_MASK == iar;
                        assert((mid.lr@[i]) != 0 && mid.lr@[i] & crate::gic::LR_VIRTIRQ_MASK
                            == iar);
                    }
                }
                assert(mid.spec_all_lrs_busy() <==> old(gic).spec_all_lrs_busy());
            }
            gic.inject_irq(vector as u32);
            proof {
                if iar < IAR_SPURIOUS && !old(gic).spec_holds_virq(iar) && !old(
                    gic,
                ).spec_all_lrs_busy() {
                    assert(exists|i: int|
                        0 <= i < old(gic).spec_lr_num() && #[trigger] old(gic).lr@[i] == 0);
                    assert(old(gic).spec_lr_num() <= 32) by {
                        let v = old(gic).vtr;
                        assert(v & 0x1f < 32) by (bit_vector);
                    }
                    crate::gic::lemma_lowest_free_lr(old(gic).lr@, old(gic).spec_lr_num());
                    let lw = choose|i: int|
                        0 <= i < old(gic).spec_lr_num() && #[trigger] old(gic).lr@[i] == 0
                            && forall|k: int| 0 <= k < i ==> old(gic).lr@[k] != 0;
                    assert(0 <= lw < mid.spec_lr_num() && mid.lr@[lw] == 0 && forall|k: int|
                        0 <= k < lw ==> mid.lr@[k] != 0);
                    let cm = choose|i: int|
                        0 <= i < mid.spec_lr_num() && (#[trigger] mid.lr@[i]) == 0 && forall|
                            k: int,
                        | 0 <= k < i ==> mid.lr@[k] != 0;
                    let co = choose|i: int|
                        0 <= i < old(gic).spec_lr_num() && (#[trigger] old(gic).lr@[i]) == 0
                            && forall|k: int| 0 <= k < i ==> old(gic).lr@[k] != 0;
                    assert(!mid.spec_all_lrs_busy());
                    assert(exists|i: int|
                        0 <= i < mid.spec_lr_num() && (#[trigger] mid.lr@[i]) == 0 && forall|
                            k: int,
                        | 0 <= k < i ==> mid.lr@[k] != 0);
                    assert(exists|i: int|
                        0 <= i < old(gic).spec_lr_num() && (#[trigger] old(gic).lr@[i]) == 0
                            && forall|k: int| 0 <= k < i ==> old(gic).lr@[k] != 0);
                    assert(0 <= cm < mid.spec_lr_num() && mid.lr@[cm] == 0 && forall|k: int|
                        0 <= k < cm ==> mid.lr@[k] != 0);
                    assert(0 <= co < old(gic).spec_lr_num() && old(gic).lr@[co] == 0 && forall|
                        k: int,
                    | 0 <= k < co ==> old(gic).lr@[k] != 0);
                    if cm != co {
                        if cm < co {
                            assert(old(gic).lr@[cm] != 0);
                            assert(mid.lr@[cm] != 0);
                        } else {
                            assert(mid.lr@[co] != 0);
                            assert(old(gic).lr@[co] != 0);
                        }
                    }
                    assert(cm == co);
                }
            }
            Ok(())
        },
    }
}

} // verus!
