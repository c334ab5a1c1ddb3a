//! Exit decoding and dispatch, interrupt routing, power service,
//! timer conversion, and the remaining platform pieces.

use hypervisor::devices::all_virt_devices;
use hypervisor::err::RvmError;
use hypervisor::exit::decode_dabt;
use hypervisor::exit::exit_class;
use hypervisor::exit::handle_hypercall;
use hypervisor::exit::handle_iabt;
use hypervisor::exit::irq_handler;
use hypervisor::exit::vmexit_handler;
use hypervisor::exit::ExitAction;
use hypervisor::exit::ExitClass;
use hypervisor::gic::Gic;
use hypervisor::gpm::GuestPhysMemorySet;
use hypervisor::lazy::LazyInit;
use hypervisor::smmu::Smmu;
use hypervisor::timer::current_time;
use hypervisor::timer::ticks_to_nanos;
use hypervisor::uart::Pl011Uart;
use hypervisor::vcpu::has_hardware_support;
use hypervisor::vcpu::ArmPerCpuState;
use hypervisor::vcpu::ArmVcpu;

#[test]
fn exit_class_decoding() {
    assert_eq!(exit_class(0x16u64 << 26), ExitClass::Hvc64);
    assert_eq!(exit_class(0x20u64 << 26), ExitClass::InstrAbortLowerEL);
    assert_eq!(exit_class(0x21u64 << 26), ExitClass::InstrAbortCurrentEL);
    assert_eq!(exit_class(0x24u64 << 26), ExitClass::DataAbortLowerEL);
    assert_eq!(exit_class(0x25u64 << 26), ExitClass::DataAbortCurrentEL);
    assert_eq!(exit_class(0), ExitClass::Unknown);
}

#[test]
fn dabt_syndrome_decoding() {
    // byte write through x3
    let esr = (0x24u64 << 26) | (0x3 << 16) | (1 << 6);
    let info = decode_dabt(esr, 0x0900_0000);
    assert_eq!(info.fault_vaddr, 0x0900_0000);
    assert_eq!(info.size, 1);
    assert_eq!(info.srt, 3);
    assert!(info.is_write);
    // 64-bit read through x9; high fault bits are masked
    let esr2 = (0x24u64 << 26) | (0x3 << 22) | (0x9 << 16);
    let info2 = decode_dabt(esr2, 0xffff_0000_1234_5678);
    assert_eq!(info2.fault_vaddr, 0x0000_1234_5678);
    assert_eq!(info2.size, 8);
    assert_eq!(info2.srt, 9);
    assert!(!info2.is_write);
}

#[test]
fn vcpu_construction_and_pc() {
    let mut v = ArmVcpu::new(0x4020_0000, 0);
    assert_eq!(v.elr, 0x4020_0000);
    assert_eq!(v.spsr, 0x3c5);
    assert_eq!(v.guest_sp, 0);
    assert_eq!(v.cpu_id(), 0);
    for i in 0..31 {
        assert_eq!(v.regs().x[i], 0);
    }
    v.advance_pc();
    assert_eq!(v.elr, 0x4020_0004);
    let cfg = v.stage2_config(0x10_0000);
    assert_eq!(cfg.0, 0x4_3594);
    assert_eq!(cfg.1, 0x10_0000);
}

#[test]
fn percpu_hardware_enable() {
    assert!(has_hardware_support());
    let mut s = ArmPerCpuState::new();
    assert!(!s.is_enabled());
    assert_eq!(s.hardware_enable(), Ok(0x8000_0029));
    assert!(s.is_enabled());
    assert!(s.hardware_disable().is_ok());
    assert!(!s.is_enabled());
}

#[test]
fn sysreg_words() {
    assert_eq!(hypervisor::sysreg::spsr_guest_initial(), 0x3c5);
    assert_eq!(hypervisor::sysreg::hcr_vm_enabled(), 0x8000_0029);
    assert_eq!(hypervisor::sysreg::vtcr_stage2(), 0x4_3594);
    assert_eq!(hypervisor::sysreg::tcr_hypervisor(), 0x2_3510);
    assert_eq!(hypervisor::sysreg::mair_hypervisor(), 0xff04);
}

#[test]
fn hypercall_unknown_code_resumes_unchanged() {
    let mut v = ArmVcpu::new(0x4020_0000, 0);
    v.regs_mut().x[0] = 0x42;
    v.regs_mut().x[1] = 1;
    v.regs_mut().x[2] = 2;
    v.regs_mut().x[3] = 3;
    v.regs_mut().x[4] = 4;
    let mut entries = vec![0usize; 2];
    let mut contexts = vec![0usize; 2];
    let r = handle_hypercall(&mut v, &mut entries, &mut contexts);
    assert_eq!(r, Ok(ExitAction::Resume));
    assert_eq!(v.regs().x[0], 0x42);
    assert_eq!(v.regs().x[1], 1);
    assert_eq!(v.regs().x[2], 2);
    assert_eq!(v.regs().x[3], 3);
    assert_eq!(v.regs().x[4], 4);
    assert_eq!(entries, vec![0, 0]);
}

#[test]
fn hypercall_cpu_on_seeds_slots() {
    let mut v = ArmVcpu::new(0x4020_0000, 0);
    v.regs_mut().x[0] = 0x8400_0003;
    v.regs_mut().x[1] = 1;
    v.regs_mut().x[2] = 0x4030_0000;
    v.regs_mut().x[3] = 0x77;
    let mut entries = vec![0usize; 2];
    let mut contexts = vec![0usize; 2];
    let r = handle_hypercall(&mut v, &mut entries, &mut contexts);
    assert_eq!(r, Ok(ExitAction::Resume));
    assert_eq!(entries[1], 0x4030_0000);
    assert_eq!(contexts[1], 0x77);
    assert_eq!(v.regs().x[0], 0);
}

#[test]
fn hypercall_cpu_off_halts() {
    let mut v = ArmVcpu::new(0x4020_0000, 0);
    v.regs_mut().x[0] = 0x8400_0008;
    let mut entries = vec![0usize; 1];
    let mut contexts = vec![0usize; 1];
    assert_eq!(handle_hypercall(&mut v, &mut entries, &mut contexts), Ok(ExitAction::HaltCpu));
}

#[test]
fn instruction_abort_is_fatal() {
    let v = ArmVcpu::new(0x4020_0000, 0);
    assert_eq!(handle_iabt(&v), Err(RvmError::ResourceBusy));
}

#[test]
fn console_write_roundtrip() {
    // guest writes 0x41 to the emulated console's data register
    let mut v = ArmVcpu::new(0x4020_0000, 0);
    v.regs_mut().x[3] = 0x41;
    let mut devices = all_virt_devices(0);
    let gpm = GuestPhysMemorySet::new(0x10_0000);
    let mut uart = Pl011Uart::new(0x0900_0000);
    let mut rings = Vec::new();
    let mut entries = vec![0usize; 1];
    let mut contexts = vec![0usize; 1];
    let esr = (0x24u64 << 26) | (0x3 << 16) | (1 << 6);
    let r = vmexit_handler(
        &mut v,
        esr,
        0x0900_0000,
        &mut devices,
        &gpm,
        &mut uart,
        &mut rings,
        &mut entries,
        &mut contexts,
    );
    assert_eq!(r, Ok(ExitAction::Resume));
    assert_eq!(uart.tx, vec![0x41]);
    assert_eq!(v.elr, 0x4020_0004);
}

#[test]
fn pad_read_returns_zero() {
    let mut v = ArmVcpu::new(0x4020_0000, 0);
    v.regs_mut().x[2] = 0xdead;
    let mut devices = all_virt_devices(0);
    let gpm = GuestPhysMemorySet::new(0x10_0000);
    let mut uart = Pl011Uart::new(0x0900_0000);
    let mut rings = Vec::new();
    let esr = (0x24u64 << 26) | (0x2 << 22) | (0x2 << 16);
    let r = hypervisor::exit::handle_dabt(
        &mut v,
        esr,
        0x0a00_0000,
        &mut devices,
        &gpm,
        &mut uart,
        &mut rings,
    );
    assert_eq!(r, Ok(ExitAction::Resume));
    assert_eq!(v.regs().x[2], 0);
    assert_eq!(v.elr, 0x4020_0004);
}

#[test]
fn unclaimed_fault_is_fatal() {
    let mut v = ArmVcpu::new(0x4020_0000, 0);
    let mut devices = all_virt_devices(0);
    let gpm = GuestPhysMemorySet::new(0x10_0000);
    let mut uart = Pl011Uart::new(0x0900_0000);
    let mut rings = Vec::new();
    let esr = (0x24u64 << 26) | (1 << 6);
    let r = hypervisor::exit::handle_dabt(
        &mut v,
        esr,
        0x0c00_0000,
        &mut devices,
        &gpm,
        &mut uart,
        &mut rings,
    );
    assert_eq!(r, Err(RvmError::OutOfMemory));
    assert_eq!(v.elr, 0x4020_0000);
}

#[test]
fn hypercall_roundtrip_through_dispatch() {
    let mut v = ArmVcpu::new(0x4020_0000, 0);
    v.regs_mut().x[0] = 0x42;
    v.regs_mut().x[1] = 1;
    v.regs_mut().x[2] = 2;
    v.regs_mut().x[3] = 3;
    v.regs_mut().x[4] = 4;
    let mut devices = all_virt_devices(0);
    let gpm = GuestPhysMemorySet::new(0x10_0000);
    let mut uart = Pl011Uart::new(0x0900_0000);
    let mut rings = Vec::new();
    let mut entries = vec![0usize; 1];
    let mut contexts = vec![0usize; 1];
    let r = vmexit_handler(
        &mut v,
        0x16u64 << 26,
        0,
        &mut devices,
        &gpm,
        &mut uart,
        &mut rings,
        &mut entries,
        &mut contexts,
    );
    assert_eq!(r, Ok(ExitAction::Resume));
    // the hypercall itself does not move the guest program counter;
    // the hardware already advanced it past the hvc instruction
    assert_eq!(v.elr, 0x4020_0000);
    for (i, want) in [(0, 0x42u64), (1, 1), (2, 2), (3, 3), (4, 4)] {
        assert_eq!(v.regs().x[i], want);
    }
}

#[test]
fn unknown_exit_class_is_fatal() {
    let mut v = ArmVcpu::new(0x4020_0000, 0);
    let mut devices = all_virt_devices(0);
    let gpm = GuestPhysMemorySet::new(0x10_0000);
    let mut uart = Pl011Uart::new(0x0900_0000);
    let mut rings = Vec::new();
    let mut entries = vec![0usize; 1];
    let mut contexts = vec![0usize; 1];
    let r = vmexit_handler(
        &mut v,
        0,
        0,
        &mut devices,
        &gpm,
        &mut uart,
        &mut rings,
        &mut entries,
        &mut contexts,
    );
    assert_eq!(r, Err(RvmError::Unsupported));
    let r2 = vmexit_handler(
        &mut v,
        0x20u64 << 26,
        0,
        &mut devices,
        &gpm,
        &mut uart,
        &mut rings,
        &mut entries,
        &mut contexts,
    );
    assert_eq!(r2, Err(RvmError::ResourceBusy));
}

#[test]
fn virtual_irq_injection() {
    // physical interrupt 33 fires while the guest runs
    let mut g = Gic::new(0x1, 0x3);
    g.init();
    assert!(irq_handler(&mut g, 33).is_ok());
    assert_eq!(g.eoir_log, vec![33]);
    assert_eq!(g.lr[0], 33 | 0x1000_0000 | (33 << 10) | 0x8000_0000);
}

#[test]
fn spurious_irq_is_ignored() {
    let mut g = Gic::new(0x1, 0x3);
    g.init();
    assert!(irq_handler(&mut g, 0x3fe).is_ok());
    assert_eq!(g.eoir_log.len(), 0);
    for i in 0..64 {
        assert_eq!(g.lr[i], 0);
    }
}

#[test]
fn find_mmio_device_windows() {
    let d = all_virt_devices(0);
    assert!(d.find_mmio_device(0x0900_0000).is_some());
    assert!(d.find_mmio_device(0x0900_0fff).is_some());
    assert!(d.find_mmio_device(0x0800_0000).is_some());
    assert!(d.find_mmio_device(0x0a00_0000).is_some());
    assert!(d.find_mmio_device(0x0a00_3e00).is_some());
    assert!(d.find_mmio_device(0x0a00_3fff).is_some());
    assert!(d.find_mmio_device(0x0a00_4000).is_none());
    assert!(d.find_mmio_device(0x0c00_0000).is_none());
    let d1 = all_virt_devices(1);
    assert!(d1.find_mmio_device(0x0a00_3d00).is_some());
    let d2 = all_virt_devices(2);
    assert!(d2.find_mmio_device(0x0a00_0000).is_none());
}

#[test]
fn smmu_feature_probe() {
    let mut s = Smmu::new(0x905_0000);
    // stage-2 support missing
    assert_eq!(s.init_features(0x2, 0), Err(RvmError::Unsupported));
    // preset queues refused
    assert_eq!(s.init_features(0x1, 0x2000_0000), Err(RvmError::Unsupported));
    // accepted: queue size exponents extracted
    let idr1 = (5u32 << 21) | (7u32 << 16);
    assert!(s.init_features(0x1, idr1).is_ok());
    assert_eq!(s.cmd_queue_size, 5);
    assert_eq!(s.event_queue_size, 7);
    let mut s2 = Smmu::new(0x905_0000);
    assert!(s2.init(0x1, idr1).is_ok());
    assert_eq!(s2.cr0, 1);
}

#[test]
fn secondary_boot_plan() {
    let ctv = vec![0usize, 0, 1];
    let mut entries = vec![0usize; 3];
    let to_start = hypervisor::psci::start_secondary_cpus(0, &ctv, &mut entries, 0x4020_0000);
    assert_eq!(to_start, vec![1, 2]);
    // core 1 shares the primary's VM: its guest starts it by
    // hypercall later. Core 2 is the first of its VM and boots the
    // guest image directly.
    assert_eq!(entries, vec![0, 0, 0x4020_0000]);
}

#[test]
fn timer_conversion() {
    assert_eq!(ticks_to_nanos(62_500_000, 62_500_000), 1_000_000_000);
    assert_eq!(ticks_to_nanos(1, 62_500_000), 16);
    assert_eq!(current_time(125_000_000, 62_500_000), 2_000_000_000);
    // non-decreasing across two reads
    let earlier = ticks_to_nanos(1000, 62_500_000);
    let later = ticks_to_nanos(1001, 62_500_000);
    assert!(earlier <= later);
}

#[test]
fn lazy_init_cell() {
    let mut cell: LazyInit<u32> = LazyInit::new();
    assert!(!cell.is_init());
    assert!(cell.try_get().is_none());
    cell.init_by(7);
    assert!(cell.is_init());
    assert_eq!(cell.try_get(), Some(&7));
    assert_eq!(*cell.get(), 7);
}

#[test]
fn boot_words_and_image_slot() {
    let (mair, tcr, hcr) = hypervisor::sysreg::hypervisor_mmu_config();
    assert_eq!(mair, 0xff04);
    assert_eq!(tcr, 0x2_3510);
    assert_eq!(hcr, 0x4000_8000_0039);
    assert_eq!(hypervisor::sysreg::hcr_boot(), 0x4000_8000_0039);
    assert_eq!(hypervisor::config::guest_image_slot(0), 0x400_1000);
}

#[test]
fn cpu_to_vm_assignment() {
    let t = hypervisor::config::cpu_to_vm_table();
    assert_eq!(t.len(), hypervisor::config::CPU_NUM);
    for &vm in &t {
        assert!(vm < hypervisor::config::VM_NUM);
    }
}
