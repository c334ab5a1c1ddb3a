//! Interrupt controller, console, and the emulated devices.

use hypervisor::emu::fifo::Fifo;
use hypervisor::emu::pl011::Pl011;
use hypervisor::emu::vgic::Vgic;
use hypervisor::emu::virtio::Descriptor;
use hypervisor::emu::virtio::VirtQueueRing;
use hypervisor::emu::virtio::Virtio;
use hypervisor::err::RvmError;
use hypervisor::gic::Gic;
use hypervisor::gpm::setup_gpm;
use hypervisor::uart::Pl011Uart;

fn fresh_gic() -> Gic {
    // one-CPU distributor with 64 interrupt lines, four list registers
    Gic::new(0x1, 0x3)
}

#[test]
fn gic_init_programs_controller() {
    let mut g = fresh_gic();
    g.init();
    assert_eq!(g.max_irqs, 64);
    assert_eq!(g.ctlr, 1);
    assert_eq!(g.gicc_ctlr, 1);
    assert_eq!(g.gich_hcr, 1);
    assert_eq!(g.gicv_ctlr, 1);
    assert_eq!(g.gicc_pmr, 0xff);
    assert_eq!(g.gicv_pmr, 0xff);
    for w in 0..32 {
        assert_eq!(g.enabled[w], 0);
        assert_eq!(g.pending[w], 0);
    }
    // shared interrupts 32..64 live in configuration words 2 and 3
    assert_eq!(g.icfgr[2], 0xaaaa_aaaa);
    assert_eq!(g.icfgr[3], 0xaaaa_aaaa);
    assert_eq!(g.icfgr[4], 0);
}

#[test]
fn gic_init_twice_is_idempotent() {
    let mut once = fresh_gic();
    once.init();
    let mut twice = fresh_gic();
    twice.init();
    twice.init();
    assert_eq!(once.max_irqs, twice.max_irqs);
    assert_eq!(once.ctlr, twice.ctlr);
    assert_eq!(once.enabled, twice.enabled);
    assert_eq!(once.pending, twice.pending);
    assert_eq!(once.icfgr, twice.icfgr);
    assert_eq!(once.itargetsr, twice.itargetsr);
    assert_eq!(once.gicc_pmr, twice.gicc_pmr);
    assert_eq!(once.gicv_pmr, twice.gicv_pmr);
}

#[test]
fn configure_interrupt_sets_config_bit() {
    let mut g = fresh_gic();
    g.init();
    // vector 33: word 2, field bit ((33 & 0xf) << 1) + 1 = 3
    g.configure_interrupt(33, true);
    assert_ne!(g.icfgr[2] & (1 << 3), 0);
    g.configure_interrupt(33, false);
    assert_eq!(g.icfgr[2] & (1 << 3), 0);
}

#[test]
fn set_enable_bits() {
    let mut g = fresh_gic();
    g.init();
    g.set_enable(33, true);
    assert_eq!(g.enabled[1], 1 << 1);
    g.set_enable(33, false);
    assert_eq!(g.enabled[1], 0);
}

#[test]
fn pending_irq_spurious_sentinel() {
    let g = fresh_gic();
    assert_eq!(g.pending_irq(0x3fe), None);
    assert_eq!(g.pending_irq(0x3ff), None);
    assert_eq!(g.pending_irq(0xffff_ffff), None);
    assert_eq!(g.pending_irq(33), Some(33));
    assert_eq!(g.pending_irq(0x3fd), Some(0x3fd));
}

#[test]
fn inject_irq_builds_list_register() {
    let mut g = fresh_gic();
    g.init();
    g.inject_irq(33);
    assert_eq!(g.lr[0], 33 | 0x1000_0000 | (33 << 10) | 0x8000_0000);
    for i in 1..64 {
        assert_eq!(g.lr[i], 0);
    }
}

#[test]
fn inject_irq_refuses_duplicate() {
    let mut g = fresh_gic();
    g.init();
    g.inject_irq(33);
    let before = g.lr.clone();
    g.inject_irq(33);
    assert_eq!(g.lr, before);
}

#[test]
fn inject_irq_with_full_pool_changes_nothing() {
    let mut g = fresh_gic();
    g.init();
    let n = g.lr_num();
    for i in 0..n {
        g.write_lr(i, 0x1000_0000 | (100 + i as u32));
    }
    let before = g.lr.clone();
    g.inject_irq(33);
    assert_eq!(g.lr, before);
    assert_eq!(g.eoir_log.len(), 0);
}

#[test]
fn eoi_is_logged() {
    let mut g = fresh_gic();
    g.eoi(33);
    g.eoi(30);
    assert_eq!(g.eoir_log, vec![33, 30]);
}

#[test]
fn fifo_order_and_capacity() {
    let mut f: Fifo<16> = Fifo::new();
    assert!(f.is_empty());
    for i in 0..16u8 {
        assert!(!f.is_full());
        f.push(i);
    }
    // sixteen pushes fill the ring; a seventeenth without a pop is
    // excluded by `push`'s precondition
    assert!(f.is_full());
    for i in 0..16u8 {
        assert_eq!(f.pop(), i);
    }
    assert!(f.is_empty());
}

#[test]
fn fifo_wraps_around() {
    let mut f: Fifo<16> = Fifo::new();
    for i in 0..10u8 {
        f.push(i);
    }
    for i in 0..10u8 {
        assert_eq!(f.pop(), i);
    }
    for i in 10..22u8 {
        f.push(i);
    }
    for i in 10..22u8 {
        assert_eq!(f.pop(), i);
    }
}

#[test]
fn uart_init_and_streams() {
    let mut u = Pl011Uart::new(0x0900_0000);
    u.init();
    assert_eq!(u.icr, 0x3ff);
    assert_eq!(u.ifls, 0);
    assert_eq!(u.imsc, 0x10);
    assert_eq!(u.cr, 0x301);
    u.putchar(b'h');
    u.putchar(b'i');
    assert_eq!(u.tx, vec![b'h', b'i']);
    assert_eq!(u.getchar(), None);
    u.rx.push(b'x');
    u.rx.push(b'y');
    assert_eq!(u.getchar(), Some(b'x'));
    assert_eq!(u.getchar(), Some(b'y'));
    assert_eq!(u.getchar(), None);
}

#[test]
fn emulated_console_write_forwards() {
    let mut dev = Pl011::new(0x0900_0000);
    let mut uart = Pl011Uart::new(0x0900_0000);
    assert!(dev.write(0x0900_0000, 0x41, 1, &mut uart).is_ok());
    assert_eq!(uart.tx, vec![0x41]);
    // writes elsewhere in the window are dropped
    assert!(dev.write(0x0900_0030, 0x301, 4, &mut uart).is_ok());
    assert_eq!(uart.tx, vec![0x41]);
}

#[test]
fn emulated_console_read_pulls_input() {
    let mut dev = Pl011::new(0x0900_0000);
    let mut uart = Pl011Uart::new(0x0900_0000);
    // nothing pending: the flag register reports input-empty
    assert_eq!(dev.read(0x0900_0018, 4, &mut uart), Ok(0x10));
    // a pending byte is pulled into the ring on a flag read
    uart.rx.push(b'z');
    assert_eq!(dev.read(0x0900_0018, 4, &mut uart), Ok(0));
    assert_eq!(dev.read(0x0900_0000, 4, &mut uart), Ok(b'z' as u32));
    // drained again
    assert_eq!(dev.read(0x0900_0000, 4, &mut uart), Ok(0));
    // unknown offsets are refused
    assert_eq!(dev.read(0x0900_0030, 4, &mut uart), Err(RvmError::Unsupported));
}

#[test]
fn vgic_identity_and_enable() {
    let mut v = Vgic::new(0x0800_0000, 0x10000);
    assert_eq!(v.read(0x0800_0000, 4), Ok(0));
    assert_eq!(v.read(0x0800_0004, 4), Ok(hypervisor::emu::vgic::VGICD_TYPER));
    assert_eq!(v.read(0x0800_0008, 4), Ok(hypervisor::emu::vgic::VGICD_IIDR));
    assert_eq!(v.read(0x0800_0100, 4), Ok(0));
    assert!(v.write(0x0800_0000, 1, 4).is_ok());
    assert_eq!(v.read(0x0800_0000, 4), Ok(1));
    // every other write is dropped
    assert!(v.write(0x0800_0100, 0xffff_ffff, 4).is_ok());
    assert_eq!(v.read(0x0800_0100, 4), Ok(0));
}

#[test]
fn virtio_descriptor_translation() {
    let gpm = setup_gpm(0x10_0000, 0x9000_0000, 0xa000_0000, 0x2000, 0xa100_0000, 0x20_0000)
        .unwrap();
    let base = 0x0a00_3e00;
    let mut v = Virtio::new(base);
    let mut rings: Vec<VirtQueueRing> = Vec::new();

    assert!(v.write(base + 0x30, 0, 4, &gpm, &mut rings).is_ok());
    assert!(v.write(base + 0x38, 8, 4, &gpm, &mut rings).is_ok());
    // legacy page frame number 0x4_0800: guest-physical 0x4080_0000,
    // host-physical 0x9080_0000
    assert!(v.write(base + 0x40, 0x4_0800, 4, &gpm, &mut rings).is_ok());
    assert_eq!(v.read(base + 0x40, 4), Ok(0x9_0800));

    let mut descs = Vec::new();
    for i in 0..8u64 {
        descs.push(Descriptor { addr: 0x4100_0000 + i * 0x1000, len: 0x1000, flags: 0, next: 0 });
    }
    rings.push(VirtQueueRing { hpa: 0x9080_0000, descs });

    assert!(v.write(base + 0x50, 1, 4, &gpm, &mut rings).is_ok());
    for i in 0..8usize {
        assert_eq!(rings[0].descs[i].addr, 0x9100_0000 + (i as u64) * 0x1000);
        assert_eq!(rings[0].descs[i].len, 0x1000);
    }
    // a second notify leaves the already-translated addresses alone
    assert!(v.write(base + 0x50, 1, 4, &gpm, &mut rings).is_ok());
    for i in 0..8usize {
        assert_eq!(rings[0].descs[i].addr, 0x9100_0000 + (i as u64) * 0x1000);
    }
}

#[test]
fn virtio_dead_slots_stay() {
    let gpm = setup_gpm(0x10_0000, 0x9000_0000, 0xa000_0000, 0x2000, 0xa100_0000, 0x20_0000)
        .unwrap();
    let base = 0x0a00_3e00;
    let mut v = Virtio::new(base);
    let mut rings: Vec<VirtQueueRing> = Vec::new();
    assert!(v.write(base + 0x30, 0, 4, &gpm, &mut rings).is_ok());
    assert!(v.write(base + 0x38, 2, 4, &gpm, &mut rings).is_ok());
    assert!(v.write(base + 0x40, 0x4_0800, 4, &gpm, &mut rings).is_ok());
    let descs = vec![
        Descriptor { addr: 0, len: 0x1000, flags: 0, next: 0 },
        Descriptor { addr: 0x4100_0000, len: 0, flags: 0, next: 0 },
    ];
    rings.push(VirtQueueRing { hpa: 0x9080_0000, descs });
    assert!(v.write(base + 0x50, 1, 4, &gpm, &mut rings).is_ok());
    assert_eq!(rings[0].descs[0].addr, 0);
    assert_eq!(rings[0].descs[1].addr, 0x4100_0000);
}

#[test]
fn virtio_notify_without_ring_is_refused() {
    let gpm = setup_gpm(0x10_0000, 0x9000_0000, 0xa000_0000, 0x2000, 0xa100_0000, 0x20_0000)
        .unwrap();
    let base = 0x0a00_3e00;
    let mut v = Virtio::new(base);
    let mut rings: Vec<VirtQueueRing> = Vec::new();
    assert!(v.write(base + 0x30, 0, 4, &gpm, &mut rings).is_ok());
    // the selected queue has no programmed ring
    assert_eq!(v.write(base + 0x50, 1, 4, &gpm, &mut rings), Err(RvmError::InvalidParam));
}

#[test]
fn virtio_opaque_forward() {
    let gpm = setup_gpm(0x10_0000, 0x9000_0000, 0xa000_0000, 0x2000, 0xa100_0000, 0x20_0000)
        .unwrap();
    let base = 0x0a00_3e00;
    let mut v = Virtio::new(base);
    let mut rings: Vec<VirtQueueRing> = Vec::new();
    assert!(v.write(base + 0x70, 0x1234, 4, &gpm, &mut rings).is_ok());
    assert_eq!(v.read(base + 0x70, 4), Ok(0x1234));
}

#[test]
fn virtio_unmapped_pfn_is_refused() {
    let gpm = setup_gpm(0x10_0000, 0x9000_0000, 0xa000_0000, 0x2000, 0xa100_0000, 0x20_0000)
        .unwrap();
    let base = 0x0a00_3e00;
    let mut v = Virtio::new(base);
    let mut rings: Vec<VirtQueueRing> = Vec::new();
    assert!(v.write(base + 0x30, 0, 4, &gpm, &mut rings).is_ok());
    // page frame 1 names guest-physical 0x1000, which no region covers
    assert_eq!(v.write(base + 0x40, 1, 4, &gpm, &mut rings), Err(RvmError::InvalidParam));
}

#[test]
fn virtio_modern_address_halves() {
    let gpm = setup_gpm(0x10_0000, 0x9000_0000, 0xa000_0000, 0x2000, 0xa100_0000, 0x20_0000)
        .unwrap();
    let base = 0x0a00_3e00;
    let mut v = Virtio::new(base);
    let mut rings: Vec<VirtQueueRing> = Vec::new();
    // one half alone changes no shadow word
    assert!(v.write(base + 0x80, 0x4080_0000, 4, &gpm, &mut rings).is_ok());
    assert_eq!(v.read(base + 0x80, 4), Ok(0));
    // once both halves are present the host-physical halves land in
    // the backing words: guest 0x4080_0000 is host 0x9080_0000
    assert!(v.write(base + 0x84, 0, 4, &gpm, &mut rings).is_ok());
    assert_eq!(v.read(base + 0x80, 4), Ok(0x9080_0000));
    assert_eq!(v.read(base + 0x84, 4), Ok(0));
}
