//! Address arithmetic, translation descriptors, and the guest
//! physical memory set.

use hypervisor::addr::align_down;
use hypervisor::addr::align_up;
use hypervisor::addr::is_aligned;
use hypervisor::addr::phys_to_virt;
use hypervisor::addr::virt_to_phys;
use hypervisor::addr::PAGE_SIZE;
use hypervisor::flags::MemFlags;
use hypervisor::gpm::setup_gpm;
use hypervisor::gpm::GuestMemoryRegion;
use hypervisor::gpm::GuestPhysMemorySet;
use hypervisor::err::RvmError;
use hypervisor::frames::PhysFrameAllocator;

#[test]
fn identity_address_maps() {
    assert_eq!(phys_to_virt(0x4000_0000), 0x4000_0000);
    assert_eq!(virt_to_phys(0x1234_5000), 0x1234_5000);
}

#[test]
fn align_up_law_on_samples() {
    for &x in &[0usize, 1, 0xfff, 0x1000, 0x1001, 0x7fff_fff7] {
        let up = align_up(x);
        assert!(up >= x);
        assert!(up - x < PAGE_SIZE);
        assert!(is_aligned(up));
    }
    assert_eq!(align_up(0x1001), 0x2000);
    assert_eq!(align_up(0x2000), 0x2000);
}

#[test]
fn align_down_values() {
    assert_eq!(align_down(0x1fff), 0x1000);
    assert_eq!(align_down(0x1000), 0x1000);
    assert_eq!(align_down(0xfff), 0);
    assert!(is_aligned(0x3000));
    assert!(!is_aligned(0x3001));
}

#[test]
fn stage2_table_descriptor_bits() {
    let t = hypervisor::stage2::PageTableEntry::new_table(0x8000_1000);
    assert_eq!(t.0, 0x7ff | 0x8000_1000);
    assert!(t.is_present());
    assert!(!t.is_huge());
    assert_eq!(t.paddr(), 0x8000_1000);
}

#[test]
fn stage2_page_descriptor_bits() {
    let rwx = MemFlags { read: true, write: true, execute: true, device: false, user: false };
    let p = hypervisor::stage2::PageTableEntry::new_page(0x4020_0000, rwx, false);
    // normal memory (idx 15, inner shareable), valid+readable+writable,
    // access flag, page bit, output address
    assert_eq!(p.0, 0x33c | 0x41 | 0x80 | 0x400 | 0x2 | 0x4020_0000);
    assert_eq!(p.paddr(), 0x4020_0000);
    let f = p.flags();
    assert!(f.read && f.write && f.execute && !f.device && !f.user);

    let dev = MemFlags { read: true, write: true, execute: false, device: true, user: false };
    let b = hypervisor::stage2::PageTableEntry::new_page(0x0900_0000, dev, true);
    assert!(b.is_huge());
    let fb = b.flags();
    assert!(fb.device && !fb.execute);
}

#[test]
fn stage1_boot_blocks() {
    let (dev, normal) = hypervisor::stage1::boot_block_entries();
    assert_eq!(dev.paddr(), 0);
    assert!(dev.is_huge());
    let fd = dev.flags();
    assert!(fd.device && fd.read && fd.write && !fd.execute);
    assert_eq!(normal.paddr(), 0x4000_0000);
    let fn_ = normal.flags();
    assert!(!fn_.device && fn_.execute);
}

#[test]
fn stage1_page_roundtrip() {
    let f = MemFlags { read: true, write: false, execute: true, device: false, user: true };
    let p = hypervisor::stage1::PageTableEntry::new_page(0x1000, f, false);
    assert_eq!(p.flags(), f);
    let mut q = p;
    q.clear();
    assert!(q.is_unused());
}

#[test]
fn map_region_and_translate() {
    let mut gpm = GuestPhysMemorySet::new(0x10_0000);
    let r = GuestMemoryRegion {
        gpa: 0x4000_0000,
        hpa: 0x8000_0000,
        size: 0x4000,
        flags: MemFlags { read: true, write: true, execute: true, device: false, user: false },
    };
    assert!(gpm.map_region(r).is_ok());
    assert_eq!(gpm.gpa_to_hpa(0x4000_0000), Some(0x8000_0000));
    assert_eq!(gpm.gpa_to_hpa(0x4000_0123), Some(0x8000_0123));
    assert_eq!(gpm.gpa_to_hpa(0x4000_3fff), Some(0x8000_3fff));
    assert_eq!(gpm.gpa_to_hpa(0x4000_4000), None);
    assert_eq!(gpm.gpa_to_hpa(0x3fff_ffff), None);
}

#[test]
fn map_region_rejects_overlap() {
    let mut gpm = GuestPhysMemorySet::new(0x10_0000);
    let f = MemFlags { read: true, write: true, execute: false, device: false, user: false };
    let a = GuestMemoryRegion { gpa: 0x1000_0000, hpa: 0x2000_0000, size: 0x2000, flags: f };
    let b = GuestMemoryRegion { gpa: 0x1000_1000, hpa: 0x3000_0000, size: 0x2000, flags: f };
    assert!(gpm.map_region(a).is_ok());
    assert_eq!(gpm.map_region(b), Err(RvmError::InvalidParam));
    // the refused call changed nothing
    assert_eq!(gpm.gpa_to_hpa(0x1000_1000), Some(0x2000_1000));
    assert_eq!(gpm.gpa_to_hpa(0x1000_2000), None);
}

#[test]
fn map_region_rejects_malformed() {
    let mut gpm = GuestPhysMemorySet::new(0x10_0000);
    let f = MemFlags { read: true, write: true, execute: false, device: false, user: false };
    let unaligned = GuestMemoryRegion { gpa: 0x1000_0001, hpa: 0x2000_0000, size: 0x1000, flags: f };
    assert_eq!(gpm.map_region(unaligned), Err(RvmError::InvalidParam));
    let empty = GuestMemoryRegion { gpa: 0x1000_0000, hpa: 0x2000_0000, size: 0, flags: f };
    assert_eq!(gpm.map_region(empty), Err(RvmError::InvalidParam));
    let unreadable = GuestMemoryRegion {
        gpa: 0x1000_0000,
        hpa: 0x2000_0000,
        size: 0x1000,
        flags: MemFlags { read: false, write: true, execute: false, device: false, user: false },
    };
    assert_eq!(gpm.map_region(unreadable), Err(RvmError::InvalidParam));
}

#[test]
fn setup_gpm_standard_layout() {
    let g = setup_gpm(0x10_0000, 0x9000_0000, 0xa000_0000, 0x2000, 0xa100_0000, 0x20_0000)
        .unwrap();
    assert_eq!(g.nest_page_table_root(), 0x10_0000);
    // guest RAM
    assert_eq!(g.gpa_to_hpa(0x4000_0000), Some(0x9000_0000));
    assert_eq!(g.gpa_to_hpa(0x4080_0000), Some(0x9080_0000));
    // console window, identity
    assert_eq!(g.gpa_to_hpa(0x0900_0000), Some(0x0900_0000));
    // distributor window, identity
    assert_eq!(g.gpa_to_hpa(0x0800_0004), Some(0x0800_0004));
    // CPU interface window passes through to the virtual interface
    assert_eq!(g.gpa_to_hpa(0x0801_0000), Some(0x0804_0000));
    // device tree and ramdisk images
    assert_eq!(g.gpa_to_hpa(0x4a00_0800), Some(0xa000_0800));
    assert_eq!(g.gpa_to_hpa(0x4800_0000), Some(0xa100_0000));
    // between the windows nothing resolves
    assert_eq!(g.gpa_to_hpa(0x0802_0000), None);
}

#[test]
fn stage2_walk_matches_regions() {
    let g = setup_gpm(0x10_0000, 0x9000_0000, 0xa000_0000, 0x2000, 0xa100_0000, 0x20_0000)
        .unwrap();
    // guest RAM resolves through the four-level walk
    let (hpa, leaf) = g.npt.translate(0x4000_0123).unwrap();
    assert_eq!(hpa, 0x9000_0123);
    assert_eq!(leaf & 1, 1);
    // unmapped space walks to nothing
    assert!(g.npt.translate(0x0802_0000).is_none());
    assert!(g.npt.translate(0).is_none());
    // the console window maps as device memory (attribute index 1)
    // without execute
    let (h2, leaf2) = g.npt.translate(0x0900_0000).unwrap();
    assert_eq!(h2, 0x0900_0000);
    assert_eq!((leaf2 >> 2) & 0xf, 1);
    assert_ne!(leaf2 & (1u64 << 54), 0);
    // the pass-through window for the CPU interface
    let (h3, _) = g.npt.translate(0x0801_2345).unwrap();
    assert_eq!(h3, 0x0804_2345);
}

#[test]
fn map_region_reports_exhaustion() {
    // a table root parked at the very top of the addressable range
    // leaves no room for further table frames
    let base: usize = 0x1_0000_0000_0000 - 0x2000;
    let mut gpm = GuestPhysMemorySet::new(base);
    let r = GuestMemoryRegion {
        gpa: 0x4000_0000,
        hpa: 0x8000_0000,
        size: 0x1000,
        flags: MemFlags { read: true, write: true, execute: false, device: false, user: false },
    };
    assert_eq!(gpm.map_region(r), Err(RvmError::OutOfMemory));
    assert_eq!(gpm.gpa_to_hpa(0x4000_0000), None);
}

#[test]
fn frame_allocator_first_fit() {
    let mut a = PhysFrameAllocator::new(0x4000_0000, 4);
    assert_eq!(a.free_frames(), 4);
    assert_eq!(a.allocate_frame(), Some(0x4000_0000));
    assert_eq!(a.allocate_frame(), Some(0x4000_1000));
    assert_eq!(a.allocate_frame(), Some(0x4000_2000));
    assert_eq!(a.allocate_frame(), Some(0x4000_3000));
    assert_eq!(a.allocate_frame(), None);
    a.deallocate_frame(0x4000_1000);
    assert_eq!(a.free_frames(), 1);
    // the freed frame is handed out again
    assert_eq!(a.allocate_frame(), Some(0x4000_1000));
    assert_eq!(a.allocate_frame(), None);
}

#[test]
fn device_bring_up() {
    let mut console = hypervisor::uart::Pl011Uart::new(0x0900_0000);
    hypervisor::init_early(&mut console);
    assert_eq!(console.cr, 0x301);
    let mut intc = hypervisor::gic::Gic::new(0x1, 0x3);
    hypervisor::init(&mut intc);
    assert_eq!(intc.ctlr, 1);
    assert_eq!(intc.max_irqs, 64);
}

#[test]
fn gpm_slot_is_built_once() {
    let mut slot = None;
    let root = hypervisor::gpm::gpm_of_vm(
        &mut slot,
        0x10_0000,
        0x9000_0000,
        0xa000_0000,
        0x2000,
        0xa100_0000,
        0x20_0000,
    )
    .unwrap();
    assert_eq!(root, 0x10_0000);
    assert!(slot.is_some());
    // a second core of the same VM reuses the stored set
    let root2 = hypervisor::gpm::gpm_of_vm(&mut slot, 0, 0, 0, 0, 0, 0).unwrap();
    assert_eq!(root2, 0x10_0000);
    assert_eq!(slot.as_ref().unwrap().gpa_to_hpa(0x4000_0000), Some(0x9000_0000));
}
