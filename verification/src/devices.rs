//! Per-VM registry of emulated MMIO devices, with address dispatch.

use vstd::prelude::*;

use crate::emu::dummy::Dummy;
use crate::emu::pl011::Pl011;
use crate::emu::vgic::Vgic;
use crate::emu::virtio::Virtio;

verus! {

/// One emulated device and the window it claims.
pub enum VirtDevice {
    Console(Pl011),
    Distributor(Vgic),
    Pad(Dummy),
    Transport(Virtio),
}

impl VirtDevice {
    pub open spec fn wf(self) -> bool {
        match self {
            VirtDevice::Console(d) => d.wf(),
            VirtDevice::Distributor(d) => d.wf(),
            VirtDevice::Pad(d) => d.base_vaddr + d.dummy_size <= usize::MAX,
            VirtDevice::Transport(d) => d.wf(),
        }
    }

    /// The claimed guest-physical window, as base and one-past-end.
    pub open spec fn spec_range(self) -> (int, int) {
        match self {
            VirtDevice::Console(d) => (d.base_vaddr as int, d.base_vaddr + 0x1000),
            VirtDevice::Distributor(d) => (d.base_vaddr as int, d.base_vaddr + d.gicd_size),
            VirtDevice::Pad(d) => (d.base_vaddr as int, d.base_vaddr + d.dummy_size),
            VirtDevice::Transport(d) => (d.base_vaddr as int, d.base_vaddr + 0x200),
        }
    }

    pub open spec fn spec_contains(self, addr: int) -> bool {
        self.spec_range().0 <= addr < self.spec_range().1
    }

    /// The claimed guest-physical window.
    pub fn mem_range(&self) -> (r: (usize, usize))
        requires
            self.wf(),
        ensures
            r.0 == self.spec_range().0,
            r.1 == self.spec_range().1,
    {
        match self {
            VirtDevice::Console(d) => d.mem_range(),
            VirtDevice::Distributor(d) => d.mem_range(),
            VirtDevice::Pad(d) => d.mem_range(),
            VirtDevice::Transport(d) => d.mem_range(),
        }
    }
}

pub struct VirtDeviceList {
    pub devices: Vec<VirtDevice>,
}

impl VirtDeviceList {
    /// Every device well-formed, and no two claimed windows
    /// overlap.
    pub open spec fn wf(self) -> bool {
        &&& (forall|i: int| 0 <= i < self.devices@.len() ==> (#[trigger] self.devices@[i]).wf())
        &&& (forall|i: int, j: int|
            0 <= i < self.devices@.len() && 0 <= j < self.devices@.len() && i != j ==> (
            #[trigger] self.devices@[i]).spec_range().1 <= (
            #[trigger] self.devices@[j]).spec_range().0 || self.devices@[j].spec_range().1
                <= self.devices@[i].spec_range().0)
    }

    /// The first device whose window contains `addr`.
    pub fn find_mmio_device(&self, addr: usize) -> (r: Option<usize>)
        requires
            self.wf(),
        ensures
            r matches Some(i) ==> i < self.devices@.len() && self.devices@[i as int].spec_contains(
                addr as int,
            ),
            r is None ==> forall|i: int|
                0 <= i < self.devices@.len() ==> !(#[trigger] self.devices@[i]).spec_contains(
                    addr as int,
                ),
    {
        let n = self.devices.len();
        let mut i: usize = 0;
        while i < n
            invariant
                self.wf(),
                n == self.devices@.len(),
                i <= n,
                forall|k: int|
                    0 <= k < i ==> !(#[trigger] self.devices@[k]).spec_contains(addr as int),
            decreases n - i,
        {
            let (lo, hi) = self.devices[i].mem_range();
            if lo <= addr && addr < hi {
                return Some(i);
            }
            i = i + 1;
        }
        None
    }
}

/// The device claiming `addr` (unique, since windows never
/// overlap).
pub open spec fn spec_claimant(list: VirtDeviceList, addr: int) -> int {
    choose|k: int| 0 <= k < list.devices@.len() && (#[trigger] list.devices@[k]).spec_contains(addr)
}

/// `spec_claimant` picks exactly the device known to claim `addr`.
pub proof fn lemma_claimant_is(list: VirtDeviceList, addr: int, di: int)
    requires
        list.wf(),
        0 <= di < list.devices@.len(),
        list.devices@[di].spec_contains(addr),
    ensures
        exists|k: int|
            0 <= k < list.devices@.len() && (#[trigger] list.devices@[k]).spec_contains(addr),
        spec_claimant(list, addr) == di,
{
    assert(exists|k: int|
        0 <= k < list.devices@.len() && (#[trigger] list.devices@[k]).spec_contains(addr));
    let c = spec_claimant(list, addr);
    if c != di {
        lemma_devices_disjoint(list, di, c, addr);
    }
}

/// Windows of distinct devices in one registry never share an
/// address: the union of the MMIO ranges contains no overlap.
pub proof fn lemma_devices_disjoint(list: VirtDeviceList, i: int, j: int, addr: int)
    requires
        list.wf(),
        0 <= i < list.devices@.len(),
        0 <= j < list.devices@.len(),
        i != j,
        list.devices@[i].spec_contains(addr),
    ensures
        !list.devices@[j].spec_contains(addr),
{
}

/// The emulated devices a VM sees: the console window, the
/// interrupt distributor window, and (for the first two layouts) a
/// pad plus the paravirtual transport at the end of the pad's
/// window.
pub fn all_virt_devices(vm_id: usize) -> (r: VirtDeviceList)
    requires
        vm_id < 3,
    ensures
        r.wf(),
        r.devices@.len() == (if vm_id == 0 {
            4int
        } else if vm_id == 1 {
            5int
        } else {
            2int
        }),
        r.devices@[0] matches VirtDevice::Console(c) && c.base_vaddr == 0x0900_0000
            && c.fifo.view().len() == 0,
        r.devices@[1] matches VirtDevice::Distributor(g) && g.base_vaddr == 0x0800_0000
            && g.gicd_size == 0x10000 && !g.inner.enabled,
        vm_id == 0 ==> (r.devices@[2] matches VirtDevice::Pad(p) && p.base_vaddr == 0x0a00_0000
            && p.dummy_size == 0x3e00) && (r.devices@[3] matches VirtDevice::Transport(t)
            && t.base_vaddr == 0x0a00_3e00 && t.info.queues@.len() == 0),
        vm_id == 1 ==> (r.devices@[2] matches VirtDevice::Pad(p) && p.base_vaddr == 0x0a00_0000
            && p.dummy_size == 0x3c00) && (r.devices@[3] matches VirtDevice::Transport(t)
            && t.base_vaddr == 0x0a00_3c00 && t.info.queues@.len() == 0) && (r.devices@[4] matches
            VirtDevice::Pad(p2) && p2.base_vaddr == 0x0a00_3e00 && p2.dummy_size == 0x200),
{
    let mut devices: Vec<VirtDevice> = Vec::new();
    devices.push(VirtDevice::Console(Pl011::new(0x0900_0000)));
    devices.push(VirtDevice::Distributor(Vgic::new(0x0800_0000, 0x10000)));
    if vm_id == 0 {
        devices.push(VirtDevice::Pad(Dummy::new(0x0a00_0000, 0x3e00)));
        devices.push(VirtDevice::Transport(Virtio::new(0x0a00_3e00)));
    } else if vm_id == 1 {
        devices.push(VirtDevice::Pad(Dummy::new(0x0a00_0000, 0x3c00)));
        devices.push(VirtDevice::Transport(Virtio::new(0x0a00_3c00)));
        devices.push(VirtDevice::Pad(Dummy::new(0x0a00_3e00, 0x200)));
    }
    let r = VirtDeviceList { devices };
    proof {
        assert forall|i: int, j: int|
            0 <= i < r.devices@.len() && 0 <= j < r.devices@.len() && i != j implies (
        #[trigger] r.devices@[i]).spec_range().1 <= (#[trigger] r.devices@[j]).spec_range().0
            || r.devices@[j].spec_range().1 <= r.devices@[i].spec_range().0 by {}
    }
    r
}

} // verus!
