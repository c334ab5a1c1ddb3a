//! Emulated paravirtual transport: the MMIO register window of a
//! paravirtualized device, with guest-physical ring addresses
//! rewritten to host-physical ones.
//!
//! The guest programs the ring in its own guest-physical view; the
//! transport's backing device must only ever see host-physical
//! addresses. Writes to the queue registers therefore translate the
//! addresses they carry through the VM's guest-physical memory set
//! before they reach the shadow window, and a write to the notify
//! register rewrites the `addr` field of every live descriptor of
//! the selected queue's ring in place.

use vstd::prelude::*;

use crate::addr::PAGE_SIZE;
use crate::err::RvmError;
use crate::err::RvmResult;
use crate::gpm::GuestPhysMemorySet;

verus! {

pub const VIRTIO_QUEUE_SEL: usize = 0x30;

pub const VIRTIO_QUEUE_SIZE: usize = 0x38;

pub const VIRTIO_LEGACY_PFN: usize = 0x40;

pub const VIRTIO_NOTIFY: usize = 0x50;

pub const VIRTIO_DESC_LOW: usize = 0x80;

pub const VIRTIO_DESC_HIGH: usize = 0x84;

pub const VIRTIO_DRIVER_LOW: usize = 0x90;

pub const VIRTIO_DRIVER_HIGH: usize = 0x94;

pub const VIRTIO_DEVICE_LOW: usize = 0xa0;

pub const VIRTIO_DEVICE_HIGH: usize = 0xa4;

/// Descriptor flag: the descriptor continues in `next`.
pub const DESC_F_NEXT: u16 = 1;

/// Descriptor flag: device-writable buffer.
pub const DESC_F_WRITE: u16 = 2;

/// Descriptor flag: indirect descriptor table.
pub const DESC_F_INDIRECT: u16 = 4;

/// One slot of a descriptor ring, as the guest lays it out.
#[derive(Clone, Copy, PartialEq, Eq, Structural, Debug)]
pub struct Descriptor {
    pub addr: u64,
    pub len: u32,
    pub flags: u16,
    pub next: u16,
}

/// Per-queue bookkeeping, keyed by the queue-select index.
#[derive(Clone, PartialEq, Eq, Debug)]
pub struct QueueState {
    /// The queue-select index this entry belongs to.
    pub sel: u32,
    /// Ring size the guest programmed.
    pub size: u32,
    /// Last notified available index.
    pub last_notified_idx: u16,
    /// Host-physical base of the legacy ring, once programmed.
    pub vqaddr: Option<usize>,
    /// Translated `addr` per slot; zero means not translated yet.
    pub translated: Vec<u64>,
}

/// The transport's queue bookkeeping.
pub struct VirtQueueInfo {
    pub queue_sel: u32,
    pub queues: Vec<QueueState>,
    pub desc_gpa_low: Option<u32>,
    pub desc_gpa_high: Option<u32>,
    pub driver_gpa_low: Option<u32>,
    pub driver_gpa_high: Option<u32>,
    pub device_gpa_low: Option<u32>,
    pub device_gpa_high: Option<u32>,
}

impl VirtQueueInfo {
    /// At most one entry per queue-select index.
    pub open spec fn wf(self) -> bool {
        forall|i: int, j: int|
            0 <= i < self.queues@.len() && 0 <= j < self.queues@.len() && i != j ==> (
            #[trigger] self.queues@[i]).sel != (#[trigger] self.queues@[j]).sel
    }

    pub open spec fn spec_has_queue(self, sel: u32) -> bool {
        exists|i: int| 0 <= i < self.queues@.len() && (#[trigger] self.queues@[i]).sel == sel
    }

    pub fn new() -> (r: VirtQueueInfo)
        ensures
            r.wf(),
            r.queue_sel == 0,
            r.queues@.len() == 0,
            r.desc_gpa_low is None && r.desc_gpa_high is None,
            r.driver_gpa_low is None && r.driver_gpa_high is None,
            r.device_gpa_low is None && r.device_gpa_high is None,
    {
        VirtQueueInfo {
            queue_sel: 0,
            queues: Vec::new(),
            desc_gpa_low: None,
            desc_gpa_high: None,
            driver_gpa_low: None,
            driver_gpa_high: None,
            device_gpa_low: None,
            device_gpa_high: None,
        }
    }

    /// The index of the entry for `sel`, if one exists.
    fn find_queue(&self, sel: u32) -> (r: Option<usize>)
        requires
            self.wf(),
        ensures
            r matches Some(i) ==> i < self.queues@.len() && self.queues@[i as int].sel == sel,
            r is None ==> !self.spec_has_queue(sel),
            self.spec_has_queue(sel) ==> r is Some,
    {
        let n = self.queues.len();
        let mut i: usize = 0;
        while i < n
            invariant
                n == self.queues@.len(),
                i <= n,
                forall|k: int| 0 <= k < i ==> (#[trigger] self.queues@[k]).sel != sel,
            decreases n - i,
        {
            if self.queues[i].sel == sel {
                return Some(i);
            }
            i = i + 1;
        }
        None
    }

    /// The index of the entry for `sel`, creating a zero-initialized
    /// one when absent.
    fn ensure_queue(&mut self, sel: u32) -> (r: usize)
        requires
            old(self).wf(),
        ensures
            final(self).wf(),
            (r as int) < final(self).queues@.len(),
            final(self).queues@[r as int].sel == sel,
            old(self).spec_has_queue(sel) ==> *final(self) == *old(self),
            !old(self).spec_has_queue(sel) ==> {
                &&& final(self).queues@.len() == old(self).queues@.len() + 1
                &&& r as int == old(self).queues@.len()
                &&& final(self).queues@.subrange(0, old(self).queues@.len() as int) == old(self).queues@
                &&& final(self).queues@[r as int].sel == sel
                &&& final(self).queues@[r as int].size == 0
                &&& final(self).queues@[r as int].last_notified_idx == 0
                &&& final(self).queues@[r as int].vqaddr is None
                &&& final(self).queues@[r as int].translated@ == Seq::<u64>::empty()
                &&& *final(self) == (VirtQueueInfo { queues: final(self).queues, ..*old(self) })
            },
    {
        match self.find_queue(sel) {
            Some(i) => i,
            None => {
                let i = self.queues.len();
                self.queues.push(
                    QueueState {
                        sel,
                        size: 0,
                        last_notified_idx: 0,
                        vqaddr: None,
                        translated: Vec::new(),
                    },
                );
                proof {
                    assert forall|a: int, b: int|
                        0 <= a < self.queues@.len() && 0 <= b < self.queues@.len() && a != b
                            implies (#[trigger] self.queues@[a]).sel != (
                        #[trigger] self.queues@[b]).sel by {
                        if a < i as int && b < i as int {
                        } else if a == i as int {
                            assert(self.queues@[b].sel != sel);
                        } else if b == i as int {
                            assert(self.queues@[a].sel != sel);
                        }
                    }
                }
                proof {
                    assert(self.queues@.subrange(0, old(self).queues@.len() as int) =~= old(self).queues@);
                }
                i
            },
        }
    }
}

/// A descriptor ring living in guest RAM that the hypervisor owns:
/// its host-physical base and its slots.
pub struct VirtQueueRing {
    pub hpa: usize,
    pub descs: Vec<Descriptor>,
}

/// Whether a slot carries a live buffer the device may reach for.
pub open spec fn spec_desc_live(d: Descriptor) -> bool {
    d.len != 0 && d.addr != 0
}

/// Whether the cache says slot `i` already holds a translated
/// address: a cached value exists and the slot still shows it.
pub open spec fn spec_cache_hit(translated: Seq<u64>, i: int, d: Descriptor) -> bool {
    0 <= i < translated.len() && translated[i] != 0 && translated[i] == d.addr
}

pub struct Virtio {
    pub base_vaddr: usize,
    pub info: VirtQueueInfo,
    /// Shadow of the 0x200-byte register window, one word each.
    pub shadow: Vec<u32>,
}

impl Virtio {
    pub open spec fn wf(self) -> bool {
        &&& self.info.wf()
        &&& self.shadow@.len() == 128
        &&& self.base_vaddr + 0x200 <= usize::MAX
    }

    pub fn new(base_vaddr: usize) -> (r: Virtio)
        requires
            base_vaddr + 0x200 <= usize::MAX,
        ensures
            r.wf(),
            r.base_vaddr == base_vaddr,
            r.info.queues@.len() == 0,
            forall|k: int| 0 <= k < 128 ==> r.shadow@[k] == 0,
    {
        let mut shadow: Vec<u32> = Vec::new();
        let mut i: usize = 0;
        while i < 128
            invariant
                shadow@.len() == i,
                i <= 128,
                forall|k: int| 0 <= k < i ==> shadow@[k] == 0,
            decreases 128 - i,
        {
            shadow.push(0);
            i = i + 1;
        }
        Virtio { base_vaddr, info: VirtQueueInfo::new(), shadow }
    }

    /// The claimed guest-physical window.
    pub fn mem_range(&self) -> (r: (usize, usize))
        requires
            self.wf(),
        ensures
            r.0 == self.base_vaddr,
            r.1 == self.base_vaddr + 0x200,
    {
        (self.base_vaddr, self.base_vaddr + 0x200)
    }


    /// What one notify does to slot `i`: a live, not-yet-translated
    /// slot gets its address rewritten to the host-physical
    /// translation of the guest-physical value it held, and is
    /// remembered in the cache; every other slot is untouched.
    pub open spec fn spec_slot_rel(
        gpm: GuestPhysMemorySet,
        d: Descriptor,
        c: u64,
        d2: Descriptor,
        c2: u64,
    ) -> bool {
        if spec_desc_live(d) && !(c != 0 && c == d.addr) {
            &&& gpm.spec_gpa_to_hpa(d.addr as int) is Some
            &&& d2.addr == gpm.spec_gpa_to_hpa(d.addr as int)->0
            &&& d2.len == d.len
            &&& d2.flags == d.flags
            &&& d2.next == d.next
            &&& c2 == d2.addr
        } else {
            d2 == d && c2 == c
        }
    }

    /// The cached translation for slot `i` before a notify: the
    /// recorded value, or zero where the cache had not grown yet.
    pub open spec fn spec_cache_at(cache: Seq<u64>, i: int) -> u64 {
        if 0 <= i < cache.len() {
            cache[i]
        } else {
            0
        }
    }


    /// The bookkeeping entry of queue `sel` (unique by `wf`).
    pub open spec fn spec_queue_index(info: VirtQueueInfo, sel: u32) -> int {
        choose|qi: int| 0 <= qi < info.queues@.len() && (#[trigger] info.queues@[qi]).sel == sel
    }

    /// Some supplied ring has base `hpa`.
    pub open spec fn spec_has_ring(rings: Seq<VirtQueueRing>, hpa: int) -> bool {
        exists|rj: int| 0 <= rj < rings.len() && (#[trigger] rings[rj]).hpa == hpa
    }

    /// The first supplied ring with base `hpa`: the one a notify
    /// works on.
    pub open spec fn spec_ring_index(rings: Seq<VirtQueueRing>, hpa: int) -> int {
        choose|rj: int|
            0 <= rj < rings.len() && (#[trigger] rings[rj]).hpa == hpa && forall|k: int|
                0 <= k < rj ==> rings[k].hpa != hpa
    }

    /// A slot a notify must rewrite can be rewritten: its address
    /// has a stage-2 translation (and is representable).
    pub open spec fn spec_slot_translatable(gpm: GuestPhysMemorySet, d: Descriptor, c: u64) -> bool {
        (spec_desc_live(d) && !(c != 0 && c == d.addr)) ==> (gpm.spec_gpa_to_hpa(d.addr as int)
            is Some && d.addr <= usize::MAX)
    }

    /// Everything a notify needs in order to succeed: either no
    /// queue was ever selected (the notify is a no-op), or the
    /// selected queue has a programmed ring base, a ring with that
    /// base was supplied, it is at least the programmed queue size,
    /// and every live not-yet-translated slot is translatable.
    pub open spec fn spec_notify_ok(
        info: VirtQueueInfo,
        gpm: GuestPhysMemorySet,
        rings: Seq<VirtQueueRing>,
    ) -> bool {
        !info.spec_has_queue(info.queue_sel) || {
            let q = info.queues@[Self::spec_queue_index(info, info.queue_sel)];
            &&& q.vqaddr is Some
            &&& Self::spec_has_ring(rings, q.vqaddr->0 as int)
            &&& ({
                let rj = Self::spec_ring_index(rings, q.vqaddr->0 as int);
                &&& rings[rj].descs@.len() >= q.size
                &&& forall|i: int|
                    0 <= i < q.size ==> Self::spec_slot_translatable(
                        gpm,
                        #[trigger] rings[rj].descs@[i],
                        Self::spec_cache_at(q.translated@, i),
                    )
            })
        }
    }

    /// What a successful notify did to the queue bookkeeping and the
    /// rings: nothing at all without a selected queue; otherwise the
    /// selected queue's ring got every live un-cached slot rewritten
    /// per `spec_slot_rel` and its cache brought up to date, with
    /// every other ring, slot, queue and register untouched.
    pub open spec fn spec_notify_effect(
        pre: VirtQueueInfo,
        post: VirtQueueInfo,
        gpm: GuestPhysMemorySet,
        pre_rings: Seq<VirtQueueRing>,
        post_rings: Seq<VirtQueueRing>,
    ) -> bool {
        &&& post_rings.len() == pre_rings.len()
        &&& (!pre.spec_has_queue(pre.queue_sel) ==> post == pre && post_rings == pre_rings)
        &&& (pre.spec_has_queue(pre.queue_sel) ==> {
            let qi = Self::spec_queue_index(pre, pre.queue_sel);
            let q = pre.queues@[qi];
            let rj = Self::spec_ring_index(pre_rings, q.vqaddr->0 as int);
            let size = q.size as int;
            &&& post_rings[rj].descs@.len() == pre_rings[rj].descs@.len()
            &&& post_rings[rj].hpa == pre_rings[rj].hpa
            &&& (forall|k: int|
                0 <= k < pre_rings.len() && k != rj ==> post_rings[k] == pre_rings[k])
            &&& (forall|i: int|
                0 <= i < size ==> Self::spec_slot_rel(
                    gpm,
                    #[trigger] pre_rings[rj].descs@[i],
                    Self::spec_cache_at(q.translated@, i),
                    post_rings[rj].descs@[i],
                    post.queues@[qi].translated@[i],
                ))
            &&& (forall|i: int|
                size <= i < pre_rings[rj].descs@.len() ==> post_rings[rj].descs@[i]
                    == #[trigger] pre_rings[rj].descs@[i])
            &&& post.queues@[qi].translated@.len() >= size
            &&& post.queues@[qi].sel == q.sel
            &&& post.queues@[qi].size == q.size
            &&& post.queues@[qi].vqaddr == q.vqaddr
            &&& post.queues@[qi].last_notified_idx == q.last_notified_idx
            &&& (forall|k: int|
                0 <= k < pre.queues@.len() && k != qi ==> post.queues@[k] == #[trigger] pre.queues@[k])
            &&& post.queues@.len() == pre.queues@.len()
            &&& post == (VirtQueueInfo { queues: post.queues, ..pre })
        })
    }

    /// `spec_queue_index` picks exactly the entry whose index is
    /// known.
    pub proof fn lemma_queue_index_is(info: VirtQueueInfo, sel: u32, qi: int)
        requires
            info.wf(),
            0 <= qi < info.queues@.len(),
            info.queues@[qi].sel == sel,
        ensures
            info.spec_has_queue(sel),
            Self::spec_queue_index(info, sel) == qi,
    {
        assert(info.spec_has_queue(sel));
        let qc = Self::spec_queue_index(info, sel);
        if qc != qi {
            assert(info.queues@[qc].sel == info.queues@[qi].sel);
        }
    }

    /// `spec_ring_index` picks exactly the first matching ring.
    pub proof fn lemma_ring_index_is(rings: Seq<VirtQueueRing>, hpa: int, rj: int)
        requires
            0 <= rj < rings.len(),
            rings[rj].hpa == hpa,
            forall|k: int| 0 <= k < rj ==> rings[k].hpa != hpa,
        ensures
            Self::spec_has_ring(rings, hpa),
            Self::spec_ring_index(rings, hpa) == rj,
    {
        assert(Self::spec_has_ring(rings, hpa));
        let rc = Self::spec_ring_index(rings, hpa);
        assert(0 <= rc < rings.len() && rings[rc].hpa == hpa && forall|k: int|
            0 <= k < rc ==> rings[k].hpa != hpa);
        if rc != rj {
            if rc < rj {
                assert(rings[rc].hpa != hpa);
            } else {
                assert(rings[rj].hpa != hpa);
            }
        }
    }

    /// Rewrite the selected queue's descriptor ring in place:
    /// every live descriptor whose address the guest wrote (and that
    /// is not already the cached translation) has its `addr` field
    /// replaced by the host-physical translation of the
    /// guest-physical value it held.
    ///
    /// Nothing happens when the guest never selected a queue.
    /// The call is refused as `InvalidParam`, changing nothing, when
    /// the selected queue has no programmed ring, when no ring with
    /// that base was supplied, when the ring is shorter than the
    /// programmed queue size, or when some live descriptor's address
    /// has no stage-2 translation.
    pub fn translate_desc_addr(
        &mut self,
        gpm: &GuestPhysMemorySet,
        rings: &mut Vec<VirtQueueRing>,
    ) -> (r: RvmResult<()>)
        requires
            old(self).wf(),
            gpm.inv(),
        ensures
            final(self).wf(),
            final(self).base_vaddr == old(self).base_vaddr,
            final(self).shadow@ == old(self).shadow@,
            final(self).info.queue_sel == old(self).info.queue_sel,
            final(rings)@.len() == old(rings)@.len(),
            r is Err ==> *final(self) == *old(self) && *final(rings) == *old(rings) && r
                == RvmResult::<()>::Err(RvmError::InvalidParam),
            r is Ok <==> Self::spec_notify_ok(old(self).info, *gpm, old(rings)@),
            r is Ok ==> Self::spec_notify_effect(
                old(self).info,
                final(self).info,
                *gpm,
                old(rings)@,
                final(rings)@,
            ),
    {
        let sel = self.info.queue_sel;
        let qi = match self.info.find_queue(sel) {
            None => {
                proof {
                    assert(Self::spec_notify_ok(old(self).info, *gpm, old(rings)@));
                }
                return Ok(());
            },
            Some(qi) => qi,
        };
        proof {
            assert(self.info.queues@[qi as int].sel == sel);
            Self::lemma_queue_index_is(old(self).info, sel, qi as int);
        }
        let vq = match self.info.queues[qi].vqaddr {
            None => {
                proof {
                    assert(!Self::spec_notify_ok(old(self).info, *gpm, old(rings)@));
                }
                return Err(RvmError::InvalidParam);
            },
            Some(h) => h,
        };
        let size = self.info.queues[qi].size as usize;
        let nrings = rings.len();
        let mut rj: usize = 0;
        let mut found = false;
        while rj < nrings && !found
            invariant
                nrings == rings@.len(),
                rj <= nrings,
                found ==> rj < nrings && rings@[rj as int].hpa == vq && (forall|k: int|
                    0 <= k < rj ==> rings@[k].hpa != vq),
                !found ==> forall|k: int| 0 <= k < rj ==> rings@[k].hpa != vq,
            decreases nrings - rj + (if found { 0int } else { 1int }),
        {
            if rings[rj].hpa == vq {
                found = true;
            } else {
                rj = rj + 1;
            }
        }
        if !found {
            proof {
                assert(!Self::spec_has_ring(rings@, vq as int));
                assert(!Self::spec_notify_ok(old(self).info, *gpm, old(rings)@));
            }
            return Err(RvmError::InvalidParam);
        }
        proof {
            Self::lemma_ring_index_is(rings@, vq as int, rj as int);
        }
        if rings[rj].descs.len() < size {
            proof {
                assert(!Self::spec_notify_ok(old(self).info, *gpm, old(rings)@));
            }
            return Err(RvmError::InvalidParam);
        }
        let ghost q0 = self.info.queues@[qi as int];
        let ghost descs0 = rings@[rj as int].descs@;
        let mut i: usize = 0;
        while i < size
            invariant
                old(self).info.spec_has_queue(old(self).info.queue_sel),
                Self::spec_queue_index(old(self).info, old(self).info.queue_sel) == qi as int,
                Self::spec_ring_index(old(rings)@, vq as int) == rj as int,
                vq == q0.vqaddr->0,
                q0.vqaddr is Some,
                *self == *old(self),
                rings@ == old(rings)@,
                gpm.inv(),
                self.wf(),
                qi < self.info.queues@.len(),
                rj < rings@.len(),
                size == self.info.queues@[qi as int].size,
                size <= rings@[rj as int].descs@.len(),
                q0 == self.info.queues@[qi as int],
                descs0 == rings@[rj as int].descs@,
                i <= size,
                forall|k: int|
                    0 <= k < i && spec_desc_live(#[trigger] descs0[k]) && !(Self::spec_cache_at(
                        q0.translated@,
                        k,
                    ) != 0 && Self::spec_cache_at(q0.translated@, k) == descs0[k].addr)
                        ==> gpm.spec_gpa_to_hpa(descs0[k].addr as int) is Some && descs0[k].addr
                        <= usize::MAX,
            decreases size - i,
        {
            let d = rings[rj].descs[i];
            let c: u64 = if i < self.info.queues[qi].translated.len() {
                self.info.queues[qi].translated[i]
            } else {
                0
            };
            if d.len != 0 && d.addr != 0 && !(c != 0 && c == d.addr) {
                if d.addr > usize::MAX as u64 {
                    proof {
                        assert(!Self::spec_slot_translatable(
                            *gpm,
                            descs0[i as int],
                            Self::spec_cache_at(q0.translated@, i as int),
                        ));
                        assert(!Self::spec_notify_ok(old(self).info, *gpm, old(rings)@));
                    }
                    return Err(RvmError::InvalidParam);
                }
                match gpm.gpa_to_hpa(d.addr as usize) {
                    None => {
                        proof {
                            assert(!gpm.spec_covered(d.addr as int));
                            assert(gpm.spec_gpa_to_hpa(d.addr as int) is None);
                            assert(!Self::spec_slot_translatable(
                                *gpm,
                                descs0[i as int],
                                Self::spec_cache_at(q0.translated@, i as int),
                            ));
                            assert(!Self::spec_notify_ok(old(self).info, *gpm, old(rings)@));
                        }
                        return Err(RvmError::InvalidParam);
                    },
                    Some(_) => {},
                }
            }
            i = i + 1;
        }
        proof {
            assert(Self::spec_notify_ok(old(self).info, *gpm, old(rings)@));
        }
        while self.info.queues[qi].translated.len() < size
            invariant
                qi < self.info.queues@.len(),
                self.info.wf(),
                self.wf(),
                size == self.info.queues@[qi as int].size,
                self.info.queues@[qi as int].sel == q0.sel,
                self.info.queues@[qi as int].size == q0.size,
                self.info.queues@[qi as int].vqaddr == q0.vqaddr,
                self.info.queues@[qi as int].last_notified_idx == q0.last_notified_idx,
                self.info.queues@[qi as int].translated@.len() >= q0.translated@.len() ==> (
                forall|k: int|
                    0 <= k < self.info.queues@[qi as int].translated@.len()
                        ==> #[trigger] self.info.queues@[qi as int].translated@[k]
                        == Self::spec_cache_at(q0.translated@, k)),
                self.info.queues@[qi as int].translated@.len() >= q0.translated@.len(),
                forall|k: int|
                    0 <= k < self.info.queues@.len() && k != qi ==> #[trigger] self.info.queues@[k]
                        == old(self).info.queues@[k],
                self.info.queues@.len() == old(self).info.queues@.len(),
                self.info.queue_sel == old(self).info.queue_sel,
                self.base_vaddr == old(self).base_vaddr,
                self.shadow@ == old(self).shadow@,
                self.info.desc_gpa_low == old(self).info.desc_gpa_low,
                self.info.desc_gpa_high == old(self).info.desc_gpa_high,
                self.info.driver_gpa_low == old(self).info.driver_gpa_low,
                self.info.driver_gpa_high == old(self).info.driver_gpa_high,
                self.info.device_gpa_low == old(self).info.device_gpa_low,
                self.info.device_gpa_high == old(self).info.device_gpa_high,
            decreases size - self.info.queues@[qi as int].translated@.len(),
        {
            self.info.queues[qi].translated.push(0);
        }
        let ghost cache1 = self.info.queues@[qi as int].translated@;
        let mut i2: usize = 0;
        while i2 < size
            invariant
                old(self).info.spec_has_queue(old(self).info.queue_sel),
                gpm.inv(),
                self.wf(),
                self.info.wf(),
                qi < self.info.queues@.len(),
                rj < rings@.len(),
                rings@.len() == old(rings)@.len(),
                size == self.info.queues@[qi as int].size,
                size <= rings@[rj as int].descs@.len(),
                rings@[rj as int].descs@.len() == descs0.len(),
                rings@[rj as int].hpa == old(rings)@[rj as int].hpa,
                descs0 == old(rings)@[rj as int].descs@,
                forall|k: int| 0 <= k < rings@.len() && k != rj ==> #[trigger] rings@[k] == old(rings)@[k],
                i2 <= size,
                self.info.queues@[qi as int].translated@.len() == cache1.len(),
                cache1.len() >= size,
                forall|k: int| 0 <= k < cache1.len() ==> #[trigger] cache1[k] == Self::spec_cache_at(
                    q0.translated@,
                    k,
                ),
                forall|k: int|
                    0 <= k < i2 ==> Self::spec_slot_rel(
                        *gpm,
                        #[trigger] descs0[k],
                        Self::spec_cache_at(q0.translated@, k),
                        rings@[rj as int].descs@[k],
                        self.info.queues@[qi as int].translated@[k],
                    ),
                forall|k: int|
                    i2 <= k < descs0.len() ==> #[trigger] rings@[rj as int].descs@[k] == descs0[k],
                forall|k: int|
                    i2 <= k < cache1.len()
                        ==> #[trigger] self.info.queues@[qi as int].translated@[k] == cache1[k],
                forall|k: int|
                    0 <= k < i2 && spec_desc_live(#[trigger] descs0[k]) && !(Self::spec_cache_at(
                        q0.translated@,
                        k,
                    ) != 0 && Self::spec_cache_at(q0.translated@, k) == descs0[k].addr) ==> true,
                forall|k: int|
                    i2 <= k < size && spec_desc_live(#[trigger] descs0[k]) && !(
                    Self::spec_cache_at(q0.translated@, k) != 0 && Self::spec_cache_at(
                        q0.translated@,
                        k,
                    ) == descs0[k].addr) ==> gpm.spec_gpa_to_hpa(descs0[k].addr as int) is Some
                        && descs0[k].addr <= usize::MAX,
                self.info.queues@[qi as int].sel == q0.sel,
                self.info.queues@[qi as int].size == q0.size,
                self.info.queues@[qi as int].vqaddr == q0.vqaddr,
                self.info.queues@[qi as int].last_notified_idx == q0.last_notified_idx,
                forall|k: int|
                    0 <= k < self.info.queues@.len() && k != qi ==> #[trigger] self.info.queues@[k]
                        == old(self).info.queues@[k],
                self.info.queues@.len() == old(self).info.queues@.len(),
                self.info.queue_sel == old(self).info.queue_sel,
                self.base_vaddr == old(self).base_vaddr,
                self.shadow@ == old(self).shadow@,
                self.info.desc_gpa_low == old(self).info.desc_gpa_low,
                self.info.desc_gpa_high == old(self).info.desc_gpa_high,
                self.info.driver_gpa_low == old(self).info.driver_gpa_low,
                self.info.driver_gpa_high == old(self).info.driver_gpa_high,
                self.info.device_gpa_low == old(self).info.device_gpa_low,
                self.info.device_gpa_high == old(self).info.device_gpa_high,
            decreases size - i2,
        {
            let d = rings[rj].descs[i2];
            let c: u64 = self.info.queues[qi].translated[i2];
            proof {
                assert(d == descs0[i2 as int]);
                assert(c == Self::spec_cache_at(q0.translated@, i2 as int));
            }
            if d.len != 0 && d.addr != 0 && !(c != 0 && c == d.addr) {
                proof {
                    assert(gpm.spec_gpa_to_hpa(d.addr as int) is Some && d.addr <= usize::MAX);
                }
                match gpm.gpa_to_hpa(d.addr as usize) {
                    None => {
                        proof {
                            assert(false);
                        }
                        return Err(RvmError::InvalidParam);
                    },
                    Some(h) => {
                        rings[rj].descs[i2] = Descriptor {
                            addr: h as u64,
                            len: d.len,
                            flags: d.flags,
                            next: d.next,
                        };
                        self.info.queues[qi].translated[i2] = h as u64;
                        proof {
                            assert(gpm.spec_gpa_to_hpa(d.addr as int) == Some(h as int));
                            assert(h <= usize::MAX);
                            assert((h as u64) as int == h as int);
                        }
                    },
                }
            }
            i2 = i2 + 1;
        }
        proof {
            Self::lemma_queue_index_is(old(self).info, old(self).info.queue_sel, qi as int);
            Self::lemma_ring_index_is(old(rings)@, q0.vqaddr->0 as int, rj as int);
            assert(self.info == (VirtQueueInfo { queues: self.info.queues, ..old(self).info }));
            assert(Self::spec_notify_effect(
                old(self).info,
                self.info,
                *gpm,
                old(rings)@,
                rings@,
            ));
        }
        Ok(())
    }



    /// The halves of the 64-bit pair `offset` belongs to, once the
    /// half carried by this write is stored.
    pub open spec fn spec_pair_after(pre: VirtQueueInfo, offset: int, val: u32) -> (
        Option<u32>,
        Option<u32>,
    ) {
        if offset == VIRTIO_DESC_LOW || offset == VIRTIO_DESC_HIGH {
            (
                if offset == VIRTIO_DESC_LOW {
                    Some(val)
                } else {
                    pre.desc_gpa_low
                },
                if offset == VIRTIO_DESC_HIGH {
                    Some(val)
                } else {
                    pre.desc_gpa_high
                },
            )
        } else if offset == VIRTIO_DRIVER_LOW || offset == VIRTIO_DRIVER_HIGH {
            (
                if offset == VIRTIO_DRIVER_LOW {
                    Some(val)
                } else {
                    pre.driver_gpa_low
                },
                if offset == VIRTIO_DRIVER_HIGH {
                    Some(val)
                } else {
                    pre.driver_gpa_high
                },
            )
        } else {
            (
                if offset == VIRTIO_DEVICE_LOW {
                    Some(val)
                } else {
                    pre.device_gpa_low
                },
                if offset == VIRTIO_DEVICE_HIGH {
                    Some(val)
                } else {
                    pre.device_gpa_high
                },
            )
        }
    }

    /// Whether an address-register write succeeds: with only one
    /// half present it always does; with both, the composed
    /// guest-physical address must have a stage-2 translation.
    pub open spec fn spec_modern_ok(
        pre: VirtQueueInfo,
        offset: int,
        val: u32,
        gpm: GuestPhysMemorySet,
    ) -> bool {
        match Self::spec_pair_after(pre, offset, val) {
            (Some(l), Some(h)) => {
                let gp = ((h as u64) << 32) | (l as u64);
                gp <= usize::MAX && gpm.spec_gpa_to_hpa(gp as int) is Some
            },
            _ => true,
        }
    }

    /// What an address-register write does: the half is stored;
    /// once both halves are present and translate, the backing
    /// shadow words receive the low and high halves of the
    /// host-physical address; queues are never touched.
    pub open spec fn spec_modern_effect(
        pre: VirtQueueInfo,
        post: VirtQueueInfo,
        pre_shadow: Seq<u32>,
        post_shadow: Seq<u32>,
        gpm: GuestPhysMemorySet,
        offset: int,
        val: u32,
        r: RvmResult<()>,
    ) -> bool {
        let pair = Self::spec_pair_after(pre, offset, val);
        let w = if offset == VIRTIO_DESC_LOW || offset == VIRTIO_DESC_HIGH {
            32int
        } else if offset == VIRTIO_DRIVER_LOW || offset == VIRTIO_DRIVER_HIGH {
            36int
        } else {
            40int
        };
        &&& post.queues@ == pre.queues@
        &&& post.queue_sel == pre.queue_sel
        &&& (offset == VIRTIO_DESC_LOW || offset == VIRTIO_DESC_HIGH ==> post == (VirtQueueInfo {
            desc_gpa_low: pair.0,
            desc_gpa_high: pair.1,
            ..pre
        }))
        &&& (offset == VIRTIO_DRIVER_LOW || offset == VIRTIO_DRIVER_HIGH ==> post
            == (VirtQueueInfo { driver_gpa_low: pair.0, driver_gpa_high: pair.1, ..pre }))
        &&& (offset == VIRTIO_DEVICE_LOW || offset == VIRTIO_DEVICE_HIGH ==> post
            == (VirtQueueInfo { device_gpa_low: pair.0, device_gpa_high: pair.1, ..pre }))
        &&& (r is Ok <==> Self::spec_modern_ok(pre, offset, val, gpm))
        &&& (match pair {
            (Some(l), Some(h)) => {
                let gp = ((h as u64) << 32) | (l as u64);
                &&& (r is Ok ==> ({
                    let hp = gpm.spec_gpa_to_hpa(gp as int)->0;
                    post_shadow == pre_shadow.update(w, ((hp as u64) & 0xffff_ffff) as u32).update(
                        w + 1,
                        ((hp as u64) >> 32) as u32,
                    )
                }))
                &&& (!(r is Ok) ==> post_shadow == pre_shadow)
            },
            _ => post_shadow == pre_shadow,
        })
    }

    /// Store one half of a 64-bit queue address; once both halves of
    /// its pair are present, translate the composed guest-physical
    /// address and write the host-physical halves to the backing
    /// shadow words. An address without a stage-2 translation is
    /// refused as `InvalidParam` (the half itself stays recorded).
    pub fn write_virtio_modern_addr(
        &mut self,
        offset: usize,
        gpm: &GuestPhysMemorySet,
        val: u32,
    ) -> (r: RvmResult<()>)
        requires
            old(self).wf(),
            gpm.inv(),
            offset == VIRTIO_DESC_LOW || offset == VIRTIO_DESC_HIGH || offset == VIRTIO_DRIVER_LOW
                || offset == VIRTIO_DRIVER_HIGH || offset == VIRTIO_DEVICE_LOW || offset
                == VIRTIO_DEVICE_HIGH,
        ensures
            final(self).wf(),
            final(self).base_vaddr == old(self).base_vaddr,
            r is Err ==> r == RvmResult::<()>::Err(RvmError::InvalidParam),
            Self::spec_modern_effect(
                old(self).info,
                final(self).info,
                old(self).shadow@,
                final(self).shadow@,
                *gpm,
                offset as int,
                val,
                r,
            ),
    {
        let pair: (Option<u32>, Option<u32>);
        if offset == VIRTIO_DESC_LOW {
            self.info.desc_gpa_low = Some(val);
            pair = (self.info.desc_gpa_low, self.info.desc_gpa_high);
        } else if offset == VIRTIO_DESC_HIGH {
            self.info.desc_gpa_high = Some(val);
            pair = (self.info.desc_gpa_low, self.info.desc_gpa_high);
        } else if offset == VIRTIO_DRIVER_LOW {
            self.info.driver_gpa_low = Some(val);
            pair = (self.info.driver_gpa_low, self.info.driver_gpa_high);
        } else if offset == VIRTIO_DRIVER_HIGH {
            self.info.driver_gpa_high = Some(val);
            pair = (self.info.driver_gpa_low, self.info.driver_gpa_high);
        } else if offset == VIRTIO_DEVICE_LOW {
            self.info.device_gpa_low = Some(val);
            pair = (self.info.device_gpa_low, self.info.device_gpa_high);
        } else {
            self.info.device_gpa_high = Some(val);
            pair = (self.info.device_gpa_low, self.info.device_gpa_high);
        }
        proof {
            assert(pair == Self::spec_pair_after(old(self).info, offset as int, val));
        }
        if let (Some(low), Some(high)) = pair {
            let gpaddr: u64 = ((high as u64) << 32u64) | (low as u64);
            if gpaddr > usize::MAX as u64 {
                proof {
                    assert(!Self::spec_modern_ok(old(self).info, offset as int, val, *gpm));
                }
                return Err(RvmError::InvalidParam);
            }
            match gpm.gpa_to_hpa(gpaddr as usize) {
                None => {
                    proof {
                        assert(!gpm.spec_covered(gpaddr as int));
                        assert(gpm.spec_gpa_to_hpa(gpaddr as int) is None);
                        assert(!Self::spec_modern_ok(old(self).info, offset as int, val, *gpm));
                    }
                    return Err(RvmError::InvalidParam);
                },
                Some(hpaddr) => {
                    let word = (offset & 0xf0) / 4;
                    proof {
                        let o = offset;
                        assert(o <= 0xa4 ==> ((o & 0xf0) / 4) + 1 < 128) by (bit_vector);
                        assert((0x80usize & 0xf0) / 4 == 32 && (0x84usize & 0xf0) / 4 == 32 && (
                        0x90usize & 0xf0) / 4 == 36 && (0x94usize & 0xf0) / 4 == 36 && (0xa0usize
                            & 0xf0) / 4 == 40 && (0xa4usize & 0xf0) / 4 == 40) by (bit_vector);
                        assert(Self::spec_modern_ok(old(self).info, offset as int, val, *gpm));
                    }
                    let h64 = hpaddr as u64;
                    self.shadow[word] = (h64 & 0xffff_ffff) as u32;
                    proof {
                        let h = h64;
                        assert(h & 0xffff_ffff <= 0xffff_ffffu64 && h >> 32 <= 0xffff_ffffu64)
                            by (bit_vector);
                    }
                    self.shadow[word + 1] = (h64 >> 32u64) as u32;
                },
            }
        }
        Ok(())
    }

    /// Whether a write to offset `off` of the window succeeds.
    pub open spec fn spec_write_ok(
        self,
        off: int,
        val: u32,
        gpm: GuestPhysMemorySet,
        rings: Seq<VirtQueueRing>,
    ) -> bool {
        if off == VIRTIO_LEGACY_PFN {
            val as int * PAGE_SIZE as int <= usize::MAX && gpm.spec_gpa_to_hpa(
                val as int * PAGE_SIZE as int,
            ) is Some
        } else if off == VIRTIO_NOTIFY {
            Self::spec_notify_ok(self.info, gpm, rings)
        } else if off == VIRTIO_DESC_LOW || off == VIRTIO_DESC_HIGH || off == VIRTIO_DRIVER_LOW
            || off == VIRTIO_DRIVER_HIGH || off == VIRTIO_DEVICE_LOW || off
            == VIRTIO_DEVICE_HIGH {
            Self::spec_modern_ok(self.info, off, val, gpm)
        } else {
            true
        }
    }

    /// Writes to the transport window.
    ///
    /// Queue-select records the index and gives it a bookkeeping
    /// entry; queue-size records the ring size; the legacy page
    /// frame number is translated to host-physical before it reaches
    /// the shadow; a notify rewrites the selected queue's ring (see
    /// `translate_desc_addr`); the 64-bit address registers go through
    /// `write_virtio_modern_addr`; every other register is an opaque
    /// forward to the shadow.
    pub fn write(
        &mut self,
        addr: usize,
        val: u32,
        _access_size: u8,
        gpm: &GuestPhysMemorySet,
        rings: &mut Vec<VirtQueueRing>,
    ) -> (r: RvmResult<()>)
        requires
            old(self).wf(),
            gpm.inv(),
            old(self).base_vaddr <= addr,
            addr - old(self).base_vaddr < 0x200,
        ensures
            final(self).wf(),
            final(self).base_vaddr == old(self).base_vaddr,
            r is Err ==> r == RvmResult::<()>::Err(RvmError::InvalidParam),
            r is Ok <==> old(self).spec_write_ok(
                addr - old(self).base_vaddr,
                val,
                *gpm,
                old(rings)@,
            ),
            ({
                let off = addr - old(self).base_vaddr;
                if off == VIRTIO_QUEUE_SEL {
                    &&& r is Ok
                    &&& *final(rings) == *old(rings)
                    &&& final(self).info.queue_sel == val
                    &&& final(self).info.spec_has_queue(val)
                    &&& final(self).shadow@ == old(self).shadow@.update(
                        VIRTIO_QUEUE_SEL as int / 4,
                        val,
                    )
                    &&& (old(self).info.spec_has_queue(val) ==> final(self).info == (VirtQueueInfo {
                        queue_sel: val,
                        ..old(self).info
                    }))
                    &&& (!old(self).info.spec_has_queue(val) ==> {
                        &&& final(self).info.queues@.len() == old(self).info.queues@.len() + 1
                        &&& final(self).info.queues@.subrange(
                            0,
                            old(self).info.queues@.len() as int,
                        ) == old(self).info.queues@
                        &&& ({
                            let q = final(self).info.queues@.last();
                            q.sel == val && q.size == 0 && q.last_notified_idx == 0 && q.vqaddr
                                is None && q.translated@.len() == 0
                        })
                        &&& final(self).info == (VirtQueueInfo {
                            queue_sel: val,
                            queues: final(self).info.queues,
                            ..old(self).info
                        })
                    })
                } else if off == VIRTIO_QUEUE_SIZE {
                    &&& r is Ok
                    &&& *final(rings) == *old(rings)
                    &&& final(self).shadow@ == old(self).shadow@.update(
                        VIRTIO_QUEUE_SIZE as int / 4,
                        val,
                    )
                    &&& ({
                        let sel = old(self).info.queue_sel;
                        &&& (old(self).info.spec_has_queue(sel) ==> ({
                            let qi = Self::spec_queue_index(old(self).info, sel);
                            &&& final(self).info.queues@ == old(self).info.queues@.update(
                                qi,
                                QueueState { size: val, ..old(self).info.queues@[qi] },
                            )
                            &&& final(self).info == (VirtQueueInfo {
                                queues: final(self).info.queues,
                                ..old(self).info
                            })
                        }))
                        &&& (!old(self).info.spec_has_queue(sel) ==> {
                            &&& final(self).info.queues@.len() == old(self).info.queues@.len() + 1
                            &&& final(self).info.queues@.subrange(
                                0,
                                old(self).info.queues@.len() as int,
                            ) == old(self).info.queues@
                            &&& ({
                                let q = final(self).info.queues@.last();
                                q.sel == sel && q.size == val && q.last_notified_idx == 0
                                    && q.vqaddr is None && q.translated@.len() == 0
                            })
                            &&& final(self).info == (VirtQueueInfo {
                                queues: final(self).info.queues,
                                ..old(self).info
                            })
                        })
                    })
                } else if off == VIRTIO_LEGACY_PFN {
                    &&& *final(rings) == *old(rings)
                    &&& (r is Ok <==> (val as int * PAGE_SIZE as int <= usize::MAX
                        && gpm.spec_gpa_to_hpa(val as int * PAGE_SIZE as int) is Some))
                    &&& (r is Err ==> r == RvmResult::<()>::Err(RvmError::InvalidParam) && *final(self) == *old(self))
                    &&& (r is Ok ==> ({
                        let sel = old(self).info.queue_sel;
                        let hpa = gpm.spec_gpa_to_hpa(val as int * PAGE_SIZE as int)->0;
                        &&& final(self).shadow@ == old(self).shadow@.update(
                            VIRTIO_LEGACY_PFN as int / 4,
                            (hpa / PAGE_SIZE as int) as u32,
                        )
                        &&& (old(self).info.spec_has_queue(sel) ==> ({
                            let qi = Self::spec_queue_index(old(self).info, sel);
                            &&& final(self).info.queues@.len() == old(self).info.queues@.len()
                            &&& final(self).info.queues@[qi].sel == sel
                            &&& final(self).info.queues@[qi].size == old(self).info.queues@[qi].size
                            &&& final(self).info.queues@[qi].last_notified_idx == old(self).info.queues@[qi].last_notified_idx
                            &&& final(self).info.queues@[qi].vqaddr == Some(hpa as usize)
                            &&& final(self).info.queues@[qi].translated@.len() == 0
                            &&& (forall|k: int|
                                0 <= k < old(self).info.queues@.len() && k != qi ==> final(self).info.queues@[k] == #[trigger] old(self).info.queues@[k])
                            &&& final(self).info == (VirtQueueInfo {
                                queues: final(self).info.queues,
                                ..old(self).info
                            })
                        }))
                        &&& (!old(self).info.spec_has_queue(sel) ==> {
                            &&& final(self).info.queues@.len() == old(self).info.queues@.len() + 1
                            &&& final(self).info.queues@.subrange(
                                0,
                                old(self).info.queues@.len() as int,
                            ) == old(self).info.queues@
                            &&& ({
                                let q = final(self).info.queues@.last();
                                q.sel == sel && q.size == 0 && q.last_notified_idx == 0 && q.vqaddr
                                    == Some(hpa as usize) && q.translated@.len() == 0
                            })
                            &&& final(self).info == (VirtQueueInfo {
                                queues: final(self).info.queues,
                                ..old(self).info
                            })
                        })
                    }))
                } else if off == VIRTIO_NOTIFY {
                    &&& (r is Ok <==> Self::spec_notify_ok(old(self).info, *gpm, old(rings)@))
                    &&& (r is Err ==> r == RvmResult::<()>::Err(RvmError::InvalidParam) && *final(self) == *old(self) && *final(rings) == *old(rings))
                    &&& (r is Ok ==> final(self).shadow@ == old(self).shadow@.update(
                        VIRTIO_NOTIFY as int / 4,
                        val,
                    ) && Self::spec_notify_effect(
                        old(self).info,
                        final(self).info,
                        *gpm,
                        old(rings)@,
                        final(rings)@,
                    ))
                } else if off == VIRTIO_DESC_LOW || off == VIRTIO_DESC_HIGH || off
                    == VIRTIO_DRIVER_LOW || off == VIRTIO_DRIVER_HIGH || off == VIRTIO_DEVICE_LOW
                    || off == VIRTIO_DEVICE_HIGH {
                    &&& *final(rings) == *old(rings)
                    &&& Self::spec_modern_effect(
                        old(self).info,
                        final(self).info,
                        old(self).shadow@,
                        final(self).shadow@,
                        *gpm,
                        off,
                        val,
                        r,
                    )
                } else {
                    &&& r is Ok
                    &&& *final(rings) == *old(rings)
                    &&& final(self).shadow@ == old(self).shadow@.update(off / 4, val)
                    &&& final(self).info == old(self).info
                }
            }),
    {
        let off = addr - self.base_vaddr;
        proof {
            let o = off;
            assert(o < 0x200 ==> o / 4 < 128) by (bit_vector);
        }
        if off == VIRTIO_QUEUE_SEL {
            self.info.queue_sel = val;
            let _qi = self.info.ensure_queue(val);
            self.shadow[VIRTIO_QUEUE_SEL / 4] = val;
            proof {
                assert(self.info.queues@[_qi as int].sel == val);
            }
            Ok(())
        } else if off == VIRTIO_QUEUE_SIZE {
            let sel = self.info.queue_sel;
            let qi = self.info.ensure_queue(sel);
            self.info.queues[qi].size = val;
            self.shadow[VIRTIO_QUEUE_SIZE / 4] = val;
            proof {
                assert(self.info.queues@[qi as int].sel == sel);
                assert(self.info.queues@[qi as int].size == val);
            }
            Ok(())
        } else if off == VIRTIO_LEGACY_PFN {
            let gp64: u64 = (val as u64) * (PAGE_SIZE as u64);
            if gp64 > usize::MAX as u64 {
                return Err(RvmError::InvalidParam);
            }
            match gpm.gpa_to_hpa(gp64 as usize) {
                None => Err(RvmError::InvalidParam),
                Some(hpaddr) => {
                    let sel = self.info.queue_sel;
                    let qi = self.info.ensure_queue(sel);
                    self.info.queues[qi].vqaddr = Some(hpaddr);
                    self.info.queues[qi].translated = Vec::new();
                    let hpfn = hpaddr / PAGE_SIZE;
                    proof {
                        assert(self.info.queues@[qi as int].sel == sel);
                        assert(gpm.spec_gpa_to_hpa(gp64 as int) == Some(hpaddr as int));
                        assert(gp64 as int == val as int * PAGE_SIZE as int);
                        assert(hpaddr as int / PAGE_SIZE as int <= hpaddr) by (nonlinear_arith);
                        assert(gpm.spec_covered(gp64 as int));
                    }
                    self.shadow[VIRTIO_LEGACY_PFN / 4] = hpfn as u32;
                    Ok(())
                },
            }
        } else if off == VIRTIO_NOTIFY {
            match self.translate_desc_addr(gpm, rings) {
                Err(e) => Err(e),
                Ok(()) => {
                    self.shadow[VIRTIO_NOTIFY / 4] = val;
                    Ok(())
                },
            }
        } else if off == VIRTIO_DESC_LOW || off == VIRTIO_DESC_HIGH || off == VIRTIO_DRIVER_LOW
            || off == VIRTIO_DRIVER_HIGH || off == VIRTIO_DEVICE_LOW || off == VIRTIO_DEVICE_HIGH {
            self.write_virtio_modern_addr(off, gpm, val)
        } else {
            self.shadow[off / 4] = val;
            Ok(())
        }
    }

    /// Reads are plain loads from the shadow window.
    pub fn read(&self, addr: usize, _access_size: u8) -> (r: RvmResult<u32>)
        requires
            self.wf(),
            self.base_vaddr <= addr,
            addr - self.base_vaddr < 0x200,
        ensures
            r == RvmResult::<u32>::Ok(self.shadow@[(addr - self.base_vaddr) / 4]),
    {
        let off = addr - self.base_vaddr;
        Ok(self.shadow[off / 4])
    }
}

} // verus!
