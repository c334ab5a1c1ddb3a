//! ARM generic interrupt controller (GICv2) driver state.
//!
//! The struct mirrors the distributor (GICD), physical CPU interface
//! (GICC), hypervisor interface (GICH) and virtual CPU interface
//! (GICV) registers that the hypervisor programs. The volatile
//! stores that carry this state to the device, and the reads of the
//! hardware-owned registers (TYPER, VTR, IAR), are performed by the
//! embedder; the functions here compute and record every value
//! written.

use vstd::prelude::*;

verus! {

/// First shared peripheral interrupt.
pub const SPI_BASE: usize = 32;

/// Lowest vector the acknowledge register reports as spurious.
pub const IAR_SPURIOUS: u32 = 0x3fe;

/// List-register state: pending.
pub const LR_PENDING_BIT: u32 = 0x10000000;

/// List-register: hardware interrupt.
pub const LR_HW_BIT: u32 = 0x80000000;

/// Virtual-interrupt field of a list register.
pub const LR_VIRTIRQ_MASK: u32 = 0x3ff;

/// The list-register word injecting hardware interrupt `id`:
/// the virtual id, the pending state, the physical id (bits 10..19)
/// and the hardware bit.
pub open spec fn spec_lr_value(id: u32) -> u32 {
    id | LR_PENDING_BIT | ((id << 10) & 0xffc00) | LR_HW_BIT
}

pub struct Gic {
    /// GICD_TYPER as probed from the device.
    pub typer: u32,
    /// GICH_VTR as probed from the device.
    pub vtr: u32,
    /// GICD_CTLR.
    pub ctlr: u32,
    /// One bit per interrupt: forwarded to the CPU interfaces.
    /// The driver writes GICD_ISENABLER words to set bits and
    /// GICD_ICENABLER words to clear them.
    pub enabled: Vec<u32>,
    /// One bit per interrupt: pending. Cleared through GICD_ICPENDR.
    pub pending: Vec<u32>,
    /// Trigger configuration, two bits per interrupt (GICD_ICFGR).
    pub icfgr: Vec<u32>,
    /// Target CPUs, one byte per interrupt (GICD_ITARGETSR).
    pub itargetsr: Vec<u32>,
    /// GICC_CTLR.
    pub gicc_ctlr: u32,
    /// GICC_PMR.
    pub gicc_pmr: u32,
    /// Every value written to GICC_EOIR, oldest first.
    pub eoir_log: Vec<u32>,
    /// GICH_HCR.
    pub gich_hcr: u32,
    /// GICV_CTLR.
    pub gicv_ctlr: u32,
    /// GICV_PMR.
    pub gicv_pmr: u32,
    /// The list registers (GICH_LR). Zero means free.
    pub lr: Vec<u32>,
    /// Highest interrupt id the distributor implements, set by `init`.
    pub max_irqs: usize,
}

impl Gic {
    pub open spec fn wf(self) -> bool {
        &&& self.enabled@.len() == 32
        &&& self.pending@.len() == 32
        &&& self.icfgr@.len() == 64
        &&& self.itargetsr@.len() == 256
        &&& self.lr@.len() == 64
        &&& self.max_irqs <= 1024
    }

    /// Number of list registers the hypervisor interface offers.
    pub open spec fn spec_lr_num(self) -> int {
        (self.vtr & 0x1f) + 1
    }

    /// All list registers up to `spec_lr_num` hold a live interrupt.
    pub open spec fn spec_all_lrs_busy(self) -> bool {
        forall|i: int| 0 <= i < self.spec_lr_num() ==> self.lr@[i] != 0
    }

    /// Some list register already holds virtual interrupt `id`.
    pub open spec fn spec_holds_virq(self, id: u32) -> bool {
        exists|i: int|
            0 <= i < self.spec_lr_num() && (#[trigger] self.lr@[i]) != 0 && self.lr@[i]
                & LR_VIRTIRQ_MASK == id
    }

    /// A fresh driver for a distributor reporting `typer` and a
    /// hypervisor interface reporting `vtr`.
    pub fn new(typer: u32, vtr: u32) -> (r: Gic)
        ensures
            r.wf(),
            r.typer == typer,
            r.vtr == vtr,
            r.max_irqs == 0,
            forall|i: int| 0 <= i < 64 ==> r.lr@[i] == 0,
            r.eoir_log@.len() == 0,
    {
        let mut enabled: Vec<u32> = Vec::new();
        let mut pending: Vec<u32> = Vec::new();
        let mut icfgr: Vec<u32> = Vec::new();
        let mut itargetsr: Vec<u32> = Vec::new();
        let mut lr: Vec<u32> = Vec::new();
        let mut i: usize = 0;
        while i < 32
            invariant
                enabled@.len() == i,
                pending@.len() == i,
                i <= 32,
            decreases 32 - i,
        {
            enabled.push(0);
            pending.push(0);
            i = i + 1;
        }
        let mut j: usize = 0;
        while j < 64
            invariant
                icfgr@.len() == j,
                lr@.len() == j,
                j <= 64,
                forall|k: int| 0 <= k < j ==> lr@[k] == 0,
            decreases 64 - j,
        {
            icfgr.push(0);
            lr.push(0);
            j = j + 1;
        }
        let mut k: usize = 0;
        while k < 256
            invariant
                itargetsr@.len() == k,
                k <= 256,
            decreases 256 - k,
        {
            itargetsr.push(0);
            k = k + 1;
        }
        Gic {
            typer,
            vtr,
            ctlr: 0,
            enabled,
            pending,
            icfgr,
            itargetsr,
            gicc_ctlr: 0,
            gicc_pmr: 0,
            eoir_log: Vec::new(),
            gich_hcr: 0,
            gicv_ctlr: 0,
            gicv_pmr: 0,
            lr,
            max_irqs: 0,
        }
    }

    /// How many CPUs the distributor serves (from GICD_TYPER).
    pub fn cpu_num(&self) -> (r: usize)
        ensures
            r == ((self.typer >> 5) & 0b111) + 1,
    {
        proof {
            let t = self.typer;
            assert((t >> 5) & 0b111 < 8) by (bit_vector);
        }
        (((self.typer >> 5) & 0b111) + 1) as usize
    }

    /// Number of list registers (from GICH_VTR).
    pub fn lr_num(&self) -> (r: usize)
        ensures
            r == self.spec_lr_num(),
            1 <= r <= 32,
    {
        proof {
            let v = self.vtr;
            assert(v & 0x1f < 32) by (bit_vector);
        }
        ((self.vtr & 0x1f) + 1) as usize
    }

    pub fn read_lr(&self, id: usize) -> (r: u32)
        requires
            self.wf(),
            id < 64,
        ensures
            r == self.lr@[id as int],
    {
        self.lr[id]
    }

    pub fn write_lr(&mut self, id: usize, val: u32)
        requires
            old(self).wf(),
            id < 64,
        ensures
            final(self).wf(),
            final(self).lr@ == old(self).lr@.update(id as int, val),
            *final(self) == (Gic { lr: final(self).lr, ..*old(self) }),
    {
        self.lr[id] = val;
    }

    /// Set one trigger-configuration bit: shared interrupts become
    /// edge-triggered when `edge` holds, level-triggered otherwise.
    /// Afterwards the interrupt's configuration bit (the odd bit of
    /// its two-bit field) reflects the trigger mode.
    pub fn configure_interrupt(&mut self, vector: usize, edge: bool)
        requires
            old(self).wf(),
            SPI_BASE <= vector < old(self).max_irqs,
        ensures
            final(self).wf(),
            final(self).icfgr@ == old(self).icfgr@.update(
                vector as int / 16,
                (if edge {
                    old(self).icfgr@[vector as int / 16] | (1u32 << ((((vector & 0xf) << 1) + 1)
                        as u32))
                } else {
                    old(self).icfgr@[vector as int / 16] & !(1u32 << ((((vector & 0xf) << 1) + 1)
                        as u32))
                }),
            ),
            *final(self) == (Gic { icfgr: final(self).icfgr, ..*old(self) }),
            edge ==> final(self).icfgr@[vector as int / 16] & (1u32 << ((((vector & 0xf) << 1) + 1)
                as u32)) != 0,
            !edge ==> final(self).icfgr@[vector as int / 16] & (1u32 << ((((vector & 0xf) << 1)
                + 1) as u32)) == 0,
    {
        proof {
            let v = vector;
            assert(v < 1024 ==> (v >> 4) < 64 && (v & 0xf) < 16 && ((v & 0xf) << 1) + 1 < 32 && (v
                >> 4) == v / 16) by (bit_vector);
            let sh = ((((vector & 0xf) << 1) + 1) as u32);
            let x = self.icfgr@[vector as int / 16];
            assert(sh < 32 ==> ((x | (1u32 << sh)) & (1u32 << sh) != 0 && (x & !(1u32 << sh)) & (
            1u32 << sh) == 0)) by (bit_vector);
        }
        let reg_ndx = vector >> 4;
        let bit_shift = ((vector & 0xf) << 1) + 1;
        let mut reg_val = self.icfgr[reg_ndx];
        if edge {
            reg_val = reg_val | (1u32 << (bit_shift as u32));
        } else {
            reg_val = reg_val & !(1u32 << (bit_shift as u32));
        }
        self.icfgr[reg_ndx] = reg_val;
    }

    /// Enable or disable forwarding of one interrupt, through
    /// GICD_ISENABLER / GICD_ICENABLER.
    pub fn set_enable(&mut self, vector: usize, enable: bool)
        requires
            old(self).wf(),
            vector < old(self).max_irqs,
        ensures
            final(self).wf(),
            final(self).enabled@ == old(self).enabled@.update(
                vector as int / 32,
                (if enable {
                    old(self).enabled@[vector as int / 32] | (1u32 << ((vector % 32) as u32))
                } else {
                    old(self).enabled@[vector as int / 32] & !(1u32 << ((vector % 32) as u32))
                }),
            ),
            *final(self) == (Gic { enabled: final(self).enabled, ..*old(self) }),
    {
        let reg = vector / 32;
        let mask = 1u32 << ((vector % 32) as u32);
        proof {
            assert(vector as int / 32 < 32);
        }
        if enable {
            self.enabled[reg] = self.enabled[reg] | mask;
        } else {
            self.enabled[reg] = self.enabled[reg] & !mask;
        }
    }

    /// Acknowledge: the pending vector, unless the read was the
    /// spurious sentinel (at or above 0x3fe).
    pub fn pending_irq(&self, iar: u32) -> (r: Option<usize>)
        ensures
            iar >= IAR_SPURIOUS ==> r is None,
            iar < IAR_SPURIOUS ==> r == Some(iar as usize),
    {
        if iar >= IAR_SPURIOUS {
            None
        } else {
            Some(iar as usize)
        }
    }

    /// Retire an interrupt on the physical CPU interface by writing
    /// its vector to GICC_EOIR.
    pub fn eoi(&mut self, vector: u32)
        requires
            old(self).wf(),
        ensures
            final(self).wf(),
            final(self).eoir_log@ == old(self).eoir_log@.push(vector),
            *final(self) == (Gic { eoir_log: final(self).eoir_log, ..*old(self) }),
    {
        self.eoir_log.push(vector);
    }

    /// Inject hardware interrupt `irq_id` as a virtual interrupt
    /// through a free list register.
    ///
    /// The injection is refused, leaving every register unchanged,
    /// when some list register already holds the same virtual
    /// interrupt, or when none is free. Otherwise the lowest free
    /// list register receives the pending, hardware-linked word for
    /// `irq_id`.
    pub fn inject_irq(&mut self, irq_id: u32)
        requires
            old(self).wf(),
            irq_id < 0x400,
        ensures
            final(self).wf(),
            old(self).spec_holds_virq(irq_id) ==> *final(self) == *old(self),
            !old(self).spec_holds_virq(irq_id) && old(self).spec_all_lrs_busy() ==> *final(self)
                == *old(self),
            !old(self).spec_holds_virq(irq_id) && !old(self).spec_all_lrs_busy() ==> {
                &&& final(self).lr@ == old(self).lr@.update(
                    choose|i: int|
                        0 <= i < old(self).spec_lr_num() && (#[trigger] old(self).lr@[i]) == 0
                            && forall|k: int| 0 <= k < i ==> old(self).lr@[k] != 0,
                    spec_lr_value(irq_id),
                )
                &&& *final(self) == (Gic { lr: final(self).lr, ..*old(self) })
            },
    {
        let lr_num = self.lr_num();
        let mut lr_idx: usize = lr_num;
        let mut i: usize = 0;
        while i < lr_num
            invariant
                self.wf(),
                lr_num == self.spec_lr_num(),
                lr_num <= 32,
                i <= lr_num,
                irq_id < 0x400,
                lr_idx <= lr_num,
                lr_idx < lr_num ==> self.lr@[lr_idx as int] == 0 && (forall|k: int|
                    0 <= k < lr_idx ==> self.lr@[k] != 0),
                lr_idx == lr_num ==> (forall|k: int| 0 <= k < i ==> self.lr@[k] != 0),
                forall|k: int|
                    0 <= k < i ==> !((#[trigger] self.lr@[k]) != 0 && self.lr@[k] & LR_VIRTIRQ_MASK
                        == irq_id),
            decreases lr_num - i,
        {
            let lr_val = self.lr[i];
            if lr_val == 0 {
                if lr_idx == lr_num {
                    lr_idx = i;
                }
            } else if lr_val & LR_VIRTIRQ_MASK == irq_id {
                proof {
                    assert(self.spec_holds_virq(irq_id));
                }
                return ;
            }
            i = i + 1;
        }
        if lr_idx == lr_num {
            proof {
                assert(self.spec_all_lrs_busy());
                assert(!self.spec_holds_virq(irq_id));
            }
            return ;
        }
        let val = irq_id | LR_PENDING_BIT | ((irq_id << 10u32) & 0xffc00) | LR_HW_BIT;
        proof {
            assert(!self.spec_holds_virq(irq_id));
            let c = choose|ci: int|
                0 <= ci < self.spec_lr_num() && (#[trigger] self.lr@[ci]) == 0 && forall|k: int|
                    0 <= k < ci ==> self.lr@[k] != 0;
            assert(0 <= lr_idx < self.spec_lr_num() && self.lr@[lr_idx as int] == 0
                && forall|k: int| 0 <= k < lr_idx ==> self.lr@[k] != 0);
            if c != lr_idx as int {
                if c < lr_idx as int {
                    assert(self.lr@[c] != 0);
                } else {
                    assert(self.lr@[lr_idx as int] != 0);
                }
            }
        }
        self.lr[lr_idx] = val;
    }


    /// How `init` relates the driver state before and after one call.
    pub open spec fn spec_init_relates(pre: Gic, post: Gic) -> bool {
        &&& post.typer == pre.typer
        &&& post.vtr == pre.vtr
        &&& post.max_irqs == ((pre.typer & 0b11111) + 1) * 32
        &&& post.ctlr == 1
        &&& post.gicc_ctlr == 1
        &&& post.gich_hcr == 1
        &&& post.gicv_ctlr == 1
        &&& post.gicc_pmr == 0xff
        &&& post.gicv_pmr == 0xff
        &&& (forall|k: int| 0 <= k < 32 ==> (#[trigger] post.enabled@[k]) == 0)
        &&& (forall|k: int| 0 <= k < 32 ==> (#[trigger] post.pending@[k]) == 0)
        &&& (forall|k: int|
            2 <= k < post.max_irqs as int / 16 ==> (#[trigger] post.icfgr@[k]) == pre.icfgr@[k]
                | 0xaaaa_aaaa)
        &&& (forall|k: int|
            0 <= k < 64 && !(2 <= k < post.max_irqs as int / 16) ==> (#[trigger] post.icfgr@[k])
                == pre.icfgr@[k])
        &&& (forall|k: int|
            8 <= k < post.max_irqs as int / 4 ==> (#[trigger] post.itargetsr@[k]) == (if ((
            pre.typer >> 5) & 0b111) + 1 > 1 {
                0x01_01_01_01u32
            } else {
                pre.itargetsr@[k]
            }))
        &&& (forall|k: int|
            0 <= k < 256 && !(8 <= k < post.max_irqs as int / 4) ==> (
            #[trigger] post.itargetsr@[k]) == pre.itargetsr@[k])
        &&& post.lr@ == pre.lr@
        &&& post.eoir_log@ == pre.eoir_log@
    }

    /// Program the whole controller, from the sizes the device
    /// reports: mask and clear every interrupt, target all shared
    /// interrupts at CPU 0 (on a multi-CPU distributor), make all
    /// shared interrupts edge-triggered, then enable the distributor,
    /// both CPU interfaces and the hypervisor interface, and open the
    /// priority masks.
    pub fn init(&mut self)
        requires
            old(self).wf(),
        ensures
            final(self).wf(),
            Self::spec_init_relates(*old(self), *final(self)),
            final(self).max_irqs == (((old(self).typer & 0b11111) + 1) * 32),
            final(self).typer == old(self).typer,
            final(self).vtr == old(self).vtr,
            final(self).ctlr == 1,
            final(self).gicc_ctlr == 1,
            final(self).gich_hcr == 1,
            final(self).gicv_ctlr == 1,
            final(self).gicc_pmr == 0xff,
            final(self).gicv_pmr == 0xff,
            forall|k: int| 0 <= k < 32 ==> (#[trigger] final(self).enabled@[k]) == 0,
            forall|k: int| 0 <= k < 32 ==> (#[trigger] final(self).pending@[k]) == 0,
            forall|k: int|
                2 <= k < final(self).max_irqs as int / 16 ==> (#[trigger] final(self).icfgr@[k])
                    == old(self).icfgr@[k] | 0xaaaa_aaaa,
            forall|k: int|
                0 <= k < 64 && !(2 <= k < final(self).max_irqs as int / 16) ==> (
                #[trigger] final(self).icfgr@[k]) == old(self).icfgr@[k],
            forall|k: int|
                8 <= k < final(self).max_irqs as int / 4 ==> (#[trigger] final(self).itargetsr@[k])
                    == (if ((old(self).typer >> 5) & 0b111) + 1 > 1 {
                    0x01_01_01_01u32
                } else {
                    old(self).itargetsr@[k]
                }),
            forall|k: int|
                0 <= k < 256 && !(8 <= k < final(self).max_irqs as int / 4) ==> (
                #[trigger] final(self).itargetsr@[k]) == old(self).itargetsr@[k],
            final(self).lr@ == old(self).lr@,
            final(self).eoir_log@ == old(self).eoir_log@,
    {
        proof {
            let t = self.typer;
            assert((t & 0b11111) < 32) by (bit_vector);
        }
        let max_irqs = (((self.typer & 0b11111) + 1) * 32) as usize;
        self.max_irqs = max_irqs;
        let ghost mid = *self;
        let mut w: usize = 0;
        while w < 32
            invariant
                self.wf(),
                w <= 32,
                self.max_irqs == max_irqs,
                max_irqs == (((self.typer & 0b11111) + 1) * 32),
                max_irqs <= 1024,
                forall|k: int| 0 <= k < w ==> (#[trigger] self.enabled@[k]) == 0,
                forall|k: int| 0 <= k < w ==> (#[trigger] self.pending@[k]) == 0,
                *self == (Gic { enabled: self.enabled, pending: self.pending, ..mid }),
            decreases 32 - w,
        {
            self.enabled[w] = 0;
            self.pending[w] = 0;
            w = w + 1;
        }
        let cpus = self.cpu_num();
        let ghost mid2 = *self;
        let target_words = max_irqs / 4;
        proof {
            assert(max_irqs >= 32);
            assert(target_words >= 8);
        }
        if cpus > 1 {
            let mut t: usize = 8;
            while t < target_words
                invariant
                    self.wf(),
                    8 <= t <= target_words,
                    target_words == max_irqs as int / 4,
                    target_words <= 256,
                    self.max_irqs == max_irqs,
                    forall|k: int| 8 <= k < t ==> (#[trigger] self.itargetsr@[k])
                        == 0x01_01_01_01u32,
                    forall|k: int|
                        0 <= k < 256 && !(8 <= k < t) ==> (#[trigger] self.itargetsr@[k])
                            == mid2.itargetsr@[k],
                    *self == (Gic { itargetsr: self.itargetsr, ..mid2 }),
                decreases target_words - t,
            {
                self.itargetsr[t] = 0x01_01_01_01;
                t = t + 1;
            }
        }
        let ghost mid3 = *self;
        let cfg_words = max_irqs / 16;
        proof {
            assert(cfg_words >= 2);
        }
        let mut v: usize = 2;
        while v < cfg_words
            invariant
                self.wf(),
                2 <= v <= cfg_words,
                cfg_words == max_irqs as int / 16,
                cfg_words <= 64,
                self.max_irqs == max_irqs,
                forall|k: int| 2 <= k < v ==> (#[trigger] self.icfgr@[k]) == mid3.icfgr@[k]
                    | 0xaaaa_aaaa,
                forall|k: int|
                    0 <= k < 64 && !(2 <= k < v) ==> (#[trigger] self.icfgr@[k])
                        == mid3.icfgr@[k],
                *self == (Gic { icfgr: self.icfgr, ..mid3 }),
            decreases cfg_words - v,
        {
            let word = self.icfgr[v];
            self.icfgr[v] = word | 0xaaaa_aaaa;
            v = v + 1;
        }
        self.ctlr = 1;
        self.gicc_ctlr = 1;
        self.gich_hcr = 1;
        self.gicv_ctlr = 1;
        self.gicc_pmr = 0xff;
        self.gicv_pmr = 0xff;
    }
}


/// Among the free list registers below `n` there is a lowest one.
pub proof fn lemma_lowest_free_lr(lr: Seq<u32>, n: int)
    requires
        0 < n <= lr.len(),
        exists|i: int| 0 <= i < n && #[trigger] lr[i] == 0,
    ensures
        exists|i: int|
            0 <= i < n && #[trigger] lr[i] == 0 && forall|k: int| 0 <= k < i ==> lr[k] != 0,
    decreases n,
{
    let w = choose|i: int| 0 <= i < n && #[trigger] lr[i] == 0;
    if forall|k: int| 0 <= k < w ==> lr[k] != 0 {
        assert(0 <= w < n && lr[w] == 0 && forall|k: int| 0 <= k < w ==> lr[k] != 0);
    } else {
        assert(exists|k: int| 0 <= k < w && #[trigger] lr[k] == 0);
        lemma_lowest_free_lr(lr, w);
        let v = choose|i: int|
            0 <= i < w && #[trigger] lr[i] == 0 && forall|k: int| 0 <= k < i ==> lr[k] != 0;
        assert(0 <= v < n && lr[v] == 0 && forall|k: int| 0 <= k < v ==> lr[k] != 0);
    }
}

/// Programming the controller twice leaves every distributor and
/// interface register exactly as one call leaves it: `init` is
/// idempotent on the controller state.
pub proof fn lemma_init_idempotent(g0: Gic, g1: Gic, g2: Gic)
    requires
        g0.wf(),
        g1.wf(),
        g2.wf(),
        Gic::spec_init_relates(g0, g1),
        Gic::spec_init_relates(g1, g2),
    ensures
        g2.typer == g1.typer,
        g2.vtr == g1.vtr,
        g2.max_irqs == g1.max_irqs,
        g2.ctlr == g1.ctlr,
        g2.gicc_ctlr == g1.gicc_ctlr,
        g2.gich_hcr == g1.gich_hcr,
        g2.gicv_ctlr == g1.gicv_ctlr,
        g2.gicc_pmr == g1.gicc_pmr,
        g2.gicv_pmr == g1.gicv_pmr,
        g2.enabled@ == g1.enabled@,
        g2.pending@ == g1.pending@,
        g2.icfgr@ == g1.icfgr@,
        g2.itargetsr@ == g1.itargetsr@,
        g2.lr@ == g1.lr@,
        g2.eoir_log@ == g1.eoir_log@,
{
    assert(g2.max_irqs == g1.max_irqs);
    assert(g2.enabled@ =~= g1.enabled@);
    assert(g2.pending@ =~= g1.pending@);
    assert forall|k: int| 0 <= k < 64 implies g2.icfgr@[k] == g1.icfgr@[k] by {
        if 2 <= k < g1.max_irqs as int / 16 {
            let x = g0.icfgr@[k];
            assert((x | 0xaaaa_aaaau32) | 0xaaaa_aaaau32 == x | 0xaaaa_aaaau32) by (bit_vector);
        }
    }
    assert(g2.icfgr@ =~= g1.icfgr@);
    assert forall|k: int| 0 <= k < 256 implies g2.itargetsr@[k] == g1.itargetsr@[k] by {}
    assert(g2.itargetsr@ =~= g1.itargetsr@);
}

/// Enable or disable one interrupt on the shared controller.
pub fn set_enable(gic: &mut Gic, vector: usize, enable: bool)
    requires
        old(gic).wf(),
        vector < old(gic).max_irqs,
    ensures
        final(gic).wf(),
        final(gic).enabled@ == old(gic).enabled@.update(
            vector as int / 32,
            (if enable {
                old(gic).enabled@[vector as int / 32] | (1u32 << ((vector % 32) as u32))
            } else {
                old(gic).enabled@[vector as int / 32] & !(1u32 << ((vector % 32) as u32))
            }),
        ),
{
    gic.set_enable(vector, enable);
}

/// Acknowledge: the pending vector behind an IAR read, if any.
pub fn pending_irq(gic: &Gic, iar: u32) -> (r: Option<usize>)
    ensures
        iar >= IAR_SPURIOUS ==> r is None,
        iar < IAR_SPURIOUS ==> r == Some(iar as usize),
{
    gic.pending_irq(iar)
}

/// Inject one hardware interrupt as a virtual interrupt.
pub fn inject_irq(gic: &mut Gic, irq_id: u32)
    requires
        old(gic).wf(),
        irq_id < 0x400,
    ensures
        final(gic).wf(),
        old(gic).spec_holds_virq(irq_id) || old(gic).spec_all_lrs_busy() ==> *final(gic) == *old(
            gic,
        ),
        !old(gic).spec_holds_virq(irq_id) && !old(gic).spec_all_lrs_busy() ==> {
            &&& final(gic).lr@ == old(gic).lr@.update(
                choose|i: int|
                    0 <= i < old(gic).spec_lr_num() && (#[trigger] old(gic).lr@[i]) == 0
                        && forall|k: int| 0 <= k < i ==> old(gic).lr@[k] != 0,
                spec_lr_value(irq_id),
            )
            &&& *final(gic) == (Gic { lr: final(gic).lr, ..*old(gic) })
        },
{
    gic.inject_irq(irq_id);
}

/// Retire one interrupt on the physical CPU interface.
pub fn deactivate_irq(gic: &mut Gic, vector: u32)
    requires
        old(gic).wf(),
    ensures
        final(gic).wf(),
        final(gic).eoir_log@ == old(gic).eoir_log@.push(vector),
        *final(gic) == (Gic { eoir_log: final(gic).eoir_log, ..*old(gic) }),
{
    gic.eoi(vector);
}

/// Look at the acknowledged vector; dispatching to handlers is not
/// wired up, so the controller state is left alone.
pub fn handle_irq(gic: &Gic, _vector: usize, iar: u32) -> (r: Option<usize>)
    ensures
        iar >= IAR_SPURIOUS ==> r is None,
        iar < IAR_SPURIOUS ==> r == Some(iar as usize),
{
    gic.pending_irq(iar)
}

/// Program the whole controller.
pub fn init(gic: &mut Gic)
    requires
        old(gic).wf(),
    ensures
        final(gic).wf(),
        final(gic).max_irqs == (((old(gic).typer & 0b11111) + 1) * 32),
        final(gic).ctlr == 1,
{
    gic.init();
}

} // verus!
