//! System MMU (SMMUv3) bring-up state: feature probing and the
//! control values the driver computes from the identification
//! registers.

use vstd::prelude::*;

use crate::err::RvmError;
use crate::err::RvmResult;

verus! {

/// IDR0: stage-2 translation supported.
pub const IDR0_S2P: u32 = 1;

/// IDR1: the implementation fixed the queue bases.
pub const IDR1_QUEUES_PRESET: u32 = 0x20000000;

/// IDR1: the implementation fixed the table bases.
pub const IDR1_TABLES_PRESET: u32 = 0x40000000;

/// IDR1: relative queue base addressing.
pub const IDR1_REL: u32 = 0x10000000;

/// CR0: enable the SMMU.
pub const CR0_SMMUEN: u32 = 1;

/// A command or event queue: its base and the producer and consumer
/// cursors.
pub struct SmmuQueue {
    pub smmu_base_addr: usize,
    pub head: u32,
    pub tail: u32,
}

impl SmmuQueue {
    pub fn new(smmu_base_addr: usize) -> (r: SmmuQueue)
        ensures
            r.smmu_base_addr == smmu_base_addr,
            r.head == 0,
            r.tail == 0,
    {
        SmmuQueue { smmu_base_addr, head: 0, tail: 0 }
    }
}

pub struct Smmu {
    pub base_vaddr: usize,
    /// IDR0 as probed, once `init_features` accepted it.
    pub features: u32,
    /// Command-queue size exponent from IDR1.
    pub cmd_queue_size: u32,
    /// Event-queue size exponent from IDR1.
    pub event_queue_size: u32,
    /// CR0 as programmed.
    pub cr0: u32,
}

impl Smmu {
    pub fn new(base_vaddr: usize) -> (r: Smmu)
        ensures
            r.base_vaddr == base_vaddr,
            r.features == 0,
            r.cmd_queue_size == 0,
            r.event_queue_size == 0,
            r.cr0 == 0,
    {
        Smmu { base_vaddr, features: 0, cmd_queue_size: 0, event_queue_size: 0, cr0: 0 }
    }

    /// Probe the identification registers: stage-2 translation must
    /// be offered, and preset queues or tables (or relative
    /// addressing) are not supported. On success the queue size
    /// exponents are taken from IDR1.
    pub fn init_features(&mut self, idr0: u32, idr1: u32) -> (r: RvmResult<()>)
        ensures
            idr0 & IDR0_S2P == 0 ==> r == RvmResult::<()>::Err(RvmError::Unsupported) && *final(self) == (Smmu { features: idr0, ..*old(self) }),
            idr0 & IDR0_S2P != 0 && idr1 & (IDR1_QUEUES_PRESET | IDR1_TABLES_PRESET | IDR1_REL)
                != 0 ==> r == RvmResult::<()>::Err(RvmError::Unsupported) && *final(self) == (Smmu {
                features: idr0,
                ..*old(self)
            }),
            idr0 & IDR0_S2P != 0 && idr1 & (IDR1_QUEUES_PRESET | IDR1_TABLES_PRESET | IDR1_REL)
                == 0 ==> r is Ok && *final(self) == (Smmu {
                features: idr0,
                cmd_queue_size: (idr1 >> 21) & 0x1f,
                event_queue_size: (idr1 >> 16) & 0x1f,
                ..*old(self)
            }),
    {
        self.features = idr0;
        if idr0 & IDR0_S2P == 0 {
            return Err(RvmError::Unsupported);
        }
        if idr1 & (IDR1_QUEUES_PRESET | IDR1_TABLES_PRESET | IDR1_REL) != 0 {
            return Err(RvmError::Unsupported);
        }
        self.cmd_queue_size = (idr1 >> 21) & 0x1f;
        self.event_queue_size = (idr1 >> 16) & 0x1f;
        Ok(())
    }

    /// Stream-table setup; only a one-level stream table is
    /// supported, and its programming is not wired up yet.
    pub fn setup_stream_table(&mut self) -> (r: RvmResult<()>)
        ensures
            r is Ok,
            *final(self) == *old(self),
    {
        Ok(())
    }

    /// Queue setup; not wired up yet.
    pub fn setup_queue(&mut self) -> (r: RvmResult<()>)
        ensures
            r is Ok,
            *final(self) == *old(self),
    {
        Ok(())
    }

    /// Program CR0: disable, then enable the SMMU.
    pub fn setup_smmu_device(&mut self) -> (r: RvmResult<()>)
        ensures
            r is Ok,
            *final(self) == (Smmu { cr0: CR0_SMMUEN, ..*old(self) }),
    {
        self.cr0 = 0;
        self.cr0 = CR0_SMMUEN;
        Ok(())
    }

    /// Full bring-up: probe features, set up the queues and the
    /// stream table, then enable the device.
    pub fn init(&mut self, idr0: u32, idr1: u32) -> (r: RvmResult<()>)
        ensures
            r is Ok <==> (idr0 & IDR0_S2P != 0 && idr1 & (IDR1_QUEUES_PRESET | IDR1_TABLES_PRESET
                | IDR1_REL) == 0),
            r is Ok ==> *final(self) == (Smmu {
                features: idr0,
                cmd_queue_size: (idr1 >> 21) & 0x1f,
                event_queue_size: (idr1 >> 16) & 0x1f,
                cr0: CR0_SMMUEN,
                ..*old(self)
            }),
    {
        let res = self.init_features(idr0, idr1);
        if let Err(e) = res {
            return Err(e);
        }
        let res2 = self.setup_queue();
        if let Err(e) = res2 {
            return Err(e);
        }
        let res3 = self.setup_stream_table();
        if let Err(e) = res3 {
            return Err(e);
        }
        self.setup_smmu_device()
    }
}

} // verus!
