//! Values programmed into AArch64 system registers.
//!
//! The bit layouts come from the architecture's register definitions
//! as published by the `aarch64_cpu` crate; each function here builds
//! one register value through that crate's typed fields and states the
//! resulting word exactly, so that everything computed from these
//! values is checked against the architected encoding.

use vstd::prelude::*;

use aarch64_cpu::registers::HCR_EL2;
use aarch64_cpu::registers::MAIR_EL2;
use aarch64_cpu::registers::SPSR_EL2;
use aarch64_cpu::registers::TCR_EL2;
use aarch64_cpu::registers::VTCR_EL2;

verus! {

/// Saved program status for a fresh guest: EL1h with D, A, I and F masked.
///
/// Relies on `aarch64_cpu::registers::SPSR_EL2`: M::EL1h is 0b0101
/// (bits 0..3) and D, A, I, F are bits 9, 8, 7, 6.
#[verifier::external_body]
pub fn spsr_guest_initial() -> (r: u64)
    ensures
        r == 0x3c5u64,
{
    (SPSR_EL2::M::EL1h + SPSR_EL2::D::Masked + SPSR_EL2::A::Masked + SPSR_EL2::I::Masked
        + SPSR_EL2::F::Masked).value
}

/// Hypervisor configuration enabling stage-2 translation: VM (bit 0),
/// RW (bit 31, EL1 is AArch64), AMO (bit 5) and FMO (bit 3).
///
/// Relies on `aarch64_cpu::registers::HCR_EL2` for the field offsets.
#[verifier::external_body]
pub fn hcr_vm_enabled() -> (r: u64)
    ensures
        r == 0x8000_0029u64,
{
    (HCR_EL2::VM::Enable + HCR_EL2::RW::EL1IsAarch64 + HCR_EL2::AMO::SET + HCR_EL2::FMO::SET).value
}

/// The hypervisor configuration the boot path installs before the
/// first guest entry: stage-2 on (VM, bit 0), EL1 is AArch64 (RW,
/// bit 31), forced write-back combining (FWB, bit 46), and IRQ, FIQ
/// and abort routing to EL2 (IMO, FMO, AMO: bits 4, 3, 5).
///
/// Relies on `aarch64_cpu::registers::HCR_EL2` for the field offsets.
#[verifier::external_body]
pub fn hcr_boot() -> (r: u64)
    ensures
        r == 0x4000_8000_0039u64,
{
    (HCR_EL2::FWB::Enabled + HCR_EL2::VM::Enable + HCR_EL2::RW::EL1IsAarch64 + HCR_EL2::IMO::SET
        + HCR_EL2::FMO::SET + HCR_EL2::AMO::SET).value
}

/// Stage-2 translation control: 44-bit physical range (PS=0b100),
/// 4 KiB granule, inner-shareable, write-back cacheable walks,
/// start level 0 (SL0=0b10) and a 44-bit input range (T0SZ=20).
///
/// Relies on `aarch64_cpu::registers::VTCR_EL2` for the field offsets.
#[verifier::external_body]
pub fn vtcr_stage2() -> (r: u64)
    ensures
        r == 0x4_3594u64,
{
    (VTCR_EL2::PS::PA_44B_16TB + VTCR_EL2::TG0::Granule4KB + VTCR_EL2::SH0::Inner
        + VTCR_EL2::ORGN0::NormalWBRAWA + VTCR_EL2::IRGN0::NormalWBRAWA
        + VTCR_EL2::SL0::Granule4KBLevel0 + VTCR_EL2::T0SZ.val(20)).value
}

/// Hypervisor stage-1 translation control: 40-bit physical range,
/// 4 KiB granule, inner-shareable write-back walks, 48-bit input
/// range (T0SZ=16).
///
/// Relies on `aarch64_cpu::registers::TCR_EL2` for the field offsets.
#[verifier::external_body]
pub fn tcr_hypervisor() -> (r: u64)
    ensures
        r == 0x2_3510u64,
{
    (TCR_EL2::PS::Bits_40 + TCR_EL2::TG0::KiB_4 + TCR_EL2::SH0::Inner
        + TCR_EL2::ORGN0::WriteBack_ReadAlloc_WriteAlloc_Cacheable
        + TCR_EL2::IRGN0::WriteBack_ReadAlloc_WriteAlloc_Cacheable + TCR_EL2::T0SZ.val(16)).value
}

/// Memory attribute indirection for the hypervisor: index 0 is
/// device-nGnRE (0b0000_0100), index 1 is normal write-back
/// read/write-allocate, inner and outer (0b1111_1111).
///
/// Relies on `aarch64_cpu::registers::MAIR_EL2` for the attribute encodings.
#[verifier::external_body]
pub fn mair_hypervisor() -> (r: u64)
    ensures
        r == 0xff04u64,
{
    (MAIR_EL2::Attr0_Device::nonGathering_nonReordering_EarlyWriteAck
        + MAIR_EL2::Attr1_Normal_Inner::WriteBack_NonTransient_ReadWriteAlloc
        + MAIR_EL2::Attr1_Normal_Outer::WriteBack_NonTransient_ReadWriteAlloc).value
}

/// The words the boot path programs into the hypervisor's own
/// memory-attribute, translation-control and hypervisor-control
/// registers before switching the MMU on and entering a guest.
pub fn hypervisor_mmu_config() -> (r: (u64, u64, u64))
    ensures
        r.0 == 0xff04u64,
        r.1 == 0x2_3510u64,
        r.2 == 0x4000_8000_0039u64,
{
    (mair_hypervisor(), tcr_hypervisor(), hcr_boot())
}

} // verus!
