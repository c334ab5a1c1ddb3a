//! Emulated MMIO devices: the per-guest view of the platform.

pub mod dummy;
pub mod fifo;
pub mod pl011;
pub mod vgic;
pub mod virtio;
