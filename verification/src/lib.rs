//! Core of a lightweight partitioning hypervisor.
//!
//! A physical machine is split statically into isolated zones: one privileged
//! root zone and a number of non-root zones, each owning a fixed slice of
//! CPUs, memory, interrupts and PCI devices. This crate holds the decision
//! logic that enforces the partitioning at runtime: GICv3 interrupt
//! virtualization, the MMIO trap router, PCI ECAM emulation with BAR sizing,
//! the cross-zone virtio trampoline, and per-CPU bring-up. All hardware
//! register traffic happens outside this crate; every function here works on
//! the plain values read from, or destined for, those registers.

pub mod consts;
pub mod cpu;
pub mod error;
pub mod gicv3;
pub mod hypercall;
pub mod logging;
pub mod memory;
pub mod pci;
pub mod virtio;
pub mod zone;

pub use error::HvError;
pub use error::HvResult;
