//! Early-boot core of a bare-metal kernel: the virtual memory layout and its translation
//! table, the driver registry, the boot sequence, the single-core lock and the chain-load
//! framing.

pub mod boot;
pub mod bsp;
pub mod chainload;
pub mod driver;
pub mod memory;
pub mod synchronization;
