//! Device discovery and network-driver adaptation: PCI configuration-space
//! helpers, the driver registry and its dispatch, DMA accounting, packet
//! buffers and the E1000E network adapter.

pub mod dma;
pub mod drivers;
pub mod e1000e;
pub mod netbuf;
pub mod pci;
pub mod sim;
