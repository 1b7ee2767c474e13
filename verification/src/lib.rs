//! Flash translation and address-virtualization layer for a battery-powered
//! e-paper note device.
//!
//! The library turns a sector-erasable NOR flash chip into a block device for
//! a mass-storage host, a linear memory for a firmware-update host, and a
//! small persisted control store.  The physical chip sits behind the
//! [`chip::FlashChip`] trait; [`mem_flash::MemFlash`] is the concrete
//! implementation used here, an in-memory NOR simulator with fault injection.

pub mod chip;
pub mod config;
pub mod dfu;
pub mod errors;
pub mod flash;
pub mod mem_flash;
pub mod nvm;
pub mod transfer;
pub mod usb;
pub mod voltage;
