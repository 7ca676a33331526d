//! User-space protocol stack for an IT930x USB TV-tuner bridge chip.
//!
//! The crate covers the binary control-message protocol (framing, checksum,
//! sequencing, error mapping), register access on top of it, the two-hop I2C
//! bridging chain, the firmware scatter-write upload format, and cached GPIO
//! state management.  All bus I/O goes through the [`bus::BusOps`] capability
//! trait, so the logic here is verified against the trait's contract and can
//! be driven by a real USB transport or by a scripted one.

pub mod checksum;
pub mod errors;
pub mod bus;
pub mod frame;
pub mod it930x;
pub mod regs;
pub mod gpio;
pub mod i2c;
pub mod firmware;
pub mod tc90522;
pub mod rt710;
pub mod r850;
pub mod bringup;
pub mod px4_device;
