//! Host-side library for the franklyboot firmware-update protocol.
//!
//! The crate covers the bootloader wire protocol and the page-oriented
//! flashing state machine: the fixed-size request/response frames, the
//! transport-abstract communication layer, the device-attribute registry
//! built from protocol exchanges, and the erase/flash/verify sequence
//! driven page by page through a remote page buffer.

pub mod com;
pub mod crc;
pub mod device;
pub mod image;
pub mod msg;
pub mod sim;
