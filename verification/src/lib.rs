//! Binary-protocol core of a serial host for a key-matrix device: telemetry
//! frame synchronisation and decoding, and the bootloader's firmware upload
//! framing. The library performs no I/O: callers hand it the bytes they read
//! and write out the bytes it returns.
//!
//! - [`telemetry`]: the 24-byte telemetry frame and its decoding.
//! - [`serial`]: the bounded receive buffer and the search for the next frame.
//! - [`matrix`]: the connection session and its tolerance of failing reads.
//! - [`crc32`]: the bootloader's CRC32.
//! - [`protocol`]: the frames of the upload protocol.
//! - [`bootloader`]: the firmware upload as a state machine.
//! - [`config`]: link settings and display names.
//! - [`error`]: the failures reported to callers.

pub mod bootloader;
pub mod bytes;
pub mod config;
pub mod crc32;
pub mod error;
pub mod matrix;
pub mod protocol;
pub mod serial;
pub mod telemetry;
