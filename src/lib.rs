//! Framing and session logic for a wireless wristband that speaks a small
//! length-prefixed, CRC-protected packet protocol over a notify/write
//! characteristic.
//!
//! - `crc`: the CRC-16 that protects every frame.
//! - `frame`: building frames from command payloads, and reading the trailer
//!   of inbound notifications.
//! - `session`: the handshake as a state machine that tells its caller which
//!   transport operation to perform next.

pub mod crc;
pub mod frame;
pub mod session;
