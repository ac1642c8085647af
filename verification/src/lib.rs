//! Host-side adapter core for a G3-PLC / PRIME power-line modem.
//!
//! The modem is driven over a byte-oriented serial link with a framed,
//! escape-encoded, CRC-protected protocol (the USI framing).  This crate
//! holds the verified core: the frame codec, the CRC algorithms, the ADP
//! message model and routing rules, and the table-driven application state
//! machine that steers the modem through its initialization lifecycle.
//! Transport, threads and channels live outside the library.

pub mod adp;
pub mod app_manager;
pub mod codec_props;
pub mod common;
pub mod crc;
pub mod manager_props;
pub mod usi;
