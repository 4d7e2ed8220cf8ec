//! Host-side logic of Telink's USB-HID OTA update protocol: the CRC-16/MODBUS
//! checksum, the 33-byte report framing, acknowledgement checks, progress
//! rendering and command-line decisions, each with a verified contract.

pub mod crc;
pub mod packet;
pub mod text;
pub mod progress;
pub mod cli;
pub mod device;
pub mod session;
