//! Nordic DFU init packet construction.
//!
//! Builds the 14-byte init packet that replaces the .dat file inside a DFU
//! ZIP. All fields are little-endian.
use vstd::prelude::*;
use crate::infrastructure::sensor::dfu::crc16::{calc_crc16, crc16_spec};
use crate::infrastructure::sensor::dfu::hci::u16_le;

verus! {

/// nRF52840 device type.
pub const DEVICE_TYPE: u16 = 0x0052;

/// Any device revision.
pub const DEVICE_REV: u16 = 0xFFFF;

/// Any application version.
pub const APP_VERSION: u32 = 0xFFFFFFFF;

/// Number of accepted SoftDevice versions.
pub const SD_COUNT: u16 = 1;

/// Accept any SoftDevice.
pub const SD_REQ: u16 = 0xFFFE;

/// A 32-bit value in little-endian byte order.
pub open spec fn u32_le(v: u32) -> Seq<u8> {
    seq![
        (v % 0x100) as u8,
        ((v / 0x100) % 0x100) as u8,
        ((v / 0x10000) % 0x100) as u8,
        (v / 0x1000000) as u8,
    ]
}

/// The init packet for a firmware image: device type, revision, application
/// version, SoftDevice count and requirement, then the image's CRC16.
pub open spec fn init_packet_spec(firmware: Seq<u8>) -> Seq<u8> {
    u16_le(DEVICE_TYPE) + u16_le(DEVICE_REV) + u32_le(APP_VERSION) + u16_le(SD_COUNT) + u16_le(
        SD_REQ,
    ) + u16_le(crc16_spec(firmware))
}

pub fn build_init_packet(firmware: &[u8]) -> (pkt: [u8; 14])
    ensures
        pkt@ == init_packet_spec(firmware@),
{
    let firmware_crc = calc_crc16(firmware);
    let pkt: [u8; 14] = [
        0x52,
        0x00,
        0xFF,
        0xFF,
        0xFF,
        0xFF,
        0xFF,
        0xFF,
        0x01,
        0x00,
        0xFE,
        0xFF,
        (firmware_crc % 256) as u8,
        (firmware_crc / 256) as u8,
    ];
    assert(pkt@ =~= init_packet_spec(firmware@));
    pkt
}

} // verus!
