//! Verified core of the Arceus device manager: the Nordic DFU wire format
//! (CRC16, SLIP, HCI framing, init packets) and upload plan, firmware name
//! patching, XIAO board detection and information parsing, the device
//! protocol's codecs and packet handlers, the device and APK repositories,
//! game installation plans, and the decisions of the connection lifecycle.

pub mod infrastructure;
pub mod net;
pub mod network;
pub mod paths;
pub mod sorting;
pub mod text;
pub mod words;
