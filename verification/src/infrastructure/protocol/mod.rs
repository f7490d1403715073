//! Device protocol definitions: opcodes and raw packets.
pub mod opcodes;

use vstd::prelude::*;

verus! {

/// A packet as it comes off the wire: its opcode and its payload bytes.
#[derive(Debug)]
pub struct RawPacket {
    pub opcode: u8,
    pub payload: Vec<u8>,
}

} // verus!
