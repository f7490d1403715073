//! The lifecycle decisions of one device connection: the temporary serial
//! number given to a new connection, and when the message loop ends.
use vstd::prelude::*;
use vstd::utf8::encode_utf8;
use crate::infrastructure::protocol::RawPacket;
use crate::text::{all_ascii, append_hex_byte, ascii_chars, ascii_to_string, hex_byte_spec};
use crate::infrastructure::repositories::in_memory_device_repo::{
    removed,
    saved,
    Device,
    InMemoryDeviceRepository,
    RepositoryError,
};
use crate::network::device_name_manager::DeviceNamesStore;

verus! {

/// Byte `k` of `s`, or 0 past its end.
pub open spec fn byte_or_zero(s: Seq<u8>, k: int) -> u8 {
    if 0 <= k < s.len() {
        s[k]
    } else {
        0
    }
}

/// The temporary serial bytes of a connection: the first four bytes of the
/// textual IP address and the two bytes of the port (high first), each as
/// two upper-case hexadecimal digits, separated by colons.
pub open spec fn temp_serial_bytes(ip: Seq<u8>, port: u16) -> Seq<u8> {
    hex_byte_spec(byte_or_zero(ip, 0), true) + seq![58u8] + hex_byte_spec(byte_or_zero(ip, 1), true)
        + seq![58u8] + hex_byte_spec(byte_or_zero(ip, 2), true) + seq![58u8] + hex_byte_spec(
        byte_or_zero(ip, 3),
        true,
    ) + seq![58u8] + hex_byte_spec((port / 256) as u8, true) + seq![58u8] + hex_byte_spec(
        (port % 256) as u8,
        true,
    )
}

proof fn lemma_hex_ascii(b: u8)
    ensures
        all_ascii(hex_byte_spec(b, true)),
{
}

/// A temporary serial number for a new connection from `ip_text` (the
/// address as text) and `port`, until the device reports its own; e.g.
/// `31:39:32:2E:1F:90` for 192.168.0.5:8080.
pub fn temp_serial(ip_text: &str, port: u16) -> (serial: String)
    ensures
        serial@ == ascii_chars(temp_serial_bytes(encode_utf8(ip_text@), port)),
{
    let ip = ip_text.as_bytes();
    let b0: u8 = if ip.len() > 0 { ip[0] } else { 0 };
    let b1: u8 = if ip.len() > 1 { ip[1] } else { 0 };
    let b2: u8 = if ip.len() > 2 { ip[2] } else { 0 };
    let b3: u8 = if ip.len() > 3 { ip[3] } else { 0 };
    let mut out: Vec<u8> = Vec::new();
    append_hex_byte(&mut out, b0, true);
    out.push(58);
    append_hex_byte(&mut out, b1, true);
    out.push(58);
    append_hex_byte(&mut out, b2, true);
    out.push(58);
    append_hex_byte(&mut out, b3, true);
    out.push(58);
    append_hex_byte(&mut out, (port / 256) as u8, true);
    out.push(58);
    append_hex_byte(&mut out, (port % 256) as u8, true);
    proof {
        let ipv = encode_utf8(ip_text@);
        assert(out@ =~= temp_serial_bytes(ipv, port));
        lemma_hex_ascii(b0);
        lemma_hex_ascii(b1);
        lemma_hex_ascii(b2);
        lemma_hex_ascii(b3);
        lemma_hex_ascii((port / 256) as u8);
        lemma_hex_ascii((port % 256) as u8);
        assert(all_ascii(out@)) by {
            assert forall|i: int| 0 <= i < out@.len() implies #[trigger] out@[i] < 128 by {
                let k = i / 3;
                if i % 3 == 2 {
                    assert(out@[i] == 58);
                } else {
                    let b = if k == 0 {
                        b0
                    } else if k == 1 {
                        b1
                    } else if k == 2 {
                        b2
                    } else if k == 3 {
                        b3
                    } else if k == 4 {
                        (port / 256) as u8
                    } else {
                        (port % 256) as u8
                    };
                    assert(out@[i] == hex_byte_spec(b, true)[i % 3]);
                }
            }
        }
    }
    ascii_to_string(out)
}

/// What one wait for a packet gave.
#[derive(Debug)]
pub enum ReceiveOutcome {
    /// A packet arrived.
    Packet(RawPacket),
    /// The device closed the connection.
    Closed,
    /// Receiving failed, with this error text.
    Failed(String),
    /// Nothing arrived within the heartbeat timeout.
    TimedOut,
}

/// Why the message loop ended.
#[derive(Debug, Clone, Copy, PartialEq, Eq, Structural)]
pub enum LoopEnd {
    Closed,
    ReceiveFailed,
    HeartbeatTimeout,
}

/// The next step of the message loop.
#[derive(Debug)]
pub enum LoopStep {
    /// Mark the device seen, handle the packet, and wait for the next one.
    Handle(RawPacket),
    /// End the loop.
    Stop(LoopEnd),
}

/// The message loop handles every packet that arrives and ends on the
/// first close, receive error or heartbeat timeout.
pub fn loop_step(outcome: ReceiveOutcome) -> (step: LoopStep)
    ensures
        outcome matches ReceiveOutcome::Packet(p) ==> step == LoopStep::Handle(p),
        outcome is Closed ==> step == LoopStep::Stop(LoopEnd::Closed),
        outcome is Failed ==> step == LoopStep::Stop(LoopEnd::ReceiveFailed),
        outcome is TimedOut ==> step == LoopStep::Stop(LoopEnd::HeartbeatTimeout),
{
    match outcome {
        ReceiveOutcome::Packet(p) => LoopStep::Handle(p),
        ReceiveOutcome::Closed => LoopStep::Stop(LoopEnd::Closed),
        ReceiveOutcome::Failed(_) => LoopStep::Stop(LoopEnd::ReceiveFailed),
        ReceiveOutcome::TimedOut => LoopStep::Stop(LoopEnd::HeartbeatTimeout),
    }
}

/// The device recorded for a new connection: the temporary serial, model
/// "Unknown", the peer's address, and the custom name stored for that
/// serial, if any.
pub open spec fn registered_device(
    d: Device,
    id: u128,
    ip_text: Seq<char>,
    port: u16,
    names: Map<Seq<char>, Seq<char>>,
) -> bool {
    let serial = ascii_chars(temp_serial_bytes(encode_utf8(ip_text), port));
    &&& d.id == id
    &&& d.serial@ == serial
    &&& d.model@ == "Unknown"@
    &&& d.ip_address@ == ip_text
    &&& (if names.contains_key(serial) {
        d.custom_name matches Some(n) && n@ == names[serial]
    } else {
        d.custom_name is None
    })
}

/// Record a new connection from `ip_text`:`port` as device `id`; the
/// repository refuses it when it is full.
pub fn register_device(
    repo: &mut InMemoryDeviceRepository,
    names: &DeviceNamesStore,
    id: u128,
    ip_text: &str,
    port: u16,
) -> (res: Result<Device, RepositoryError>)
    ensures
        !old(repo)@.devices.contains_key(id) && old(repo)@.devices.len()
            >= old(repo)@.max_capacity ==> res == Err::<Device, RepositoryError>(
            RepositoryError::CapacityExceeded {
                current: old(repo)@.devices.len() as usize,
                max: old(repo)@.max_capacity,
            },
        ) && final(repo)@ == old(repo)@,
        old(repo)@.devices.contains_key(id) || old(repo)@.devices.len() < old(repo)@.max_capacity
            ==> (res matches Ok(d) && registered_device(d, id, ip_text@, port, names@)
            && final(repo)@ == saved(old(repo)@, d)),
{
    let serial = temp_serial(ip_text, port);
    let custom_name = names.get_name(serial.as_str());
    proof {
        reveal_strlit("Unknown");
    }
    let device = Device::new(id, serial, "Unknown".to_owned(), ip_text.to_owned()).with_custom_name(
        custom_name,
    );
    match repo.save(device.duplicate()) {
        Ok(()) => Ok(device),
        Err(e) => Err(e),
    }
}

/// Forget a closed connection: the device leaves the repository, and the
/// serial it had is returned for the disconnect notice (`None` for an
/// unknown id).
pub fn cleanup_device(repo: &mut InMemoryDeviceRepository, id: u128) -> (serial: Option<String>)
    ensures
        final(repo)@ == removed(old(repo)@, id),
        serial is Some <==> old(repo)@.devices.contains_key(id),
        serial matches Some(s) ==> s@ == old(repo)@.devices[id].serial@,
{
    let found = repo.find_by_id(id);
    let _ = repo.remove(id);
    match found {
        Some(d) => Some(d.serial),
        None => None,
    }
}

} // verus!
