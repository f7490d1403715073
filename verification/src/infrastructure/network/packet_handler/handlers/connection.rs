//! Connection-related packet handlers (DEVICE_CONNECTED, HEARTBEAT).
use vstd::prelude::*;
use crate::infrastructure::network::packet_handler::{
    decoded, kind_opcode, DeviceEvent, HandlerKind, PacketHandler,
};
use crate::infrastructure::network::packet_handler::payload::after;
use crate::infrastructure::protocol::opcodes;
use crate::net::io::{parse_string, ByteReader, PacketReadError, ProtocolReadExt};
use crate::infrastructure::network::packet_handler::payload::decode_three_strings;
use crate::infrastructure::repositories::in_memory_device_repo::{
    saved,
    Device,
    InMemoryDeviceRepository,
};
use crate::network::device_name_manager::DeviceNamesStore;

verus! {

/// Handles DEVICE_CONNECTED packets.
/// Payload: [model: String][serial: String][version: String]
pub struct DeviceConnectedHandler {}

/// The device recorded when a known device reports itself: the reported
/// model, serial and client version, the address it connected from, and
/// the custom name stored for the reported serial (none if none is).
pub open spec fn connected_device(
    d: Device,
    before: Device,
    model: Seq<char>,
    serial: Seq<char>,
    version: Seq<char>,
    names: Map<Seq<char>, Seq<char>>,
) -> bool {
    &&& d.id == before.id
    &&& d.model@ == model
    &&& d.serial@ == serial
    &&& d.version matches Some(reported) && reported@ == version
    &&& d.ip_address == before.ip_address
    &&& d.volume is None
    &&& d.battery is None
    &&& d.running_app is None
    &&& (if names.contains_key(serial) {
        d.custom_name matches Some(n) && n@ == names[serial]
    } else {
        d.custom_name is None
    })
}

impl DeviceConnectedHandler {
    pub fn new() -> Self {
        DeviceConnectedHandler {  }
    }

    /// Apply a DEVICE_CONNECTED packet from device `device_id` to the
    /// repository. A payload that does not read as three strings is a read
    /// error; a device the repository does not know is ignored; a known
    /// device is replaced by one with the reported model, serial and
    /// version and the custom name stored for that serial, and returned.
    /// The repository is unchanged unless the device is replaced.
    pub fn apply_to_repository(
        &self,
        repo: &mut InMemoryDeviceRepository,
        names: &DeviceNamesStore,
        device_id: u128,
        payload: Vec<u8>,
    ) -> (res: Result<Option<Device>, PacketReadError>)
        ensures
            match decode_three_strings(payload@) {
                Err(e) => res == Err::<Option<Device>, PacketReadError>(e) && final(repo)@ == old(
                    repo,
                )@,
                Ok((m, s, v)) => if old(repo)@.devices.contains_key(device_id) {
                    res matches Ok(Some(d)) && connected_device(
                        d,
                        old(repo)@.devices[device_id],
                        m,
                        s,
                        v,
                        names@,
                    ) && final(repo)@ == saved(old(repo)@, d)
                } else {
                    res == Ok::<Option<Device>, PacketReadError>(None) && final(repo)@ == old(
                        repo,
                    )@
                },
            },
    {
        let event = match self.handle(payload) {
            Ok(e) => e,
            Err(e) => {
                return Err(e);
            },
        };
        let (model, serial, version) = match event {
            DeviceEvent::DeviceConnected { model, serial, version } => (model, serial, version),
            _ => {
                return Ok(None);
            },
        };
        let existing = match repo.find_by_id(device_id) {
            Some(d) => d,
            None => {
                return Ok(None);
            },
        };
        let custom_name = names.get_name(serial.as_str());
        let device = Device::new(device_id, serial, model, existing.ip_address).with_custom_name(
            custom_name,
        ).with_version(version);
        let stored = device.duplicate();
        let _ = repo.save(stored);
        Ok(Some(device))
    }
}

impl PacketHandler for DeviceConnectedHandler {
    fn opcode(&self) -> (op: u8)
        ensures
            op == kind_opcode(HandlerKind::DeviceConnected),
    {
        opcodes::DEVICE_CONNECTED
    }

    fn handle(&self, payload: Vec<u8>) -> (res: Result<DeviceEvent, PacketReadError>)
        ensures
            decoded(HandlerKind::DeviceConnected, payload@, res),
    {
        let ghost p = payload@;
        let mut cursor = ByteReader::new(payload);
        let model = cursor.read_string()?;
        let ghost n = parse_string(p)->Ok_0.1;
        let serial = cursor.read_string()?;
        let ghost m = parse_string(after(p, n))->Ok_0.1;
        assert(after(after(p, n), m) =~= after(p, n + m));
        let version = cursor.read_string()?;
        Ok(DeviceEvent::DeviceConnected { model, serial, version })
    }
}

/// Handles HEARTBEAT packets (no payload).
pub struct HeartbeatHandler {}

impl HeartbeatHandler {
    pub fn new() -> Self {
        HeartbeatHandler {  }
    }
}

impl PacketHandler for HeartbeatHandler {
    fn opcode(&self) -> (op: u8)
        ensures
            op == kind_opcode(HandlerKind::Heartbeat),
    {
        opcodes::HEARTBEAT
    }

    fn handle(&self, payload: Vec<u8>) -> (res: Result<DeviceEvent, PacketReadError>)
        ensures
            decoded(HandlerKind::Heartbeat, payload@, res),
    {
        Ok(DeviceEvent::Heartbeat)
    }
}

} // verus!
