//! Application-related packet handlers (FOREGROUND_APP_CHANGED).
use vstd::prelude::*;
use crate::infrastructure::network::packet_handler::{
    decoded, kind_opcode, DeviceEvent, HandlerKind, PacketHandler,
};
use crate::infrastructure::protocol::opcodes;
use crate::net::io::{ByteReader, PacketReadError, ProtocolReadExt};
use crate::infrastructure::network::packet_handler::payload::decode_two_strings;
use crate::infrastructure::repositories::in_memory_device_repo::{
    saved,
    Device,
    InMemoryDeviceRepository,
};

verus! {

/// Handles FOREGROUND_APP_CHANGED packets.
/// Payload: [package_name: String][app_name: String]
pub struct ForegroundAppChangedHandler {}

/// The device's running app is `app`.
pub open spec fn runs_app(d: Device, app: Seq<char>) -> bool {
    d.running_app matches Some(a) && a@ == app
}

impl ForegroundAppChangedHandler {
    pub fn new() -> Self {
        ForegroundAppChangedHandler {  }
    }

    /// Apply a FOREGROUND_APP_CHANGED packet from device `device_id` to the
    /// repository: a known device records the reported app name as its
    /// running app and is returned; an unknown device is ignored.
    pub fn apply_to_repository(
        &self,
        repo: &mut InMemoryDeviceRepository,
        device_id: u128,
        payload: Vec<u8>,
    ) -> (res: Result<Option<Device>, PacketReadError>)
        ensures
            match decode_two_strings(payload@) {
                Err(e) => res == Err::<Option<Device>, PacketReadError>(e) && final(repo)@ == old(
                    repo,
                )@,
                Ok((_, app)) => if old(repo)@.devices.contains_key(device_id) {
                    res matches Ok(Some(d)) && d == (Device {
                        running_app: d.running_app,
                        ..old(repo)@.devices[device_id]
                    }) && runs_app(d, app) && final(repo)@ == saved(
                        old(repo)@,
                        d,
                    )
                } else {
                    res == Ok::<Option<Device>, PacketReadError>(None) && final(repo)@ == old(
                        repo,
                    )@
                },
            },
    {
        let event = match self.handle(payload) {
            Ok(e) => e,
            Err(e) => {
                return Err(e);
            },
        };
        let app_name = match event {
            DeviceEvent::ForegroundAppChanged { app_name, .. } => app_name,
            _ => {
                return Ok(None);
            },
        };
        let device = match repo.find_by_id(device_id) {
            Some(d) => d,
            None => {
                return Ok(None);
            },
        };
        let updated = device.with_running_app(app_name);
        let _ = repo.save(updated.duplicate());
        Ok(Some(updated))
    }
}

impl PacketHandler for ForegroundAppChangedHandler {
    fn opcode(&self) -> (op: u8)
        ensures
            op == kind_opcode(HandlerKind::ForegroundAppChanged),
    {
        opcodes::FOREGROUND_APP_CHANGED
    }

    fn handle(&self, payload: Vec<u8>) -> (res: Result<DeviceEvent, PacketReadError>)
        ensures
            decoded(HandlerKind::ForegroundAppChanged, payload@, res),
    {
        let mut cursor = ByteReader::new(payload);
        let package_name = cursor.read_string()?;
        let app_name = cursor.read_string()?;
        Ok(DeviceEvent::ForegroundAppChanged { package_name, app_name })
    }
}

} // verus!
