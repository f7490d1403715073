//! Status update packet handlers (BATTERY_STATUS, VOLUME_STATUS).
use vstd::prelude::*;
use crate::infrastructure::network::packet_handler::{
    decoded, kind_opcode, volume_report_spec, DeviceEvent, HandlerKind, PacketHandler,
    VolumeReport,
};
use crate::infrastructure::protocol::opcodes;
use crate::net::io::{ByteReader, PacketReadError};
use crate::infrastructure::network::packet_handler::payload::decode_two_bytes;
use crate::infrastructure::repositories::in_memory_device_repo::{
    saved,
    Device,
    InMemoryDeviceRepository,
};

verus! {

/// Handles BATTERY_STATUS packets.
/// Payload: [level: u8][is_charging: bool]
pub struct BatteryStatusHandler {}

impl BatteryStatusHandler {
    pub fn new() -> Self {
        BatteryStatusHandler {  }
    }

    /// Apply a BATTERY_STATUS packet from device `device_id` to the
    /// repository: a known device records the level and charging flag. The
    /// reported level and flag are returned, for a known device or not.
    pub fn apply_to_repository(
        &self,
        repo: &mut InMemoryDeviceRepository,
        device_id: u128,
        payload: Vec<u8>,
    ) -> (res: Result<(u8, bool), PacketReadError>)
        ensures
            match decode_two_bytes(payload@) {
                Err(e) => res == Err::<(u8, bool), PacketReadError>(e) && final(repo)@ == old(
                    repo,
                )@,
                Ok((level, charging)) => res == Ok::<(u8, bool), PacketReadError>(
                    (level, charging != 0),
                ) && (if old(repo)@.devices.contains_key(device_id) {
                    final(repo)@ == saved(
                        old(repo)@,
                        Device {
                            battery: Some((level, charging != 0)),
                            ..old(repo)@.devices[device_id]
                        },
                    )
                } else {
                    final(repo)@ == old(repo)@
                }),
            },
    {
        let (level, is_charging) = match self.handle(payload) {
            Ok(DeviceEvent::BatteryStatus { level, is_charging }) => (level, is_charging),
            Ok(_) => {
                return Err(PacketReadError::InvalidData);
            },
            Err(e) => {
                return Err(e);
            },
        };
        if let Some(device) = repo.find_by_id(device_id) {
            let _ = repo.save(device.with_battery(level, is_charging));
        }
        Ok((level, is_charging))
    }
}

impl PacketHandler for BatteryStatusHandler {
    fn opcode(&self) -> (op: u8)
        ensures
            op == kind_opcode(HandlerKind::BatteryStatus),
    {
        opcodes::BATTERY_STATUS
    }

    fn handle(&self, payload: Vec<u8>) -> (res: Result<DeviceEvent, PacketReadError>)
        ensures
            decoded(HandlerKind::BatteryStatus, payload@, res),
    {
        let mut cursor = ByteReader::new(payload);
        let level = cursor.read_u8()?;
        let is_charging = cursor.read_u8()? != 0;
        Ok(DeviceEvent::BatteryStatus { level, is_charging })
    }
}

/// Read the two bytes of a volume status: `[percentage][max]` when the
/// first is larger than the second and the second is not zero,
/// `[current][max]` otherwise.
pub fn volume_report(first: u8, second: u8) -> (r: VolumeReport)
    ensures
        r == volume_report_spec(first, second),
{
    if first > second && second > 0 {
        VolumeReport::Percentage { percentage: first, max: second }
    } else {
        VolumeReport::Levels { current: first, max: second }
    }
}

/// Handles VOLUME_STATUS packets.
/// Payload: [current or percentage: u8][max: u8]
pub struct VolumeStatusHandler {}

impl VolumeStatusHandler {
    pub fn new() -> Self {
        VolumeStatusHandler {  }
    }

    /// Record a volume status on device `device_id`: a known device gets
    /// level `current` on a scale up to `max`; an unknown device is
    /// ignored. Whether the device was known is returned. (The level of a
    /// percentage report is computed in floating point, outside this
    /// library.)
    pub fn store_volume(
        &self,
        repo: &mut InMemoryDeviceRepository,
        device_id: u128,
        current: u8,
        max: u8,
    ) -> (stored: bool)
        ensures
            stored == old(repo)@.devices.contains_key(device_id),
            stored ==> final(repo)@ == saved(
                old(repo)@,
                Device { volume: Some((current, max)), ..old(repo)@.devices[device_id] },
            ),
            !stored ==> final(repo)@ == old(repo)@,
    {
        match repo.find_by_id(device_id) {
            Some(device) => {
                let _ = repo.save(device.with_volume(current, max));
                true
            },
            None => false,
        }
    }
}

impl PacketHandler for VolumeStatusHandler {
    fn opcode(&self) -> (op: u8)
        ensures
            op == kind_opcode(HandlerKind::VolumeStatus),
    {
        opcodes::VOLUME_STATUS
    }

    fn handle(&self, payload: Vec<u8>) -> (res: Result<DeviceEvent, PacketReadError>)
        ensures
            decoded(HandlerKind::VolumeStatus, payload@, res),
    {
        let mut cursor = ByteReader::new(payload);
        let first = cursor.read_u8()?;
        let second = cursor.read_u8()?;
        Ok(DeviceEvent::VolumeStatus(volume_report(first, second)))
    }
}

} // verus!
