//! Response packet handlers: replies of devices to commands.
use vstd::prelude::*;
use crate::infrastructure::network::packet_handler::{
    decoded, kind_opcode, simple_response_texts, stage_spec, CommandResult, DeviceEvent,
    HandlerKind, OperationStage, OperationType, PacketHandler,
};
use crate::infrastructure::network::packet_handler::payload::{
    after, decode_flag_string, format_uuid, read_strings,
};
use crate::infrastructure::protocol::opcodes;
use crate::net::io::{parse_string, ByteReader, PacketReadError, ProtocolReadExt};
use crate::infrastructure::network::packet_handler::reply_percentage;
use crate::infrastructure::repositories::in_memory_device_repo::{
    saved,
    Device,
    InMemoryDeviceRepository,
};

verus! {

/// Reply of a command that carries only a success flag.
fn simple_response(kind: HandlerKind, payload: Vec<u8>) -> (res: Result<DeviceEvent, PacketReadError>)
    requires
        kind is LaunchAppResponse || kind is ApkInstallResponse || kind is UninstallAppResponse,
    ensures
        decoded(kind, payload@, res),
{
    let mut cursor = ByteReader::new(payload);
    let success = cursor.read_u8()? != 0;
    let (command, ok_message, failure_message) = match kind {
        HandlerKind::LaunchAppResponse => (
            "launch_app",
            "App launched successfully",
            "Failed to launch app",
        ),
        HandlerKind::ApkInstallResponse => (
            "apk_install",
            "APK installed successfully",
            "Failed to install APK",
        ),
        _ => ("uninstall_app", "App uninstalled successfully", "Failed to uninstall app"),
    };
    let message = if success {
        ok_message.to_owned()
    } else {
        failure_message.to_owned()
    };
    Ok(DeviceEvent::CommandExecuted(CommandResult { command_type: command.to_owned(), success, message }))
}

/// Handles LAUNCH_APP_RESPONSE packets. Payload: [success: u8]
pub struct LaunchAppResponseHandler {}

impl LaunchAppResponseHandler {
    pub fn new() -> Self {
        LaunchAppResponseHandler {  }
    }
}

impl PacketHandler for LaunchAppResponseHandler {
    fn opcode(&self) -> (op: u8)
        ensures
            op == kind_opcode(HandlerKind::LaunchAppResponse),
    {
        opcodes::LAUNCH_APP_RESPONSE
    }

    fn handle(&self, payload: Vec<u8>) -> (res: Result<DeviceEvent, PacketReadError>)
        ensures
            decoded(HandlerKind::LaunchAppResponse, payload@, res),
    {
        simple_response(HandlerKind::LaunchAppResponse, payload)
    }
}

/// Handles APK_INSTALL_RESPONSE packets. Payload: [success: u8]
pub struct ApkInstallResponseHandler {}

impl ApkInstallResponseHandler {
    pub fn new() -> Self {
        ApkInstallResponseHandler {  }
    }
}

impl PacketHandler for ApkInstallResponseHandler {
    fn opcode(&self) -> (op: u8)
        ensures
            op == kind_opcode(HandlerKind::ApkInstallResponse),
    {
        opcodes::APK_INSTALL_RESPONSE
    }

    fn handle(&self, payload: Vec<u8>) -> (res: Result<DeviceEvent, PacketReadError>)
        ensures
            decoded(HandlerKind::ApkInstallResponse, payload@, res),
    {
        simple_response(HandlerKind::ApkInstallResponse, payload)
    }
}

/// Handles UNINSTALL_APP_RESPONSE packets. Payload: [success: u8]
pub struct UninstallAppResponseHandler {}

impl UninstallAppResponseHandler {
    pub fn new() -> Self {
        UninstallAppResponseHandler {  }
    }
}

impl PacketHandler for UninstallAppResponseHandler {
    fn opcode(&self) -> (op: u8)
        ensures
            op == kind_opcode(HandlerKind::UninstallAppResponse),
    {
        opcodes::UNINSTALL_APP_RESPONSE
    }

    fn handle(&self, payload: Vec<u8>) -> (res: Result<DeviceEvent, PacketReadError>)
        ensures
            decoded(HandlerKind::UninstallAppResponse, payload@, res),
    {
        simple_response(HandlerKind::UninstallAppResponse, payload)
    }
}

/// Handles PING_RESPONSE packets (payload ignored).
pub struct PingResponseHandler {}

impl PingResponseHandler {
    pub fn new() -> Self {
        PingResponseHandler {  }
    }
}

impl PacketHandler for PingResponseHandler {
    fn opcode(&self) -> (op: u8)
        ensures
            op == kind_opcode(HandlerKind::PingResponse),
    {
        opcodes::PING_RESPONSE
    }

    fn handle(&self, payload: Vec<u8>) -> (res: Result<DeviceEvent, PacketReadError>)
        ensures
            decoded(HandlerKind::PingResponse, payload@, res),
    {
        Ok(
            DeviceEvent::CommandExecuted(
                CommandResult {
                    command_type: "ping".to_owned(),
                    success: true,
                    message: "Ping successful".to_owned(),
                },
            ),
        )
    }
}

/// Handles APK_DOWNLOAD_STARTED packets (payload ignored).
pub struct ApkDownloadStartedHandler {}

impl ApkDownloadStartedHandler {
    pub fn new() -> Self {
        ApkDownloadStartedHandler {  }
    }
}

impl PacketHandler for ApkDownloadStartedHandler {
    fn opcode(&self) -> (op: u8)
        ensures
            op == kind_opcode(HandlerKind::ApkDownloadStarted),
    {
        opcodes::APK_DOWNLOAD_STARTED
    }

    fn handle(&self, payload: Vec<u8>) -> (res: Result<DeviceEvent, PacketReadError>)
        ensures
            decoded(HandlerKind::ApkDownloadStarted, payload@, res),
    {
        Ok(
            DeviceEvent::CommandExecuted(
                CommandResult {
                    command_type: "apk_download".to_owned(),
                    success: true,
                    message: "APK download started".to_owned(),
                },
            ),
        )
    }
}

/// Handles SHELL_EXECUTION_RESPONSE packets.
/// Payload: [success: u8][output: String][exit_code: i32]
pub struct ShellExecutionResponseHandler {}

impl ShellExecutionResponseHandler {
    pub fn new() -> Self {
        ShellExecutionResponseHandler {  }
    }
}

impl PacketHandler for ShellExecutionResponseHandler {
    fn opcode(&self) -> (op: u8)
        ensures
            op == kind_opcode(HandlerKind::ShellExecutionResponse),
    {
        opcodes::SHELL_EXECUTION_RESPONSE
    }

    fn handle(&self, payload: Vec<u8>) -> (res: Result<DeviceEvent, PacketReadError>)
        ensures
            decoded(HandlerKind::ShellExecutionResponse, payload@, res),
    {
        let ghost p = payload@;
        let mut cursor = ByteReader::new(payload);
        let success = cursor.read_u8()? != 0;
        let output = cursor.read_string()?;
        let ghost n = parse_string(after(p, 1))->Ok_0.1;
        assert(after(after(p, 1), n) =~= after(p, 1 + n));
        let exit_code = cursor.read_i32_be()?;
        Ok(
            DeviceEvent::ShellExecuted {
                result: CommandResult { command_type: "shell_execution".to_owned(), success, message: output },
                exit_code,
            },
        )
    }
}

/// Handles INSTALLED_APPS_RESPONSE packets.
/// Payload: [count: u32][package_name: String; count]
pub struct InstalledAppsResponseHandler {}

impl InstalledAppsResponseHandler {
    pub fn new() -> Self {
        InstalledAppsResponseHandler {  }
    }
}

impl PacketHandler for InstalledAppsResponseHandler {
    fn opcode(&self) -> (op: u8)
        ensures
            op == kind_opcode(HandlerKind::InstalledAppsResponse),
    {
        opcodes::INSTALLED_APPS_RESPONSE
    }

    fn handle(&self, payload: Vec<u8>) -> (res: Result<DeviceEvent, PacketReadError>)
        ensures
            decoded(HandlerKind::InstalledAppsResponse, payload@, res),
    {
        let mut cursor = ByteReader::new(payload);
        let count = cursor.read_u32_be()?;
        let apps = read_strings(&mut cursor, count)?;
        Ok(DeviceEvent::InstalledApps(apps))
    }
}

/// Handles VOLUME_SET_RESPONSE packets: the device reports the volume
/// percentage it actually set in the message.
/// Payload: [success: u8][message: String]
pub struct VolumeSetResponseHandler {}

/// The volume level and scale for a reported percentage on a device whose
/// stored volume is `stored`: its scale, else the default one.
pub open spec fn level_for(percentage: u8, stored: Option<(u8, u8)>) -> (u8, u8) {
    let max: u8 = match stored {
        Some((_, m)) => m,
        None => DEFAULT_MAX_VOLUME,
    };
    (((percentage as int * max as int / 100) % 256) as u8, max)
}

impl VolumeSetResponseHandler {
    pub fn new() -> Self {
        VolumeSetResponseHandler {  }
    }

    /// Apply a VOLUME_SET_RESPONSE packet from device `device_id` to the
    /// repository. When the reply succeeded and names a percentage and the
    /// device is known, the device's volume becomes the level for that
    /// percentage on its scale (15 when none is stored), and the
    /// percentage, level and scale are returned. Otherwise nothing changes.
    pub fn apply_to_repository(
        &self,
        repo: &mut InMemoryDeviceRepository,
        device_id: u128,
        payload: Vec<u8>,
    ) -> (res: Result<Option<(u8, u8, u8)>, PacketReadError>)
        ensures
            match decode_flag_string(payload@) {
                Err(e) => res == Err::<Option<(u8, u8, u8)>, PacketReadError>(e) && final(repo)@
                    == old(repo)@,
                Ok((success, message, _)) => {
                    &&& forall|p: u8|
                        #![trigger reply_percentage(success, message, Some(p))]
                        reply_percentage(success, message, Some(p)) && old(
                            repo,
                        )@.devices.contains_key(device_id) ==> {
                            let before = old(repo)@.devices[device_id];
                            let lv = level_for(p, before.volume);
                            &&& res == Ok::<Option<(u8, u8, u8)>, PacketReadError>(
                                Some((p, lv.0, lv.1)),
                            )
                            &&& final(repo)@ == saved(
                                old(repo)@,
                                Device { volume: Some(lv), ..before },
                            )
                        }
                    &&& (reply_percentage(success, message, None) || !old(
                        repo,
                    )@.devices.contains_key(device_id)) ==> res == Ok::<
                        Option<(u8, u8, u8)>,
                        PacketReadError,
                    >(None) && final(repo)@ == old(repo)@
                },
            },
    {
        let event = match self.handle(payload) {
            Ok(e) => e,
            Err(e) => {
                return Err(e);
            },
        };
        let percentage = match event {
            DeviceEvent::VolumeSet { percentage, .. } => percentage,
            _ => {
                return Ok(None);
            },
        };
        let p = match percentage {
            Some(p) => p,
            None => {
                return Ok(None);
            },
        };
        let device = match repo.find_by_id(device_id) {
            Some(d) => d,
            None => {
                return Ok(None);
            },
        };
        let scale = match device.volume {
            Some((_, m)) => Some(m),
            None => None,
        };
        let (level, max) = volume_level_from_percentage(p, scale);
        let updated = device.with_volume(level, max);
        let _ = repo.save(updated);
        Ok(Some((p, level, max)))
    }
}

impl PacketHandler for VolumeSetResponseHandler {
    fn opcode(&self) -> (op: u8)
        ensures
            op == kind_opcode(HandlerKind::VolumeSetResponse),
    {
        opcodes::VOLUME_SET_RESPONSE
    }

    fn handle(&self, payload: Vec<u8>) -> (res: Result<DeviceEvent, PacketReadError>)
        ensures
            decoded(HandlerKind::VolumeSetResponse, payload@, res),
    {
        let mut cursor = ByteReader::new(payload);
        let success = cursor.read_u8()? != 0;
        let message = cursor.read_string()?;
        let percentage = if success {
            crate::words::first_percentage(message.as_str())
        } else {
            None
        };
        Ok(
            DeviceEvent::VolumeSet {
                result: CommandResult { command_type: "volume_set".to_owned(), success, message },
                percentage,
            },
        )
    }
}

/// Progress report of a tracked operation.
/// Payload: [operation_id: 16 bytes][stage: u8][percentage: f32 BE]
fn progress_event(operation: OperationType, payload: Vec<u8>) -> (res: Result<
    DeviceEvent,
    PacketReadError,
>)
    ensures
        decoded(
            if operation is Download {
                HandlerKind::ApkDownloadProgress
            } else {
                HandlerKind::ApkInstallProgress
            },
            payload@,
            res,
        ),
{
    let ghost p = payload@;
    if payload.len() < 21 {
        return Err(PacketReadError::UnexpectedEof);
    }
    let mut cursor = ByteReader::new(payload);
    let id = cursor.read_bytes(16)?;
    let stage_byte = cursor.read_u8()?;
    let percentage_bits = cursor.read_u32_be()?;
    assert(after(p, 17).subrange(0, 4) =~= p.subrange(17, 21));
    let stage = if stage_byte == 0 {
        OperationStage::Started
    } else if stage_byte == 2 {
        OperationStage::Completed
    } else if stage_byte == 3 {
        OperationStage::Failed
    } else {
        OperationStage::InProgress
    };
    let operation_id = format_uuid(&id);
    Ok(DeviceEvent::OperationProgress { operation, operation_id, stage, percentage_bits })
}

/// Handles APK_DOWNLOAD_PROGRESS packets.
pub struct ApkDownloadProgressHandler {}

impl ApkDownloadProgressHandler {
    pub fn new() -> Self {
        ApkDownloadProgressHandler {  }
    }
}

impl PacketHandler for ApkDownloadProgressHandler {
    fn opcode(&self) -> (op: u8)
        ensures
            op == kind_opcode(HandlerKind::ApkDownloadProgress),
    {
        opcodes::APK_DOWNLOAD_PROGRESS
    }

    fn handle(&self, payload: Vec<u8>) -> (res: Result<DeviceEvent, PacketReadError>)
        ensures
            decoded(HandlerKind::ApkDownloadProgress, payload@, res),
    {
        progress_event(OperationType::Download, payload)
    }
}

/// Handles APK_INSTALL_PROGRESS packets.
pub struct ApkInstallProgressHandler {}

impl ApkInstallProgressHandler {
    pub fn new() -> Self {
        ApkInstallProgressHandler {  }
    }
}

impl PacketHandler for ApkInstallProgressHandler {
    fn opcode(&self) -> (op: u8)
        ensures
            op == kind_opcode(HandlerKind::ApkInstallProgress),
    {
        opcodes::APK_INSTALL_PROGRESS
    }

    fn handle(&self, payload: Vec<u8>) -> (res: Result<DeviceEvent, PacketReadError>)
        ensures
            decoded(HandlerKind::ApkInstallProgress, payload@, res),
    {
        progress_event(OperationType::Install, payload)
    }
}

/// Handles CLOSE_ALL_APPS_RESPONSE packets.
/// Payload: [success: u8][message: String][closed_count: u32][closed_apps: String; count]
pub struct CloseAllAppsResponseHandler {}

impl CloseAllAppsResponseHandler {
    pub fn new() -> Self {
        CloseAllAppsResponseHandler {  }
    }
}

impl PacketHandler for CloseAllAppsResponseHandler {
    fn opcode(&self) -> (op: u8)
        ensures
            op == kind_opcode(HandlerKind::CloseAllAppsResponse),
    {
        opcodes::CLOSE_ALL_APPS_RESPONSE
    }

    fn handle(&self, payload: Vec<u8>) -> (res: Result<DeviceEvent, PacketReadError>)
        ensures
            decoded(HandlerKind::CloseAllAppsResponse, payload@, res),
    {
        let ghost p = payload@;
        let mut cursor = ByteReader::new(payload);
        let success = cursor.read_u8()? != 0;
        let message = cursor.read_string()?;
        let ghost n = decode_flag_string(p)->Ok_0.2;
        assert(after(after(p, 1), (n - 1) as nat) =~= after(p, n));
        let ghost q = after(p, n);
        let closed_count = cursor.read_u32_be()?;
        assert(after(q, 4) =~= cursor@);
        let closed_apps = read_strings(&mut cursor, closed_count)?;
        let result = if success {
            CommandResult {
                command_type: "close_all_apps".to_owned(),
                success,
                message: "Successfully closed all apps".to_owned(),
            }
        } else {
            CommandResult { command_type: "close_all_apps".to_owned(), success, message }
        };
        Ok(DeviceEvent::CloseAllApps { result, closed_apps })
    }
}

/// Volume scale assumed for a device whose scale is not known yet.
pub const DEFAULT_MAX_VOLUME: u8 = 15;

/// The volume level that a reported percentage stands for on a scale of
/// `max` (the device's scale, else 15): `percentage * max / 100`, rounded
/// down and kept to its low byte.
pub fn volume_level_from_percentage(percentage: u8, max: Option<u8>) -> (r: (u8, u8))
    ensures
        r.1 == (match max {
            Some(m) => m,
            None => DEFAULT_MAX_VOLUME,
        }),
        r.0 == (percentage as int * r.1 as int / 100) % 256,
{
    let scale = match max {
        Some(m) => m,
        None => DEFAULT_MAX_VOLUME,
    };
    assert(percentage as int * scale as int <= 255 * 255) by (nonlinear_arith)
        requires
            percentage <= 255,
            scale <= 255,
    ;
    let product: u16 = percentage as u16 * scale as u16;
    let level = ((product / 100) % 256) as u8;
    (level, scale)
}

} // verus!
