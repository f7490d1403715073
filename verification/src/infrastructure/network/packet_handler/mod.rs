//! Packet handler system: decoding the packets that devices send into
//! events, and the registry that picks the handler for an opcode.
pub mod handlers;
pub mod payload;

use vstd::prelude::*;
use std::collections::HashMap;
use crate::infrastructure::protocol::opcodes;
use crate::net::io::PacketReadError;
use crate::infrastructure::protocol::RawPacket;
use handlers::{
    ApkDownloadProgressHandler, ApkDownloadStartedHandler, ApkInstallProgressHandler,
    ApkInstallResponseHandler, BatteryStatusHandler, CloseAllAppsResponseHandler,
    DeviceConnectedHandler, ForegroundAppChangedHandler, HeartbeatHandler,
    InstalledAppsResponseHandler, LaunchAppResponseHandler, PingResponseHandler,
    ShellExecutionResponseHandler, UninstallAppResponseHandler, VolumeSetResponseHandler,
    VolumeStatusHandler,
};
use payload::{
    decode_close_all, decode_flag, decode_flag_string, decode_progress, decode_shell,
    decode_string_list, decode_three_strings, decode_two_bytes, decode_two_strings,
    strings_view, uuid_text,
};

verus! {

broadcast use vstd::std_specs::hash::group_hash_axioms;

/// The outcome of a command, as reported to the user interface.
pub struct CommandResult {
    pub command_type: String,
    pub success: bool,
    pub message: String,
}

/// `r` reports `command` with the given outcome and message.
pub open spec fn command_result_is(
    r: CommandResult,
    command: Seq<char>,
    success: bool,
    message: Seq<char>,
) -> bool {
    r.command_type@ == command && r.success == success && r.message@ == message
}

/// A volume status as the device sent it.
#[derive(Debug, Clone, Copy, PartialEq, Eq)]
pub enum VolumeReport {
    /// The device sent `[percentage][max]` (the first byte is larger than the
    /// second, and the second is not zero).
    Percentage { percentage: u8, max: u8 },
    /// The device sent `[current][max]`.
    Levels { current: u8, max: u8 },
}

/// How the two bytes of a volume status are read.
pub open spec fn volume_report_spec(first: u8, second: u8) -> VolumeReport {
    if first > second && second > 0 {
        VolumeReport::Percentage { percentage: first, max: second }
    } else {
        VolumeReport::Levels { current: first, max: second }
    }
}

/// Kind of a tracked long-running operation.
#[derive(Debug, Clone, Copy, PartialEq, Eq)]
pub enum OperationType {
    Download,
    Install,
}

/// Stage of a tracked operation.
#[derive(Debug, Clone, Copy, PartialEq, Eq)]
pub enum OperationStage {
    Started,
    InProgress,
    Completed,
    Failed,
}

/// The stage a stage byte stands for; unknown values count as in progress.
pub open spec fn stage_spec(b: u8) -> OperationStage {
    if b == 0 {
        OperationStage::Started
    } else if b == 2 {
        OperationStage::Completed
    } else if b == 3 {
        OperationStage::Failed
    } else {
        OperationStage::InProgress
    }
}

/// What a packet from a device tells the server.
pub enum DeviceEvent {
    DeviceConnected { model: String, serial: String, version: String },
    Heartbeat,
    BatteryStatus { level: u8, is_charging: bool },
    VolumeStatus(VolumeReport),
    ForegroundAppChanged { package_name: String, app_name: String },
    CommandExecuted(CommandResult),
    ShellExecuted { result: CommandResult, exit_code: i32 },
    InstalledApps(Vec<String>),
    VolumeSet { result: CommandResult, percentage: Option<u8> },
    CloseAllApps { result: CommandResult, closed_apps: Vec<String> },
    OperationProgress {
        operation: OperationType,
        operation_id: String,
        stage: OperationStage,
        percentage_bits: u32,
    },
}

/// The handlers that the registry knows.
#[derive(Debug, Clone, Copy, PartialEq, Eq, Structural)]
pub enum HandlerKind {
    DeviceConnected,
    Heartbeat,
    BatteryStatus,
    VolumeStatus,
    ForegroundAppChanged,
    LaunchAppResponse,
    ShellExecutionResponse,
    InstalledAppsResponse,
    PingResponse,
    ApkInstallResponse,
    UninstallAppResponse,
    VolumeSetResponse,
    ApkDownloadStarted,
    ApkDownloadProgress,
    ApkInstallProgress,
    CloseAllAppsResponse,
}

/// The opcode each handler answers.
pub open spec fn kind_opcode(k: HandlerKind) -> u8 {
    match k {
        HandlerKind::DeviceConnected => opcodes::DEVICE_CONNECTED,
        HandlerKind::Heartbeat => opcodes::HEARTBEAT,
        HandlerKind::BatteryStatus => opcodes::BATTERY_STATUS,
        HandlerKind::VolumeStatus => opcodes::VOLUME_STATUS,
        HandlerKind::ForegroundAppChanged => opcodes::FOREGROUND_APP_CHANGED,
        HandlerKind::LaunchAppResponse => opcodes::LAUNCH_APP_RESPONSE,
        HandlerKind::ShellExecutionResponse => opcodes::SHELL_EXECUTION_RESPONSE,
        HandlerKind::InstalledAppsResponse => opcodes::INSTALLED_APPS_RESPONSE,
        HandlerKind::PingResponse => opcodes::PING_RESPONSE,
        HandlerKind::ApkInstallResponse => opcodes::APK_INSTALL_RESPONSE,
        HandlerKind::UninstallAppResponse => opcodes::UNINSTALL_APP_RESPONSE,
        HandlerKind::VolumeSetResponse => opcodes::VOLUME_SET_RESPONSE,
        HandlerKind::ApkDownloadStarted => opcodes::APK_DOWNLOAD_STARTED,
        HandlerKind::ApkDownloadProgress => opcodes::APK_DOWNLOAD_PROGRESS,
        HandlerKind::ApkInstallProgress => opcodes::APK_INSTALL_PROGRESS,
        HandlerKind::CloseAllAppsResponse => opcodes::CLOSE_ALL_APPS_RESPONSE,
    }
}

impl HandlerKind {
    pub fn opcode(&self) -> (op: u8)
        ensures
            op == kind_opcode(*self),
    {
        match self {
            HandlerKind::DeviceConnected => opcodes::DEVICE_CONNECTED,
            HandlerKind::Heartbeat => opcodes::HEARTBEAT,
            HandlerKind::BatteryStatus => opcodes::BATTERY_STATUS,
            HandlerKind::VolumeStatus => opcodes::VOLUME_STATUS,
            HandlerKind::ForegroundAppChanged => opcodes::FOREGROUND_APP_CHANGED,
            HandlerKind::LaunchAppResponse => opcodes::LAUNCH_APP_RESPONSE,
            HandlerKind::ShellExecutionResponse => opcodes::SHELL_EXECUTION_RESPONSE,
            HandlerKind::InstalledAppsResponse => opcodes::INSTALLED_APPS_RESPONSE,
            HandlerKind::PingResponse => opcodes::PING_RESPONSE,
            HandlerKind::ApkInstallResponse => opcodes::APK_INSTALL_RESPONSE,
            HandlerKind::UninstallAppResponse => opcodes::UNINSTALL_APP_RESPONSE,
            HandlerKind::VolumeSetResponse => opcodes::VOLUME_SET_RESPONSE,
            HandlerKind::ApkDownloadStarted => opcodes::APK_DOWNLOAD_STARTED,
            HandlerKind::ApkDownloadProgress => opcodes::APK_DOWNLOAD_PROGRESS,
            HandlerKind::ApkInstallProgress => opcodes::APK_INSTALL_PROGRESS,
            HandlerKind::CloseAllAppsResponse => opcodes::CLOSE_ALL_APPS_RESPONSE,
        }
    }
}

/// Command name, success message and failure message of the handlers that
/// read only a success flag.
pub open spec fn simple_response_texts(k: HandlerKind) -> (Seq<char>, Seq<char>, Seq<char>) {
    match k {
        HandlerKind::LaunchAppResponse => (
            "launch_app"@,
            "App launched successfully"@,
            "Failed to launch app"@,
        ),
        HandlerKind::ApkInstallResponse => (
            "apk_install"@,
            "APK installed successfully"@,
            "Failed to install APK"@,
        ),
        _ => ("uninstall_app"@, "App uninstalled successfully"@, "Failed to uninstall app"@),
    }
}

/// The volume percentage a volume-set reply carries: the first word of a
/// successful reply's message that reads as a `u8` once trailing percent
/// signs are dropped.
pub open spec fn reply_percentage(success: bool, message: Seq<char>, p: Option<u8>) -> bool {
    if !success {
        p is None
    } else {
        match p {
            Some(v) => exists|a: int, b: int|
                crate::words::word_at(message, a, b) && crate::words::word_percentage(
                    message,
                    a,
                    b,
                ) == Some(v) && forall|a2: int, b2: int|
                    #![trigger crate::words::word_at(message, a2, b2)]
                    crate::words::word_at(message, a2, b2) && a2 < a
                        ==> crate::words::word_percentage(message, a2, b2) is None,
            None => forall|a: int, b: int|
                #![trigger crate::words::word_at(message, a, b)]
                crate::words::word_at(message, a, b) ==> crate::words::word_percentage(
                    message,
                    a,
                    b,
                ) is None,
        }
    }
}

/// A handler of one kind of packet.
pub trait PacketHandler {
    /// The opcode this handler answers.
    fn opcode(&self) -> u8;

    /// Decode a packet payload into the event it reports.
    fn handle(&self, payload: Vec<u8>) -> Result<DeviceEvent, PacketReadError>;
}

/// What handler `k` makes of payload `p`: the event for a well-formed
/// payload, the read error otherwise.
pub open spec fn decoded(k: HandlerKind, p: Seq<u8>, res: Result<DeviceEvent, PacketReadError>) -> bool {
    match k {
        HandlerKind::DeviceConnected => match decode_three_strings(p) {
            Ok((m, s, v)) => res matches Ok(DeviceEvent::DeviceConnected { model, serial, version })
                && model@ == m && serial@ == s && version@ == v,
            Err(e) => res == Err::<DeviceEvent, PacketReadError>(e),
        },
        HandlerKind::Heartbeat => res matches Ok(DeviceEvent::Heartbeat),
        HandlerKind::BatteryStatus => match decode_two_bytes(p) {
            Ok((level, charging)) => res matches Ok(DeviceEvent::BatteryStatus { level: l, is_charging: c })
                && l == level && c == (charging != 0),
            Err(e) => res == Err::<DeviceEvent, PacketReadError>(e),
        },
        HandlerKind::VolumeStatus => match decode_two_bytes(p) {
            Ok((first, second)) => res matches Ok(DeviceEvent::VolumeStatus(r)) && r
                == volume_report_spec(first, second),
            Err(e) => res == Err::<DeviceEvent, PacketReadError>(e),
        },
        HandlerKind::ForegroundAppChanged => match decode_two_strings(p) {
            Ok((pkg, app)) => res matches Ok(DeviceEvent::ForegroundAppChanged { package_name, app_name })
                && package_name@ == pkg && app_name@ == app,
            Err(e) => res == Err::<DeviceEvent, PacketReadError>(e),
        },
        HandlerKind::LaunchAppResponse | HandlerKind::ApkInstallResponse
        | HandlerKind::UninstallAppResponse => match decode_flag(p) {
            Ok(success) => res matches Ok(DeviceEvent::CommandExecuted(r)) && command_result_is(
                r,
                simple_response_texts(k).0,
                success,
                if success {
                    simple_response_texts(k).1
                } else {
                    simple_response_texts(k).2
                },
            ),
            Err(e) => res == Err::<DeviceEvent, PacketReadError>(e),
        },
        HandlerKind::ShellExecutionResponse => match decode_shell(p) {
            Ok((success, output, code)) => res matches Ok(DeviceEvent::ShellExecuted { result, exit_code })
                && command_result_is(result, "shell_execution"@, success, output) && exit_code
                == code,
            Err(e) => res == Err::<DeviceEvent, PacketReadError>(e),
        },
        HandlerKind::InstalledAppsResponse => match decode_string_list(p) {
            Ok(apps) => res matches Ok(DeviceEvent::InstalledApps(v)) && strings_view(v@) == apps,
            Err(e) => res == Err::<DeviceEvent, PacketReadError>(e),
        },
        HandlerKind::PingResponse => res matches Ok(DeviceEvent::CommandExecuted(r))
            && command_result_is(r, "ping"@, true, "Ping successful"@),
        HandlerKind::VolumeSetResponse => match decode_flag_string(p) {
            Ok((success, message, _)) => res matches Ok(DeviceEvent::VolumeSet { result, percentage })
                && command_result_is(result, "volume_set"@, success, message) && reply_percentage(
                success,
                message,
                percentage,
            ),
            Err(e) => res == Err::<DeviceEvent, PacketReadError>(e),
        },
        HandlerKind::ApkDownloadStarted => res matches Ok(DeviceEvent::CommandExecuted(r))
            && command_result_is(r, "apk_download"@, true, "APK download started"@),
        HandlerKind::ApkDownloadProgress | HandlerKind::ApkInstallProgress => match decode_progress(
            p,
        ) {
            Ok((id, stage_byte, bits)) => res matches Ok(DeviceEvent::OperationProgress { operation, operation_id, stage, percentage_bits })
                && operation == (if k is ApkDownloadProgress {
                OperationType::Download
            } else {
                OperationType::Install
            }) && operation_id@ == uuid_text(id) && stage == stage_spec(stage_byte)
                && percentage_bits == bits,
            Err(e) => res == Err::<DeviceEvent, PacketReadError>(e),
        },
        HandlerKind::CloseAllAppsResponse => match decode_close_all(p) {
            Ok((success, message, apps)) => res matches Ok(DeviceEvent::CloseAllApps { result, closed_apps })
                && command_result_is(
                result,
                "close_all_apps"@,
                success,
                if success {
                    "Successfully closed all apps"@
                } else {
                    message
                },
            ) && strings_view(closed_apps@) == apps,
            Err(e) => res == Err::<DeviceEvent, PacketReadError>(e),
        },
    }
}

/// Decode a payload with the handler of kind `kind`.
pub fn decode_with(kind: HandlerKind, payload: Vec<u8>) -> (res: Result<DeviceEvent, PacketReadError>)
    ensures
        decoded(kind, payload@, res),
{
    match kind {
        HandlerKind::DeviceConnected => DeviceConnectedHandler::new().handle(payload),
        HandlerKind::Heartbeat => HeartbeatHandler::new().handle(payload),
        HandlerKind::BatteryStatus => BatteryStatusHandler::new().handle(payload),
        HandlerKind::VolumeStatus => VolumeStatusHandler::new().handle(payload),
        HandlerKind::ForegroundAppChanged => ForegroundAppChangedHandler::new().handle(payload),
        HandlerKind::LaunchAppResponse => LaunchAppResponseHandler::new().handle(payload),
        HandlerKind::ShellExecutionResponse => ShellExecutionResponseHandler::new().handle(payload),
        HandlerKind::InstalledAppsResponse => InstalledAppsResponseHandler::new().handle(payload),
        HandlerKind::PingResponse => PingResponseHandler::new().handle(payload),
        HandlerKind::ApkInstallResponse => ApkInstallResponseHandler::new().handle(payload),
        HandlerKind::UninstallAppResponse => UninstallAppResponseHandler::new().handle(payload),
        HandlerKind::VolumeSetResponse => VolumeSetResponseHandler::new().handle(payload),
        HandlerKind::ApkDownloadStarted => ApkDownloadStartedHandler::new().handle(payload),
        HandlerKind::ApkDownloadProgress => ApkDownloadProgressHandler::new().handle(payload),
        HandlerKind::ApkInstallProgress => ApkInstallProgressHandler::new().handle(payload),
        HandlerKind::CloseAllAppsResponse => CloseAllAppsResponseHandler::new().handle(payload),
    }
}

/// The handlers that a new registry holds, keyed by opcode: every kind of
/// handler, under its own opcode.
pub open spec fn default_handlers() -> Map<u8, HandlerKind> {
    map![
        opcodes::DEVICE_CONNECTED => HandlerKind::DeviceConnected,
        opcodes::HEARTBEAT => HandlerKind::Heartbeat,
        opcodes::BATTERY_STATUS => HandlerKind::BatteryStatus,
        opcodes::VOLUME_STATUS => HandlerKind::VolumeStatus,
        opcodes::FOREGROUND_APP_CHANGED => HandlerKind::ForegroundAppChanged,
        opcodes::LAUNCH_APP_RESPONSE => HandlerKind::LaunchAppResponse,
        opcodes::SHELL_EXECUTION_RESPONSE => HandlerKind::ShellExecutionResponse,
        opcodes::INSTALLED_APPS_RESPONSE => HandlerKind::InstalledAppsResponse,
        opcodes::PING_RESPONSE => HandlerKind::PingResponse,
        opcodes::APK_INSTALL_RESPONSE => HandlerKind::ApkInstallResponse,
        opcodes::UNINSTALL_APP_RESPONSE => HandlerKind::UninstallAppResponse,
        opcodes::VOLUME_SET_RESPONSE => HandlerKind::VolumeSetResponse,
        opcodes::APK_DOWNLOAD_STARTED => HandlerKind::ApkDownloadStarted,
        opcodes::APK_DOWNLOAD_PROGRESS => HandlerKind::ApkDownloadProgress,
        opcodes::APK_INSTALL_PROGRESS => HandlerKind::ApkInstallProgress,
        opcodes::CLOSE_ALL_APPS_RESPONSE => HandlerKind::CloseAllAppsResponse,
    ]
}

/// The handlers for incoming packets, by opcode.
pub struct PacketHandlerRegistry {
    handlers: HashMap<u8, HandlerKind>,
}

impl View for PacketHandlerRegistry {
    type V = Map<u8, HandlerKind>;

    closed spec fn view(&self) -> Map<u8, HandlerKind> {
        self.handlers@
    }
}

impl PacketHandlerRegistry {
    /// A registry with every handler registered under its opcode.
    pub fn new() -> (r: Self)
        ensures
            r@ == default_handlers(),
    {
        let mut registry = PacketHandlerRegistry { handlers: HashMap::new() };
        registry.register(HandlerKind::DeviceConnected);
        registry.register(HandlerKind::Heartbeat);
        registry.register(HandlerKind::BatteryStatus);
        registry.register(HandlerKind::VolumeStatus);
        registry.register(HandlerKind::ForegroundAppChanged);
        registry.register(HandlerKind::LaunchAppResponse);
        registry.register(HandlerKind::ShellExecutionResponse);
        registry.register(HandlerKind::InstalledAppsResponse);
        registry.register(HandlerKind::PingResponse);
        registry.register(HandlerKind::ApkInstallResponse);
        registry.register(HandlerKind::UninstallAppResponse);
        registry.register(HandlerKind::VolumeSetResponse);
        registry.register(HandlerKind::ApkDownloadStarted);
        registry.register(HandlerKind::ApkDownloadProgress);
        registry.register(HandlerKind::ApkInstallProgress);
        registry.register(HandlerKind::CloseAllAppsResponse);
        assert(registry@ =~= default_handlers());
        registry
    }

    /// Register a handler under its opcode, replacing any handler that the
    /// opcode had.
    pub fn register(&mut self, handler: HandlerKind)
        ensures
            final(self)@ == old(self)@.insert(kind_opcode(handler), handler),
    {
        let opcode = handler.opcode();
        self.handlers.insert(opcode, handler);
    }

    /// The handler registered for `opcode`, if any.
    pub fn handler_for(&self, opcode: u8) -> (res: Option<HandlerKind>)
        ensures
            res == (if self@.contains_key(opcode) {
                Some(self@[opcode])
            } else {
                None
            }),
    {
        match self.handlers.get(&opcode) {
            Some(k) => Some(*k),
            None => None,
        }
    }

    /// Handle a received packet: decode it with the handler registered for
    /// its opcode. A packet that no handler is registered for is ignored.
    pub fn handle(&self, packet: RawPacket) -> (res: Result<Option<DeviceEvent>, PacketReadError>)
        ensures
            !self@.contains_key(packet.opcode) ==> res is Ok && res->Ok_0 is None,
            self@.contains_key(packet.opcode) ==> match res {
                Ok(Some(e)) => decoded(self@[packet.opcode], packet.payload@, Ok(e)),
                Err(e) => decoded(self@[packet.opcode], packet.payload@, Err(e)),
                Ok(None) => false,
            },
    {
        match self.handler_for(packet.opcode) {
            Some(kind) => {
                let event = decode_with(kind, packet.payload)?;
                Ok(Some(event))
            },
            None => Ok(None),
        }
    }
}

/// Registering a handler makes packets with its opcode go to it, and
/// leaves every other opcode as it was.
pub proof fn lemma_register_then_dispatch(
    before: Map<u8, HandlerKind>,
    handler: HandlerKind,
    opcode: u8,
)
    ensures
        before.insert(kind_opcode(handler), handler).contains_key(kind_opcode(handler)),
        before.insert(kind_opcode(handler), handler)[kind_opcode(handler)] == handler,
        opcode != kind_opcode(handler) ==> (before.insert(kind_opcode(handler), handler).contains_key(
            opcode,
        ) == before.contains_key(opcode) && before.insert(kind_opcode(handler), handler)[opcode]
            == before[opcode]),
{
}

/// Every handler of a new registry answers the opcode it is stored under.
pub proof fn lemma_default_handlers_consistent(opcode: u8)
    ensures
        default_handlers().contains_key(opcode) ==> kind_opcode(default_handlers()[opcode])
            == opcode,
{
}

/// How a volume status is read: the two bytes are kept as they came; a
/// first byte above a non-zero second byte is a percentage on that scale;
/// otherwise the bytes are a level and its scale, and the level never
/// exceeds a non-zero scale.
pub proof fn law_volume_report_forms(first: u8, second: u8)
    ensures
        0 < second < first ==> volume_report_spec(first, second) == (VolumeReport::Percentage {
            percentage: first,
            max: second,
        }),
        volume_report_spec(first, second) matches VolumeReport::Percentage { percentage, max }
            ==> percentage == first && max == second && 0 < max < percentage,
        volume_report_spec(first, second) matches VolumeReport::Levels { current, max }
            ==> current == first && max == second && (max == 0 || current <= max),
{
}

} // verus!
