use arceus::infrastructure::network::tcp_server::accepts_connection;
use arceus::infrastructure::network::packet_handler::handlers::responses::volume_level_from_percentage;
use arceus::infrastructure::network::connection_handler::{
    loop_step, temp_serial, LoopEnd, LoopStep, ReceiveOutcome,
};
use arceus::infrastructure::network::device_session::{receive_result, SessionError};
use arceus::infrastructure::network::http_server::{
    directory_listing_html, has_apk_suffix, size_unit, HttpServer as InfraHttpServer, SizeUnit,
};
use arceus::infrastructure::network::packet_handler::{
    decode_with, DeviceEvent, HandlerKind, OperationStage, OperationType, PacketHandlerRegistry,
    VolumeReport,
};
use arceus::infrastructure::protocol::{opcodes, RawPacket};
use arceus::net::io::{PacketReadError, ProtocolWriteExt};
use arceus::network::commands::DeviceCommand;
use arceus::network::http_server::HttpServer;
use std::path::PathBuf;

fn string_payload(parts: &[&str]) -> Vec<u8> {
    let mut p = Vec::new();
    for s in parts {
        p.write_string(*s);
    }
    p
}

#[test]
fn registry_dispatches_by_opcode() {
    let registry = PacketHandlerRegistry::new();
    for kind in [HandlerKind::DeviceConnected, HandlerKind::VolumeSetResponse, HandlerKind::ApkInstallProgress] {
        assert_eq!(registry.handler_for(kind.opcode()), Some(kind));
    }
    assert_eq!(registry.handler_for(0x7F), None);
    let unknown = registry.handle(RawPacket { opcode: 0x7F, payload: vec![1, 2, 3] });
    assert!(matches!(unknown, Ok(None)));
    let event = registry.handle(RawPacket {
        opcode: opcodes::DEVICE_CONNECTED,
        payload: string_payload(&["Quest 3", "2G0YC5ZF8B0ABC", "1.4.0"]),
    });
    match event {
        Ok(Some(DeviceEvent::DeviceConnected { model, serial, version })) => {
            assert_eq!((model.as_str(), serial.as_str(), version.as_str()), ("Quest 3", "2G0YC5ZF8B0ABC", "1.4.0"));
        }
        _ => panic!("expected a connected event"),
    }
}

#[test]
fn registering_replaces_handler() {
    let mut registry = PacketHandlerRegistry::new();
    registry.register(HandlerKind::Heartbeat);
    assert_eq!(registry.handler_for(opcodes::HEARTBEAT), Some(HandlerKind::Heartbeat));
}

#[test]
fn battery_and_volume_status() {
    match decode_with(HandlerKind::BatteryStatus, vec![87, 1]) {
        Ok(DeviceEvent::BatteryStatus { level, is_charging }) => assert_eq!((level, is_charging), (87, true)),
        _ => panic!(),
    }
    assert!(matches!(decode_with(HandlerKind::BatteryStatus, vec![87]), Err(PacketReadError::UnexpectedEof)));
    match decode_with(HandlerKind::VolumeStatus, vec![60, 15]) {
        Ok(DeviceEvent::VolumeStatus(r)) => assert_eq!(r, VolumeReport::Percentage { percentage: 60, max: 15 }),
        _ => panic!(),
    }
    match decode_with(HandlerKind::VolumeStatus, vec![7, 15]) {
        Ok(DeviceEvent::VolumeStatus(r)) => assert_eq!(r, VolumeReport::Levels { current: 7, max: 15 }),
        _ => panic!(),
    }
}

#[test]
fn simple_responses() {
    match decode_with(HandlerKind::LaunchAppResponse, vec![1]) {
        Ok(DeviceEvent::CommandExecuted(r)) => {
            assert_eq!(r.command_type, "launch_app");
            assert!(r.success);
            assert_eq!(r.message, "App launched successfully");
        }
        _ => panic!(),
    }
    match decode_with(HandlerKind::UninstallAppResponse, vec![0]) {
        Ok(DeviceEvent::CommandExecuted(r)) => {
            assert_eq!(r.command_type, "uninstall_app");
            assert!(!r.success);
            assert_eq!(r.message, "Failed to uninstall app");
        }
        _ => panic!(),
    }
    match decode_with(HandlerKind::PingResponse, vec![]) {
        Ok(DeviceEvent::CommandExecuted(r)) => assert_eq!(r.message, "Ping successful"),
        _ => panic!(),
    }
}

#[test]
fn shell_response_carries_exit_code() {
    let mut p = vec![1u8];
    p.write_string("ok");
    p.extend_from_slice(&(-2i32).to_be_bytes());
    match decode_with(HandlerKind::ShellExecutionResponse, p) {
        Ok(DeviceEvent::ShellExecuted { result, exit_code }) => {
            assert_eq!(result.message, "ok");
            assert_eq!(exit_code, -2);
        }
        _ => panic!(),
    }
}

#[test]
fn volume_set_reads_percentage_word() {
    let mut p = vec![1u8];
    p.write_string("Volume set to 45%");
    match decode_with(HandlerKind::VolumeSetResponse, p) {
        Ok(DeviceEvent::VolumeSet { result, percentage }) => {
            assert_eq!(result.command_type, "volume_set");
            assert_eq!(percentage, Some(45));
        }
        _ => panic!(),
    }
    let mut failed = vec![0u8];
    failed.write_string("could not set 45%");
    match decode_with(HandlerKind::VolumeSetResponse, failed) {
        Ok(DeviceEvent::VolumeSet { result, percentage }) => {
            assert!(!result.success);
            assert_eq!(percentage, None);
        }
        _ => panic!(),
    }
}

#[test]
fn app_lists() {
    let mut p = 2u32.to_be_bytes().to_vec();
    p.write_string("com.a");
    p.write_string("com.b");
    match decode_with(HandlerKind::InstalledAppsResponse, p) {
        Ok(DeviceEvent::InstalledApps(apps)) => assert_eq!(apps, vec!["com.a".to_string(), "com.b".to_string()]),
        _ => panic!(),
    }
    let mut c = vec![1u8];
    c.write_string("ignored");
    c.extend_from_slice(&1u32.to_be_bytes());
    c.write_string("com.game");
    match decode_with(HandlerKind::CloseAllAppsResponse, c) {
        Ok(DeviceEvent::CloseAllApps { result, closed_apps }) => {
            assert_eq!(result.message, "Successfully closed all apps");
            assert_eq!(closed_apps, vec!["com.game".to_string()]);
        }
        _ => panic!(),
    }
}

#[test]
fn progress_packet_reads_uuid_and_stage() {
    let mut p: Vec<u8> = (0u8..16).collect();
    p.push(2);
    p.extend_from_slice(&50.0f32.to_be_bytes());
    match decode_with(HandlerKind::ApkDownloadProgress, p) {
        Ok(DeviceEvent::OperationProgress { operation, operation_id, stage, percentage_bits }) => {
            assert_eq!(operation, OperationType::Download);
            assert_eq!(operation_id, "00010203-0405-0607-0809-0a0b0c0d0e0f");
            assert_eq!(stage, OperationStage::Completed);
            assert_eq!(f32::from_bits(percentage_bits), 50.0);
        }
        _ => panic!(),
    }
}

#[test]
fn server_urls() {
    let s = HttpServer::with_local_ip(8080, PathBuf::from("/apks"), "192.168.1.20".to_string());
    assert_eq!(s.get_base_url(), "http://192.168.1.20:8080/apks");
    assert_eq!(s.get_apk_url("game.apk"), "http://192.168.1.20:8080/apks/game.apk");
    assert_eq!(s.get_local_ip(), "192.168.1.20");
    let infra = InfraHttpServer::with_local_ip(9000, PathBuf::from("/x"), "10.0.0.1".to_string());
    assert_eq!(infra.get_base_url(), "http://10.0.0.1:9000");
    assert_eq!(infra.port(), 9000);
}

#[test]
fn size_units_and_suffix() {
    assert_eq!(size_unit(1023), SizeUnit::Bytes);
    assert_eq!(size_unit(1024), SizeUnit::Kilobytes);
    assert_eq!(size_unit(5 * 1024 * 1024), SizeUnit::Megabytes);
    assert_eq!(size_unit(3 * 1024 * 1024 * 1024), SizeUnit::Gigabytes);
    assert!(has_apk_suffix("a.apk"));
    assert!(has_apk_suffix(".apk"));
    assert!(!has_apk_suffix("a.APK"));
}

#[test]
fn listing_is_sorted_and_filtered() {
    let html = directory_listing_html(vec![
        ("zeta.apk".to_string(), "2.00 MB".to_string()),
        ("notes.txt".to_string(), "12 bytes".to_string()),
        ("alpha.apk".to_string(), "512 bytes".to_string()),
    ]);
    assert_eq!(
        html,
        "<html><head><title>Index of /</title></head><body><h1>Index of /</h1><hr><pre>\n\
<a href=\"/alpha.apk\">alpha.apk</a>  512 bytes\n\
<a href=\"/zeta.apk\">zeta.apk</a>  2.00 MB\n\
</pre><hr></body></html>"
    );
    let empty = directory_listing_html(vec![("readme".to_string(), "1 bytes".to_string())]);
    assert!(empty.contains("No APK files found\n"));
}

#[test]
fn command_payloads() {
    let launch = DeviceCommand::LaunchApp("com.x".to_string()).payload();
    assert_eq!(launch, vec![0, 0, 0, 5, b'c', b'o', b'm', b'.', b'x']);
    assert_eq!(DeviceCommand::SetVolume(150).payload(), vec![100]);
    assert_eq!(DeviceCommand::SetVolume(42).payload(), vec![42]);
    assert_eq!(DeviceCommand::Ping(0x0102030405060708).payload(), vec![1, 2, 3, 4, 5, 6, 7, 8]);
    assert!(DeviceCommand::Shutdown.payload().is_empty());
}

#[test]
fn temporary_serial_from_address() {
    assert_eq!(temp_serial("192.168.0.5", 8080), "31:39:32:2E:1F:90");
    assert_eq!(temp_serial("::1", 1), "3A:3A:31:00:00:01");
}

#[test]
fn message_loop_steps() {
    assert!(matches!(loop_step(ReceiveOutcome::Packet(RawPacket { opcode: 2, payload: vec![] })), LoopStep::Handle(p) if p.opcode == 2));
    assert!(matches!(loop_step(ReceiveOutcome::Closed), LoopStep::Stop(LoopEnd::Closed)));
    assert!(matches!(loop_step(ReceiveOutcome::Failed("x".into())), LoopStep::Stop(LoopEnd::ReceiveFailed)));
    assert!(matches!(loop_step(ReceiveOutcome::TimedOut), LoopStep::Stop(LoopEnd::HeartbeatTimeout)));
}

#[test]
fn session_errors() {
    assert_eq!(SessionError::SendError("broken pipe".into()).message(), "Failed to send packet: broken pipe");
    assert_eq!(SessionError::IoError("x".into()).message(), "I/O error: x");
    assert!(matches!(receive_result(None), Ok(None)));
    assert!(matches!(receive_result(Some(Err("bad".into()))), Err(SessionError::ReceiveError(m)) if m == "bad"));
    assert!(matches!(receive_result(Some(Ok(RawPacket { opcode: 1, payload: vec![] }))), Ok(Some(p)) if p.opcode == 1));
}

#[test]
fn connection_admission() {
    assert!(accepts_connection(Some(99), 100));
    assert!(!accepts_connection(Some(100), 100));
    assert!(accepts_connection(None, 1));
    assert!(!accepts_connection(None, 0));
}

#[test]
fn volume_levels_from_percentage() {
    assert_eq!(volume_level_from_percentage(60, None), (9, 15));
    assert_eq!(volume_level_from_percentage(100, Some(20)), (20, 20));
    assert_eq!(volume_level_from_percentage(255, Some(255)), (138, 255));
}
