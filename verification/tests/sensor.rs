use arceus::infrastructure::sensor::detector::{SerialPortListing, XiaoDetector, XiaoMode, XiaoPort};
use arceus::infrastructure::sensor::patcher::FirmwarePatcher;
use arceus::infrastructure::sensor::serial_comm::{
    info_command, InfoAttempt, InfoRetry, InfoStep, SensorInfo,
};
use arceus::infrastructure::sensor::{SensorError, XIAO_BOOTLOADER_PID, XIAO_NORMAL_PID, XIAO_VID};

fn fw() -> Vec<u8> {
    let mut v = b"head".to_vec();
    v.extend_from_slice(b"PLACEHOLDER_BLE_NAME_HERE");
    v.extend_from_slice(b"tail");
    v
}

#[test]
fn patch_replaces_first_placeholder_and_pads() {
    let mut image = fw();
    image.extend_from_slice(b"PLACEHOLDER_BLE_NAME_HERE");
    let out = FirmwarePatcher::patch_device_name(&image, "Arceus-01").unwrap();
    assert_eq!(out.len(), image.len());
    assert_eq!(&out[..4], b"head");
    assert_eq!(&out[4..13], b"Arceus-01");
    assert!(out[13..29].iter().all(|b| *b == 0));
    assert_eq!(&out[29..33], b"tail");
    assert_eq!(&out[33..], b"PLACEHOLDER_BLE_NAME_HERE");
}

#[test]
fn patch_errors() {
    assert_eq!(
        FirmwarePatcher::patch_device_name(b"no marker here", "x"),
        Err(SensorError::PlaceholderNotFound)
    );
    assert_eq!(
        FirmwarePatcher::patch_device_name(&fw(), "abcdefghijklmnopqrstuvwxyz"),
        Err(SensorError::NameTooLong { max: 25 })
    );
    let exact = "abcdefghijklmnopqrstuvwxy";
    let out = FirmwarePatcher::patch_device_name(&fw(), exact).unwrap();
    assert_eq!(&out[4..29], exact.as_bytes());
}

#[test]
fn placeholder_queries() {
    assert!(FirmwarePatcher::has_placeholder(&fw()));
    assert!(!FirmwarePatcher::has_placeholder(b"PLACEHOLDER_BLE_NAME_HER"));
    assert_eq!(FirmwarePatcher::max_name_length(), 25);
}

#[test]
fn error_messages() {
    assert_eq!(SensorError::NoDeviceFound.message(), "No XIAO devices found");
    assert_eq!(
        SensorError::NameTooLong { max: 25 }.message(),
        "Device name too long (max 25 characters)"
    );
    assert_eq!(
        SensorError::UploadFailed("x".into()).message(),
        "Firmware upload failed: x"
    );
}

#[test]
fn classify_usb_ids() {
    assert_eq!(XiaoDetector::classify(XIAO_VID, XIAO_NORMAL_PID), Some(XiaoMode::Normal));
    assert_eq!(XiaoDetector::classify(XIAO_VID, XIAO_BOOTLOADER_PID), Some(XiaoMode::Bootloader));
    assert_eq!(XiaoDetector::classify(0x1234, XIAO_NORMAL_PID), None);
    assert_eq!(XiaoDetector::classify(XIAO_VID, 0x0001), None);
}

fn listing(name: &str, ids: Option<(u16, u16)>) -> SerialPortListing {
    SerialPortListing { port_name: name.to_string(), usb_ids: ids }
}

#[test]
fn find_all_keeps_xiao_ports_in_order() {
    let found = XiaoDetector::find_all(vec![
        listing("COM1", None),
        listing("COM2", Some((XIAO_VID, XIAO_BOOTLOADER_PID))),
        listing("COM3", Some((0x1111, 0x2222))),
        listing("COM4", Some((XIAO_VID, XIAO_NORMAL_PID))),
    ]);
    let names: Vec<(String, XiaoMode)> = found.into_iter().map(|p| (p.port, p.mode)).collect();
    assert_eq!(
        names,
        vec![("COM2".to_string(), XiaoMode::Bootloader), ("COM4".to_string(), XiaoMode::Normal)]
    );
}

fn xport(name: &str, mode: XiaoMode) -> XiaoPort {
    XiaoPort { port: name.to_string(), mode }
}

#[test]
fn find_normal_first_and_bootloader() {
    let all = || {
        vec![
            xport("a", XiaoMode::Bootloader),
            xport("b", XiaoMode::Normal),
            xport("c", XiaoMode::Normal),
        ]
    };
    let normal: Vec<String> = XiaoDetector::find_normal(all()).into_iter().map(|p| p.port).collect();
    assert_eq!(normal, vec!["b".to_string(), "c".to_string()]);
    assert_eq!(XiaoDetector::find_first(all()).unwrap().port, "b");
    assert_eq!(XiaoDetector::find_bootloader(all()).unwrap().port, "a");
    assert!(matches!(
        XiaoDetector::find_first(vec![xport("a", XiaoMode::Bootloader)]),
        Err(SensorError::NoDeviceFound)
    ));
    assert!(XiaoDetector::find_bootloader(vec![xport("b", XiaoMode::Normal)]).is_none());
}

#[test]
fn parse_info_reads_fields() {
    let response = "Device Name: Vest-7\r\nFirmware: 1.2.3\nSERIAL: ab12cd\nMAC:  de:ad:be:ef \nBLE_MAC: Not available\nnoise line\n";
    let info = SensorInfo::parse_info_response(response);
    assert_eq!(info.device_name.as_deref(), Some("Vest-7"));
    assert_eq!(info.firmware_version.as_deref(), Some("1.2.3"));
    assert_eq!(info.serial_number.as_deref(), Some("AB12CD"));
    assert_eq!(info.mac_address.as_deref(), Some("DE:AD:BE:EF"));
    assert_eq!(info.ble_mac_address, None);
}

#[test]
fn parse_info_later_lines_win_and_empty_values_are_skipped() {
    let info = SensorInfo::parse_info_response("  SERIAL: 01\nSERIAL:\nDevice Name:   \nSERIAL: ff");
    assert_eq!(info.serial_number.as_deref(), Some("FF"));
    assert_eq!(info.device_name, None);
    let empty = SensorInfo::parse_info_response("");
    assert!(empty.serial_number.is_none() && empty.mac_address.is_none());
}

#[test]
fn info_command_text() {
    assert_eq!(info_command(), "INFO\n");
}

#[test]
fn info_retry_decisions() {
    let mut r = InfoRetry::new();
    let step = r.after_attempt(0, 3, InfoAttempt::OpenFailed(SensorError::Io("busy".into())));
    assert!(matches!(step, InfoStep::RetryAfterSecs(1)));
    let step = r.after_attempt(1, 3, InfoAttempt::Read(SensorInfo::parse_info_response("x")));
    assert!(matches!(step, InfoStep::RetryAfterSecs(1)));
    let step = r.after_attempt(2, 3, InfoAttempt::Read(SensorInfo::parse_info_response("y")));
    assert!(matches!(step, InfoStep::Done(Err(SensorError::Io(m))) if m == "busy"));

    let mut fresh = InfoRetry::new();
    let step = fresh.after_attempt(0, 1, InfoAttempt::Read(SensorInfo::parse_info_response("")));
    assert!(matches!(step, InfoStep::Done(Err(SensorError::ParseError(m)))
        if m == "Could not read device info after retries"));

    let mut ok = InfoRetry::new();
    let step = ok.after_attempt(0, 3, InfoAttempt::Read(SensorInfo::parse_info_response("SERIAL: 9a")));
    assert!(matches!(step, InfoStep::Done(Ok(info)) if info.serial_number.as_deref() == Some("9A")));
    assert!(matches!(InfoRetry::new().give_up(), SensorError::ParseError(_)));
}
