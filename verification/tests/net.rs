use arceus::net::io::{ByteReader, PacketReadError, ProtocolReadExt, ProtocolWriteExt};
use arceus::net::{read_frame, write_frame, PacketLength};
use arceus::network::device_name_manager::{DeviceNameManager, DeviceNamesStore};

#[test]
fn string_roundtrip() {
    let mut buf = Vec::new();
    buf.write_string("héllo");
    assert_eq!(&buf[..4], &[0, 0, 0, 6]);
    let mut r = ByteReader::new(buf);
    assert_eq!(r.read_string().unwrap(), "héllo");
    assert_eq!(r.remaining(), 0);
}

#[test]
fn string_read_errors() {
    let mut short = ByteReader::new(vec![0, 0, 0, 4, b'a']);
    assert_eq!(short.read_string(), Err(PacketReadError::UnexpectedEof));
    let mut bad = ByteReader::new(vec![0, 0, 0, 1, 0xFF]);
    assert_eq!(bad.read_string(), Err(PacketReadError::InvalidData));
}

#[test]
fn integer_reads() {
    let mut r = ByteReader::new(vec![0x12, 0x34, 0xFF, 0xFF, 0xFF, 0xFE, 7]);
    assert_eq!(r.read_u16_be(), Ok(0x1234));
    assert_eq!(r.read_i32_be(), Ok(-2));
    assert_eq!(r.read_u8(), Ok(7));
    assert_eq!(r.read_u8(), Err(PacketReadError::UnexpectedEof));
}

#[test]
fn frames_roundtrip() {
    let table = [(1u8, PacketLength::Fixed(2)), (2, PacketLength::VariableByte), (3, PacketLength::VariableShort)];
    let mut out = Vec::new();
    write_frame(&mut out, 1, PacketLength::Fixed(2), &[9, 9]);
    write_frame(&mut out, 2, PacketLength::VariableByte, &[1, 2, 3]);
    write_frame(&mut out, 3, PacketLength::VariableShort, &[4]);
    assert_eq!(out, vec![1, 9, 9, 2, 3, 1, 2, 3, 3, 0, 1, 4]);
    let mut r = ByteReader::new(out);
    assert_eq!(read_frame(&mut r, &table), Ok((1, vec![9, 9])));
    assert_eq!(read_frame(&mut r, &table), Ok((2, vec![1, 2, 3])));
    assert_eq!(read_frame(&mut r, &table), Ok((3, vec![4])));
    let mut unknown = ByteReader::new(vec![9, 0]);
    assert_eq!(read_frame(&mut unknown, &table), Err(PacketReadError::InvalidOpcode(9)));
}

#[test]
fn device_names_read_after_write() {
    let mut manager = DeviceNameManager::new(DeviceNamesStore::new());
    assert_eq!(manager.get_display_name("ABC"), "Quest");
    assert!(manager.ensure_device_registered("ABC"));
    manager.set_custom_name("ABC".to_string(), Some("Red Vest".to_string()));
    assert_eq!(manager.get_display_name("ABC"), "Red Vest");
    assert_eq!(manager.load_custom_name("ABC").as_deref(), Some("Red Vest"));
    assert!(!manager.ensure_device_registered("ABC"));
    assert_eq!(manager.load_custom_name("XYZ"), None);
    manager.set_custom_name("ABC".to_string(), None);
    assert_eq!(manager.get_display_name("ABC"), "Quest");
}

#[test]
fn names_store_overwrites() {
    let mut store = DeviceNamesStore::new();
    store.set_name("s".to_string(), "one".to_string());
    store.set_name("s".to_string(), "two".to_string());
    store.set_name("t".to_string(), "three".to_string());
    assert_eq!(store.get_name("s").as_deref(), Some("two"));
    store.remove_name("s");
    assert_eq!(store.get_name("s"), None);
    assert_eq!(store.get_name("t").as_deref(), Some("three"));
}
