use arceus::infrastructure::sensor::dfu::crc16::calc_crc16;
use arceus::infrastructure::sensor::dfu::hci::HciSequence;
use arceus::infrastructure::sensor::dfu::init_packet::build_init_packet;
use arceus::infrastructure::sensor::dfu::protocol::{
    data_payload, erase_delay_ms, init_payload, start_payload, stop_payload, upload_steps_for,
    DfuStep, DFU_INIT_PACKET, DFU_START_PACKET, DFU_UPDATE_MODE_APP,
};
use arceus::infrastructure::sensor::dfu::slip::{slip_decode, slip_encode, SLIP_END, SLIP_ESC};
use arceus::infrastructure::sensor::dfu::transport::{bootloader_poll, BootloaderPoll, SlipFrameReader};
use arceus::infrastructure::sensor::dfu::{DfuUploader, RetryStep};
use arceus::infrastructure::sensor::detector::{XiaoMode, XiaoPort};
use arceus::infrastructure::sensor::SensorError;

#[test]
fn empty_data_returns_initial() {
    assert_eq!(calc_crc16(&[]), 0xFFFF);
}

#[test]
fn known_vector() {
    let data = b"123456789";
    let crc = calc_crc16(data);
    assert_eq!(crc, 0x29B1);
}

#[test]
fn single_byte() {
    let crc = calc_crc16(&[0x00]);
    assert_ne!(crc, 0xFFFF);
}

#[test]
fn packet_starts_and_ends_with_slip_end() {
    let mut seq = HciSequence::new();
    let pkt = seq.build_packet(&[0x01, 0x02]);
    assert_eq!(pkt[0], SLIP_END);
    assert_eq!(*pkt.last().unwrap(), SLIP_END);
}

#[test]
fn first_packet_uses_seq_1() {
    let mut seq = HciSequence::new();
    seq.build_packet(&[0x00]);
    assert_eq!(seq.seq(), 1);
}

#[test]
fn sequence_wraps_at_8() {
    let mut seq = HciSequence::new();
    for _ in 0..8 {
        seq.build_packet(&[0x00]);
    }
    assert_eq!(seq.seq(), 0);
}

#[test]
fn header_checksum_is_twos_complement() {
    let seq = 1u8;
    let byte0 = seq | (((seq + 1) % 8) << 3) | (1 << 6) | (1 << 7);
    let byte1 = 14u8;
    let byte2 = 0u8;
    let byte3 = (!byte0.wrapping_add(byte1).wrapping_add(byte2)).wrapping_add(1);
    let sum = byte0.wrapping_add(byte1).wrapping_add(byte2).wrapping_add(byte3);
    assert_eq!(sum, 0);
}

#[test]
fn built_header_sums_to_zero() {
    let mut seq = HciSequence::new();
    let pkt = seq.build_packet(&[0x01, 0x02, 0x03, 0x04, 0x05, 0x06, 0x07, 0x08, 0x09, 0x0a]);
    let decoded = slip_decode(&pkt[1..pkt.len() - 1]);
    let sum = decoded[0].wrapping_add(decoded[1]).wrapping_add(decoded[2]).wrapping_add(decoded[3]);
    assert_eq!(sum, 0);
    assert_eq!(decoded[0], 0xD1);
    assert_eq!(decoded[1], 0xAE);
    assert_eq!(decoded[3], 0x81);
    assert_eq!(decoded[2], 0x00);
}

#[test]
fn init_packet_is_14_bytes() {
    let pkt = build_init_packet(&[0xAA; 100]);
    assert_eq!(pkt.len(), 14);
}

#[test]
fn init_packet_has_correct_device_type() {
    let pkt = build_init_packet(&[0x00; 10]);
    let dev_type = u16::from_le_bytes([pkt[0], pkt[1]]);
    assert_eq!(dev_type, 0x0052);
}

#[test]
fn init_packet_crc_matches_firmware() {
    let firmware = vec![0x01, 0x02, 0x03];
    let pkt = build_init_packet(&firmware);
    let pkt_crc = u16::from_le_bytes([pkt[12], pkt[13]]);
    assert_eq!(pkt_crc, calc_crc16(&firmware));
}

#[test]
fn start_payload_is_20_bytes() {
    let mut payload = Vec::with_capacity(20);
    payload.extend_from_slice(&DFU_START_PACKET.to_le_bytes());
    payload.extend_from_slice(&DFU_UPDATE_MODE_APP.to_le_bytes());
    payload.extend_from_slice(&0u32.to_le_bytes());
    payload.extend_from_slice(&0u32.to_le_bytes());
    payload.extend_from_slice(&327680u32.to_le_bytes());
    assert_eq!(payload.len(), 20);
    assert_eq!(u32::from_le_bytes(payload[16..20].try_into().unwrap()), 327680);
    assert_eq!(start_payload(327680), payload);
}

#[test]
fn init_payload_is_20_bytes() {
    let init_pkt = build_init_packet(&[0xAA; 100]);
    let mut payload = Vec::with_capacity(20);
    payload.extend_from_slice(&DFU_INIT_PACKET.to_le_bytes());
    payload.extend_from_slice(&init_pkt);
    payload.extend_from_slice(&0u16.to_le_bytes());
    assert_eq!(payload.len(), 20);
    assert_eq!(init_payload(&[0xAA; 100]), payload);
}

#[test]
fn data_and_stop_payloads() {
    let fw = [9u8, 8, 7, 6, 5];
    assert_eq!(data_payload(&fw, 1, 4), vec![4, 0, 0, 0, 8, 7, 6]);
    assert_eq!(stop_payload(), vec![5, 0, 0, 0]);
}

#[test]
fn erase_delay_has_a_floor() {
    assert_eq!(erase_delay_ms(0), 500);
    assert_eq!(erase_delay_ms(4096 * 5), 540);
    assert_eq!(erase_delay_ms(327680), 81 * 90);
}

#[test]
fn upload_plan_for_small_image() {
    let fw = vec![0x11u8; 1030];
    let steps = upload_steps_for(&fw);
    assert!(matches!(steps[0], DfuStep::Begin));
    assert!(matches!(&steps[1], DfuStep::Send(p) if *p == start_payload(1030)));
    assert!(matches!(steps[2], DfuStep::Sleep(500)));
    assert!(matches!(&steps[3], DfuStep::Send(p) if *p == init_payload(&fw)));
    // three DATA chunks, each reported (interval 1), no page pause
    assert!(matches!(&steps[4], DfuStep::Send(p) if p.len() == 516));
    assert!(matches!(steps[5], DfuStep::Report { chunks_done: 1, total_chunks: 3 }));
    assert!(matches!(&steps[6], DfuStep::Send(p) if p.len() == 516));
    assert!(matches!(steps[7], DfuStep::Report { chunks_done: 2, total_chunks: 3 }));
    assert!(matches!(&steps[8], DfuStep::Send(p) if p.len() == 10));
    assert!(matches!(steps[9], DfuStep::Report { chunks_done: 3, total_chunks: 3 }));
    assert!(matches!(&steps[10], DfuStep::Send(p) if *p == stop_payload()));
    assert!(matches!(steps[11], DfuStep::Sleep(190)));
    assert!(matches!(steps[12], DfuStep::Finished));
    assert_eq!(steps.len(), 13);
}

#[test]
fn upload_plan_pauses_after_each_flash_page() {
    let fw = vec![0u8; 512 * 8];
    let steps = upload_steps_for(&fw);
    let sleeps: Vec<u64> = steps
        .iter()
        .filter_map(|s| match s {
            DfuStep::Sleep(ms) => Some(*ms),
            _ => None,
        })
        .collect();
    assert_eq!(sleeps, vec![500, 102, 190]);
}

#[test]
fn roundtrip_no_special_bytes() {
    let data = vec![0x01, 0x02, 0x03, 0x04];
    assert_eq!(slip_decode(&slip_encode(&data)), data);
}

#[test]
fn roundtrip_with_end_byte() {
    let data = vec![0x01, SLIP_END, 0x03];
    let encoded = slip_encode(&data);
    assert!(encoded.contains(&SLIP_ESC));
    assert!(!encoded.contains(&SLIP_END));
    assert_eq!(slip_decode(&encoded), data);
}

#[test]
fn roundtrip_with_esc_byte() {
    let data = vec![SLIP_ESC, 0x02];
    let encoded = slip_encode(&data);
    assert_eq!(slip_decode(&encoded), data);
}

#[test]
fn encode_does_not_contain_end_marker() {
    let data = vec![SLIP_END, SLIP_END, SLIP_END];
    let encoded = slip_encode(&data);
    assert!(!encoded.contains(&SLIP_END));
}

#[test]
fn slip_escapes_exactly() {
    assert_eq!(slip_encode(&[0xC0, 0xDB, 0x05]), vec![0xDB, 0xDC, 0xDB, 0xDD, 0x05]);
}

#[test]
fn frame_reader_skips_junk_and_decodes() {
    let mut reader = SlipFrameReader::new();
    let mut frames = Vec::new();
    for b in [0x55u8, 0xC0, 0x01, 0xDB, 0xDC, 0x02, 0xC0] {
        if let Some(f) = reader.push(b) {
            frames.push(f);
        }
    }
    assert_eq!(frames, vec![vec![0x01, 0xC0, 0x02]]);
}

fn port(name: &str, mode: XiaoMode) -> XiaoPort {
    XiaoPort { port: name.to_string(), mode }
}

#[test]
fn bootloader_poll_decisions() {
    let found = bootloader_poll(
        vec![port("/dev/ttyACM0", XiaoMode::Normal), port("/dev/ttyACM1", XiaoMode::Bootloader)],
        0,
    );
    assert!(matches!(found, BootloaderPoll::Found(p) if p == "/dev/ttyACM1"));
    assert!(matches!(bootloader_poll(vec![], 10_000_000_000), BootloaderPoll::WaitMs(250)));
    match bootloader_poll(vec![port("COM3", XiaoMode::Normal)], 10_000_000_001) {
        BootloaderPoll::TimedOut(SensorError::UploadFailed(m)) => {
            assert_eq!(m, "Bootloader device did not appear after 1200-baud touch (10s timeout)")
        }
        other => panic!("unexpected {:?}", other),
    }
}

#[test]
fn port_busy_is_recognised() {
    let busy = SensorError::UploadFailed("Failed to open COM3: Device or resource busy".into());
    let cannot_open = SensorError::SerialPort("could not open port /dev/x".into());
    let other = SensorError::UploadFailed("Timeout waiting for DFU response".into());
    assert!(DfuUploader::is_port_busy(&busy));
    assert!(DfuUploader::is_port_busy(&cannot_open));
    assert!(!DfuUploader::is_port_busy(&other));
    assert!(!DfuUploader::is_port_busy(&SensorError::NoDeviceFound));
}

#[test]
fn retry_only_busy_ports_before_the_last_attempt() {
    let busy = || SensorError::UploadFailed("Device or resource busy".into());
    assert!(matches!(DfuUploader::after_attempt(0, Ok(())), RetryStep::Finish(Ok(()))));
    assert!(matches!(DfuUploader::after_attempt(0, Err(busy())), RetryStep::RetryAfter(3)));
    assert!(matches!(DfuUploader::after_attempt(1, Err(busy())), RetryStep::RetryAfter(3)));
    assert!(matches!(
        DfuUploader::after_attempt(2, Err(busy())),
        RetryStep::Finish(Err(SensorError::UploadFailed(_)))
    ));
    assert!(matches!(
        DfuUploader::after_attempt(0, Err(SensorError::PlaceholderNotFound)),
        RetryStep::Finish(Err(SensorError::PlaceholderNotFound))
    ));
}

fn firmware_with_placeholder() -> Vec<u8> {
    let mut fw = vec![1u8, 2, 3];
    fw.extend_from_slice(b"PLACEHOLDER_BLE_NAME_HERE");
    fw.extend_from_slice(&[4, 5]);
    fw
}

#[test]
fn prepare_upload_patches_and_picks_port() {
    let fw = firmware_with_placeholder();
    let detected = vec![port("/dev/b", XiaoMode::Bootloader), port("/dev/n", XiaoMode::Normal)];
    let (patched, p) = DfuUploader::prepare_upload(&fw, "Vest", None, detected).unwrap();
    assert_eq!(p, "/dev/n");
    assert_eq!(&patched[3..7], b"Vest");
    assert!(patched[7..28].iter().all(|b| *b == 0));
    assert_eq!(&patched[28..], &[4, 5]);
    let (_, given) = DfuUploader::prepare_upload(&fw, "Vest", Some("COM9".into()), vec![]).unwrap();
    assert_eq!(given, "COM9");
}

#[test]
fn prepare_upload_errors_in_order() {
    let fw = firmware_with_placeholder();
    assert!(matches!(
        DfuUploader::prepare_upload(&fw, "Vest", None, vec![]),
        Err(SensorError::NoDeviceFound)
    ));
    assert!(matches!(
        DfuUploader::prepare_upload(&[0u8; 4], "Vest", None, vec![]),
        Err(SensorError::PlaceholderNotFound)
    ));
    assert!(matches!(
        DfuUploader::prepare_upload(&fw, "a name that is much too long", None, vec![]),
        Err(SensorError::NameTooLong { max: 25 })
    ));
}
