//! Native Nordic DFU (Device Firmware Update) over serial: the wire format
//! (CRC, SLIP, HCI framing, init packet), the upload plan, and the
//! decisions of the upload workflow (preparing the image, retrying when the
//! port is busy).
pub mod crc16;
pub mod slip;
pub mod transport;
pub mod hci;
pub mod init_packet;
pub mod protocol;

use vstd::prelude::*;
use vstd::utf8::encode_utf8;
use crate::infrastructure::sensor::{SensorError, sensor_error_message};
use crate::infrastructure::sensor::detector::{
    XiaoDetector,
    XiaoPort,
    XiaoMode,
    ports_in_mode,
    ports_view,
};
use crate::infrastructure::sensor::patcher::{
    FirmwarePatcher,
    placeholder_spec,
    occurs_at,
    first_occurrence_at,
    patched_spec,
};
use crate::words::{contains_text, text_contains};

verus! {

/// Attempts of a DFU upload (the port may be briefly busy).
pub const MAX_UPLOAD_RETRIES: u32 = 3;

/// Seconds to wait before another attempt.
pub const RETRY_DELAY_SECS: u64 = 3;

/// Whether an upload error says that the serial port was busy: its text
/// mentions "Device or resource busy" or "could not open port".
pub open spec fn port_busy_spec(e: SensorError) -> bool {
    contains_text(sensor_error_message(e), "Device or resource busy"@) || contains_text(
        sensor_error_message(e),
        "could not open port"@,
    )
}

/// What to do after an upload attempt.
#[derive(Debug)]
pub enum RetryStep {
    /// The upload is over, with this outcome.
    Finish(Result<(), SensorError>),
    /// Wait this many seconds and try again.
    RetryAfter(u64),
}

/// The port an upload goes to: the one asked for, else the first board in
/// normal mode.
pub open spec fn upload_port_spec(port: Option<String>, detected: Seq<XiaoPort>) -> Seq<char> {
    match port {
        Some(p) => p@,
        None => ports_in_mode(ports_view(detected), XiaoMode::Normal)[0],
    }
}

/// Handles DFU firmware upload to XIAO BLE nRF52840 boards.
pub struct DfuUploader;

impl DfuUploader {
    /// Whether an error of an upload attempt means that the port was busy.
    pub fn is_port_busy(e: &SensorError) -> (b: bool)
        ensures
            b == port_busy_spec(*e),
    {
        let msg = e.message();
        proof {
            reveal_strlit("Device or resource busy");
            reveal_strlit("could not open port");
        }
        text_contains(msg.as_str(), "Device or resource busy") || text_contains(
            msg.as_str(),
            "could not open port",
        )
    }

    /// The decision after attempt number `attempt` (counted from 0): a
    /// success ends the upload; a busy port is retried after a delay unless
    /// this was the last attempt; any other error ends the upload.
    pub fn after_attempt(attempt: u32, result: Result<(), SensorError>) -> (step: RetryStep)
        requires
            attempt < MAX_UPLOAD_RETRIES,
        ensures
            result is Ok ==> step == RetryStep::Finish(Ok(())),
            result matches Err(e) ==> (if port_busy_spec(e) && attempt + 1 < MAX_UPLOAD_RETRIES {
                step == RetryStep::RetryAfter(RETRY_DELAY_SECS)
            } else {
                step == RetryStep::Finish(Err(e))
            }),
    {
        match result {
            Ok(()) => RetryStep::Finish(Ok(())),
            Err(e) => {
                if Self::is_port_busy(&e) && attempt < MAX_UPLOAD_RETRIES - 1 {
                    RetryStep::RetryAfter(RETRY_DELAY_SECS)
                } else {
                    RetryStep::Finish(Err(e))
                }
            },
        }
    }

    /// Everything an upload needs before the port is touched: the firmware
    /// with the device name patched in, and the port (the one given, else
    /// the first detected board in normal mode). A patching error comes
    /// first; without a port and without a board, `NoDeviceFound`.
    pub fn prepare_upload(
        firmware: &[u8],
        device_name: &str,
        port: Option<String>,
        detected: Vec<XiaoPort>,
    ) -> (res: Result<(Vec<u8>, String), SensorError>)
        ensures
            encode_utf8(device_name@).len() > placeholder_spec().len() ==> res == Err::<
                (Vec<u8>, String),
                SensorError,
            >(SensorError::NameTooLong { max: 25 }),
            encode_utf8(device_name@).len() <= placeholder_spec().len() && (forall|j: int|
                !occurs_at(firmware@, placeholder_spec(), j)) ==> res == Err::<
                (Vec<u8>, String),
                SensorError,
            >(SensorError::PlaceholderNotFound),
            encode_utf8(device_name@).len() <= placeholder_spec().len() && (exists|j: int|
                occurs_at(firmware@, placeholder_spec(), j)) ==> (if port is None && ports_in_mode(
                ports_view(detected@),
                XiaoMode::Normal,
            ).len() == 0 {
                res == Err::<(Vec<u8>, String), SensorError>(SensorError::NoDeviceFound)
            } else {
                res is Ok
            }),
            res matches Ok((fw, p)) ==> p@ == upload_port_spec(port, detected@) && exists|
                offset: int,
            |
                first_occurrence_at(firmware@, placeholder_spec(), offset) && fw@ == patched_spec(
                    firmware@,
                    offset,
                    encode_utf8(device_name@),
                ),
    {
        let ghost detected_view = detected@;
        let patched = match FirmwarePatcher::patch_device_name(firmware, device_name) {
            Ok(p) => p,
            Err(e) => {
                return Err(e);
            },
        };
        let port_name = match port {
            Some(p) => p,
            None => match XiaoDetector::find_first(detected) {
                Ok(first) => first.port,
                Err(e) => {
                    return Err(e);
                },
            },
        };
        Ok((patched, port_name))
    }
}

} // verus!
