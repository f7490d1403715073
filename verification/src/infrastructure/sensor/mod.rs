//! Sensor/Arduino management: XIAO BLE nRF52840 detection, firmware
//! name patching and the Nordic serial DFU wire format.
pub mod detector;
pub mod dfu;
pub mod patcher;
pub mod serial_comm;

use vstd::prelude::*;

verus! {

/// XIAO BLE nRF52840 USB vendor id.
pub const XIAO_VID: u16 = 0x2886;

/// Product id of a XIAO in application mode.
pub const XIAO_NORMAL_PID: u16 = 0x8045;

/// Product id of a XIAO in bootloader mode.
pub const XIAO_BOOTLOADER_PID: u16 = 0x0044;

/// Errors of the sensor subsystem. Errors that come from the serial port
/// or the operating system carry the text of the underlying error.
#[derive(Debug, Clone, PartialEq, Eq)]
pub enum SensorError {
    NoDeviceFound,
    SerialPort(String),
    Io(String),
    ParseError(String),
    PlaceholderNotFound,
    NameTooLong { max: usize },
    UploadFailed(String),
}

/// The text of an error, as it is shown to the user.
pub open spec fn sensor_error_message(e: SensorError) -> Seq<char> {
    match e {
        SensorError::NoDeviceFound => "No XIAO devices found"@,
        SensorError::SerialPort(s) => "Serial port error: "@ + s@,
        SensorError::Io(s) => "IO error: "@ + s@,
        SensorError::ParseError(s) => "Failed to parse device response: "@ + s@,
        SensorError::PlaceholderNotFound => "Firmware placeholder not found"@,
        SensorError::NameTooLong { max } => "Device name too long (max "@
            + crate::text::decimal_spec(max as nat) + " characters)"@,
        SensorError::UploadFailed(s) => "Firmware upload failed: "@ + s@,
    }
}

impl SensorError {
    /// The text of the error.
    pub fn message(&self) -> (m: String)
        ensures
            m@ == sensor_error_message(*self),
    {
        match self {
            SensorError::NoDeviceFound => "No XIAO devices found".to_owned(),
            SensorError::SerialPort(s) => {
                let mut m = "Serial port error: ".to_owned();
                m.append(s.as_str());
                m
            },
            SensorError::Io(s) => {
                let mut m = "IO error: ".to_owned();
                m.append(s.as_str());
                m
            },
            SensorError::ParseError(s) => {
                let mut m = "Failed to parse device response: ".to_owned();
                m.append(s.as_str());
                m
            },
            SensorError::PlaceholderNotFound => "Firmware placeholder not found".to_owned(),
            SensorError::NameTooLong { max } => {
                let mut m = "Device name too long (max ".to_owned();
                let digits = crate::text::u64_to_decimal(*max as u64);
                m.append(digits.as_str());
                m.append(" characters)");
                m
            },
            SensorError::UploadFailed(s) => {
                let mut m = "Firmware upload failed: ".to_owned();
                m.append(s.as_str());
                m
            },
        }
    }
}

} // verus!
