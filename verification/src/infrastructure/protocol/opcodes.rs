//! Opcodes of the packets that devices send to the server.
use vstd::prelude::*;

verus! {

pub const DEVICE_CONNECTED: u8 = 0x01;

pub const HEARTBEAT: u8 = 0x02;

pub const BATTERY_STATUS: u8 = 0x03;

pub const VOLUME_STATUS: u8 = 0x04;

pub const FOREGROUND_APP_CHANGED: u8 = 0x06;

pub const LAUNCH_APP_RESPONSE: u8 = 0x10;

pub const SHELL_EXECUTION_RESPONSE: u8 = 0x11;

pub const INSTALLED_APPS_RESPONSE: u8 = 0x12;

pub const PING_RESPONSE: u8 = 0x13;

pub const APK_INSTALL_RESPONSE: u8 = 0x14;

pub const UNINSTALL_APP_RESPONSE: u8 = 0x15;

pub const VOLUME_SET_RESPONSE: u8 = 0x16;

pub const APK_DOWNLOAD_STARTED: u8 = 0x17;

pub const CLOSE_ALL_APPS_RESPONSE: u8 = 0x18;

pub const APK_DOWNLOAD_PROGRESS: u8 = 0x19;

pub const APK_INSTALL_PROGRESS: u8 = 0x1A;

} // verus!
