//! Packet handler implementations organized by category.
pub mod app;
pub mod connection;


pub mod status;

pub use app::ForegroundAppChangedHandler;
pub use connection::{DeviceConnectedHandler, HeartbeatHandler};
pub use status::{BatteryStatusHandler, VolumeStatusHandler};
pub mod responses;

pub use responses::{
    ApkDownloadProgressHandler, ApkDownloadStartedHandler, ApkInstallProgressHandler,
    ApkInstallResponseHandler, CloseAllAppsResponseHandler, InstalledAppsResponseHandler,
    LaunchAppResponseHandler, PingResponseHandler, ShellExecutionResponseHandler,
    UninstallAppResponseHandler, VolumeSetResponseHandler,
};
