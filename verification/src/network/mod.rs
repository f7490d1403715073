//! Device-facing services: custom device names and the APK HTTP server's
//! addresses.
pub mod device_name_manager;
pub mod http_server;
pub mod commands;
