pub mod connection_handler;
pub mod device_session;
pub mod packet_handler;
pub mod tcp_server;
pub mod http_server;
