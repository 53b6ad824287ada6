//! Client side of the ADNL secure transport used to reach TON liteservers:
//! endpoint rotation, address formatting, packet framing, handshake
//! construction and the connection state machine.

pub mod error;
pub mod global_config;
pub mod rotation;
pub mod session;
pub mod crypto;
pub mod address;
pub mod adnl;
pub mod connection;
pub mod handshake;
