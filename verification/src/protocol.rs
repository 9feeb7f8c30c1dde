//! Messages exchanged between the admin and its clients.
//!
//! On the wire each message is one line of JSON; the serialisation itself
//! lives with the program, these are the values it carries.
use vstd::prelude::*;
use crate::commands::Command;

verus! {

/// The TCP port the admin listens on unless told otherwise.
pub const DEFAULT_PORT: u16 = 9000;

/// Sent by the client immediately after TCP connection.
#[derive(Debug, Clone)]
pub struct ClientHandshake {
    pub hostname: String,
    pub os: String,
    pub os_version: String,
    pub ip: String,
    pub arch: String,
}

/// Sent from admin to client over TCP (newline-delimited JSON).
#[derive(Debug, Clone)]
pub struct AdminCommand {
    pub id: u64,
    pub command: Command,
}

/// Sent from client back to admin over TCP (newline-delimited JSON).
#[derive(Debug, Clone)]
pub struct ClientResponse {
    pub id: u64,
    pub client_id: String,
    pub tag: String,
    pub output: String,
    pub success: bool,
}

/// File transfer response carrying binary data.
#[derive(Debug, Clone)]
pub struct FileTransferData {
    pub filename: String,
    pub data: Vec<u8>,
    pub size: u64,
}

} // verus!
