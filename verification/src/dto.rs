//! The messages exchanged with the hub, as plain values.
use vstd::prelude::*;

use crate::traffic::TrafficTable;

verus! {

/// How clients reach the node's Xray (VLESS Reality) inbound.
#[derive(Debug, Clone, PartialEq, Eq)]
pub struct XrayConfig {
    pub port: u16,
    pub sni: String,
    pub public_key: String,
    pub short_id: String,
}

/// How clients reach the node's Hysteria2 inbound.
#[derive(Debug, Clone, PartialEq, Eq)]
pub struct HysteriaConfig {
    pub port: u16,
    pub sni: String,
}

/// A message from the node to the hub.
#[derive(Debug)]
pub enum NodeMessage {
    /// The first message of a session: who the node is and what it serves.
    Register {
        node_id: String,
        auth_secret: String,
        public_ip: String,
        inbound_tags: Vec<String>,
        name_en: Option<String>,
        name_ru: Option<String>,
        country_code: Option<String>,
        country_flag: Option<String>,
        xray: Option<XrayConfig>,
        hysteria: Option<HysteriaConfig>,
    },
    /// Bytes used per user since the last report.
    TrafficReport { user_bytes: TrafficTable },
    /// The outcome of a command that the hub sent.
    CommandResult { command_id: String, success: bool, error_message: String },
    /// Keep-alive.
    Ping,
}

/// A message from the hub to the node.
#[derive(Debug, Clone)]
pub enum HubMessage {
    AuthOk,
    AuthFailed { reason: String },
    AddUser { command_id: String, uuid: String, inbound_tags: Vec<String> },
    RemoveUser { command_id: String, email: String, inbound_tags: Vec<String> },
    Pong,
}

} // verus!
