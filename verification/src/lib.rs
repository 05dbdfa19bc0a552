//! The decisions of a VPN node agent: its settings, the messages it trades
//! with its hub, the session and reconnect logic, the commands that add and
//! remove users on the Xray and Hysteria2 back-ends, and the traffic that
//! it reports.
pub mod commands;
pub mod config;
pub mod dto;
pub mod hub;
pub mod hysteria;
pub mod proto;
pub mod text;
pub mod traffic;
pub mod xray;
