use vstd::prelude::*;

pub mod text;
pub mod mac;
pub mod ssid;
pub mod security;
pub mod status;
pub mod sort;
pub mod network;
pub mod events;
pub mod state;
pub mod ip;
pub mod interface;
pub mod config;
pub mod wifi;
pub mod error;
pub mod ifconfig;
pub mod backup;
pub mod dhcp;
pub mod storage;
pub mod daemon;
pub mod editor;
pub mod known;
pub mod dhcp_reply;
pub mod manager;
pub mod assoc;
pub mod table;
pub mod rows;
pub mod ip_text;
pub mod editor_values;
pub mod keys;
pub mod ip_text_laws;
pub mod actions;
pub mod route_table;
pub mod route_plan;
pub mod persist;
pub mod links;
pub mod status_laws;
pub mod parse_laws;

verus! {

} // verus!
