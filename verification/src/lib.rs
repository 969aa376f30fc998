//! The rules of a mesh network monitor: how messages that arrive over MQTT are read, stored,
//! forwarded to webhooks and shown.

pub mod text;
pub mod numbers;
pub mod time;
pub mod json;
pub mod textmap;
pub mod models;
pub mod signal;
pub mod topic;
pub mod identity;
pub mod mqtt;
pub mod config;
pub mod telemetry;
pub mod database;
pub mod webhooks;
pub mod web;
pub mod replay;
pub mod replay_messages;
pub mod replay_nodeinfo;
