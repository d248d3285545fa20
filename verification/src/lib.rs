//! `robotctl` - robot identity, WiFi, status and experiment stacks.

pub mod cli;
pub mod command;
pub mod conf;
pub mod config;
pub mod config_laws;
pub mod experiments;
pub mod id;
pub mod id_laws;
pub mod log;
pub mod message_laws;
pub mod order;
pub mod profile;
pub mod profile_laws;
pub mod status;
pub mod systemd;
pub mod text;
pub mod wifi;
