//! `robotctl status`: one report describing what this robot currently is and is doing.

pub mod bytes;
pub mod json;
pub mod json_laws;
pub mod laws;
pub mod model;
pub mod parse;
pub mod probe_laws;
pub mod text;
pub mod uptime;


pub use model::{
    gather, Filesystem, Identity, Network, Probes, RaucProbe, RaucSummary, Status, System, Unit,
    WifiProbe, WifiSummary,
};
pub use parse::Interface;
