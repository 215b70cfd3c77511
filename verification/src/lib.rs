//! Verified core of the uDAP CMSIS-DAP programmer.

pub mod text;
pub mod order;
pub mod models;
pub mod probes;
pub mod targets;
pub mod firmware;
pub mod progress;
pub mod options;
pub mod flow;
pub mod cli_flow;
pub mod backend;
pub mod cli;
pub mod prompts;
pub mod interactive;
