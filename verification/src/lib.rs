//! Status of a FortiClient VPN connection for a desktop panel: classification of
//! the client's report against the network interfaces, transfer measurement between
//! samples, and what the panel shows.
pub mod cli;
pub mod config;
pub mod monitor;
pub mod presentation;
pub mod status;
pub mod text;

pub use status::{classify, Address, Interface, Status};
