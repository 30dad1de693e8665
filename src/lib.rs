//! An SSH authentication agent: the agent protocol, its key store and the
//! decisions of its transports, with their contracts.

pub mod wire;
pub mod key;
pub mod agent;
pub mod config;
pub mod connection;
pub mod utils;
pub mod requester;
pub mod copy_id;
