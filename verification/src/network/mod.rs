//! Networking.

pub mod address;
pub mod agent;
pub mod configuration;
pub mod identity;
pub mod peer_info;
pub mod release;
pub mod swarm;
