//! Core of a light client's peer-to-peer node.
//!
//! `data` holds the in-memory stores: of the records of the DHT, and of the entries of the client's
//! database. `network` holds what the node decides about itself and its peers: its identity, its
//! agent version, which addresses are global, and what its swarm is built from.

pub mod data;
pub mod network;
pub mod text;
