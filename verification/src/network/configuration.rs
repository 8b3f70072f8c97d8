//! The configuration of the node on the peer-to-peer network.

use std::time::Duration;
use vstd::prelude::*;

verus! {

/// The secret from which a node's keypair is made.
pub enum SecretKey {
    /// A seed, of any length.
    Seed { seed: String },
    /// The secret key itself, in hexadecimal.
    Key { key: String },
}

/// How a node takes part in the DHT.
#[derive(Debug, Clone, Copy, PartialEq, Eq, Structural)]
pub enum KademliaMode {
    /// It only asks.
    Client,
    /// It asks and answers.
    Server,
}

/// Configuration of the part in the DHT.
#[derive(Debug, Clone, Copy)]
pub struct KademliaConfig {
    /// The time for which a record lives.
    pub kad_record_ttl: Duration,
    pub operation_mode: KademliaMode,
}

/// Configuration of the detection of network address translation.
#[derive(Debug, Clone, Copy)]
pub struct AutoNATConfig {
    pub autonat_retry_interval: Duration,
    pub autonat_refresh_interval: Duration,
    pub autonat_boot_delay: Duration,
    pub autonat_throttle: Duration,
    pub autonat_only_global_ips: bool,
}

/// Configuration of the node.
pub struct LibP2PConfig {
    /// The secret from which the keypair is made, if there is one.
    pub secret_key: Option<SecretKey>,
    pub autonat: AutoNATConfig,
    pub kademlia: KademliaConfig,
    /// How long a connection is kept that is not in use.
    pub connection_idle_timeout: Duration,
    pub max_negotiating_inbound_streams: usize,
    /// At least one.
    pub task_command_buffer_size: usize,
    pub per_connection_event_buffer_size: usize,
    /// At least one.
    pub dial_concurrency_factor: u8,
    /// Whether to talk over WebSocket rather than over TCP.
    pub ws_transport_enable: bool,
    pub dht_parallelization_limit: usize,
}

impl LibP2PConfig {
    /// Whether the numbers that must not be zero are not.
    pub open spec fn valid(&self) -> bool {
        &&& self.task_command_buffer_size > 0
        &&& self.dial_concurrency_factor > 0
    }
}

/// A configuration is valid exactly if its command buffer and its dial factor are not zero.
pub proof fn law_valid_configuration(cfg: LibP2PConfig)
    ensures
        cfg.valid() <==> cfg.task_command_buffer_size != 0 && cfg.dial_concurrency_factor != 0,
{
}

} // verus!
