//! What a node reports of itself.

use vstd::prelude::*;

verus! {

/// What is said where the node was told of no bootstrap node.
pub const BOOTSTRAP_LIST_EMPTY_MESSAGE: &'static str = "
Bootstrap node list must not be empty.
Either use a '--network' flag or add a list of bootstrap nodes in the configuration file.
";

/// What a node reports of itself and of its listeners.
#[derive(Debug)]
pub struct PeerInfo {
    pub peer_id: String,
    pub operation_mode: String,
    pub peer_multiaddr: Option<Vec<String>>,
    pub local_listeners: Vec<String>,
    pub external_listeners: Vec<String>,
    pub public_listeners: Vec<String>,
}

/// The addresses of a peer.
#[derive(Debug)]
pub struct MultiAddressInfo {
    pub multiaddresses: Vec<String>,
    pub peer_id: String,
}

} // verus!
