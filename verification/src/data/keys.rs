//! The keys of the entries that the client keeps in its database.

use vstd::prelude::*;

verus! {

/// The group of entries that belong to the state of the client.
pub const APP_STATE_CF: &'static str = "app_state_cf";

/// Marks the data of an application in a block.
pub const APP_ID_PREFIX: &'static str = "app_id";

/// Marks the header of a block.
pub const BLOCK_HEADER_KEY_PREFIX: &'static str = "block_header";

/// Marks the number of verified cells of a block.
pub const VERIFIED_CELL_COUNT_PREFIX: &'static str = "verified_cell_count";

pub const FINALITY_SYNC_CHECKPOINT_KEY: &'static str = "finality_sync_checkpoint";

pub const CONNECTED_RPC_NODE_KEY: &'static str = "connected_rpc_node";

pub const IS_FINALITY_SYNCED_KEY: &'static str = "is_finality_synced";

pub const VERIFIED_SYNC_DATA: &'static str = "verified_sync_data";

pub const ACHIEVED_SYNC_CONFIDENCE_KEY: &'static str = "achieved_sync_confidence";

pub const VERIFIED_SYNC_HEADER_KEY: &'static str = "verified_sync_header";

pub const LATEST_SYNC_KEY: &'static str = "latest_sync";

pub const VERIFIED_DATA_KEY: &'static str = "verified_data";

pub const ACHIEVED_CONFIDENCE_KEY: &'static str = "achieved_confidence";

pub const VERIFIED_HEADER_KEY: &'static str = "verified_header";

pub const LATEST_HEADER_KEY: &'static str = "latest_header";

pub const IS_SYNCED_KEY: &'static str = "is_synced";

pub const CLIENT_ID_KEY: &'static str = "client_id";

pub const P2P_KEYPAIR_KEY: &'static str = "p2p_keypair";

/// The data of an application (the first number) in a block (the second number).
#[derive(Debug, Clone, Copy)]
pub struct AppDataKey(pub u32, pub u32);

/// The header of a block, given by its number.
#[derive(Debug, Clone, Copy)]
pub struct BlockHeaderKey(pub u32);

/// The number of verified cells of a block, given by its number.
#[derive(Debug, Clone, Copy)]
pub struct VerifiedCellCountKey(pub u32);

/// The block from which finality is checked.
#[derive(Debug, Clone, Copy)]
pub struct FinalitySyncCheckpointKey;

/// The RPC node in use.
#[derive(Debug, Clone, Copy)]
pub struct RpcNodeKey;

/// Whether finality has been checked up to the present.
#[derive(Debug, Clone, Copy)]
pub struct IsFinalitySyncedKey;

/// The blocks whose data were verified while catching up.
#[derive(Debug, Clone, Copy)]
pub struct VerifiedSyncDataKey;

/// The blocks on which confidence was achieved while catching up.
#[derive(Debug, Clone, Copy)]
pub struct AchievedSyncConfidenceKey;

/// The blocks whose headers were verified while catching up.
#[derive(Debug, Clone, Copy)]
pub struct VerifiedSyncHeaderKey;

/// The latest block that was caught up with.
#[derive(Debug, Clone, Copy)]
pub struct LatestSyncKey;

/// The blocks whose data were verified.
#[derive(Debug, Clone, Copy)]
pub struct VerifiedDataKey;

/// The blocks on which confidence was achieved.
#[derive(Debug, Clone, Copy)]
pub struct AchievedConfidenceKey;

/// The blocks whose headers were verified.
#[derive(Debug, Clone, Copy)]
pub struct VerifiedHeaderKey;

/// The latest header.
#[derive(Debug, Clone, Copy)]
pub struct LatestHeaderKey;

/// Whether the client has caught up.
#[derive(Debug, Clone, Copy)]
pub struct IsSyncedKey;

/// The identifier of this client.
#[derive(Debug, Clone, Copy)]
pub struct ClientIdKey;

/// The keypair of this node on the peer-to-peer network.
#[derive(Debug, Clone, Copy)]
pub struct P2PKeypairKey;

} // verus!
