//! Where an entry stands in the in-memory database.

use super::keys::{
    AchievedConfidenceKey, AchievedSyncConfidenceKey, AppDataKey, BlockHeaderKey, ClientIdKey,
    FinalitySyncCheckpointKey, IsFinalitySyncedKey, IsSyncedKey, LatestHeaderKey, LatestSyncKey,
    P2PKeypairKey, RpcNodeKey, VerifiedCellCountKey, VerifiedDataKey, VerifiedHeaderKey,
    VerifiedSyncDataKey, VerifiedSyncHeaderKey, ACHIEVED_CONFIDENCE_KEY,
    ACHIEVED_SYNC_CONFIDENCE_KEY, APP_ID_PREFIX, APP_STATE_CF, BLOCK_HEADER_KEY_PREFIX,
    CLIENT_ID_KEY, CONNECTED_RPC_NODE_KEY, FINALITY_SYNC_CHECKPOINT_KEY, IS_FINALITY_SYNCED_KEY,
    IS_SYNCED_KEY, LATEST_HEADER_KEY, LATEST_SYNC_KEY, P2P_KEYPAIR_KEY, VERIFIED_CELL_COUNT_PREFIX,
    VERIFIED_DATA_KEY, VERIFIED_HEADER_KEY, VERIFIED_SYNC_DATA, VERIFIED_SYNC_HEADER_KEY,
};
use crate::text::{decimal, decimal_text, lemma_decimal_digits, lemma_decimal_injective};
use vstd::prelude::*;
use vstd::std_specs::convert::FromSpecImpl;
use vstd::string::*;

verus! {

/// The place of an entry in the database: a text.
#[derive(Debug, PartialEq, Eq, Hash)]
pub struct HashMapKey(pub String);

/// The key of an entry of the database.
pub trait RecordKey: Sized {
    /// The text under which the entry stands.
    spec fn slot(&self) -> Seq<char>;

    /// The place of the entry.
    fn into_hash_map_key(self) -> (place: HashMapKey)
        ensures
            place.0@ == self.slot(),
    ;
}

/// `text`, a colon, `field`.
pub open spec fn colon(text: Seq<char>, field: Seq<char>) -> Seq<char> {
    text.push(':') + field
}

/// Appends a colon and `field` to `text`.
fn append_field(text: &mut String, field: &str)
    ensures
        final(text)@ == colon(old(text)@, field@),
{
    proof {
        reveal_strlit(":");
    }
    text.append(":");
    text.append(field);
    assert(text@ =~= colon(old(text)@, field@));
}

impl RecordKey for AppDataKey {
    open spec fn slot(&self) -> Seq<char> {
        colon(
            colon(colon(APP_STATE_CF@, APP_ID_PREFIX@), decimal(self.0 as nat)),
            decimal(self.1 as nat),
        )
    }

    fn into_hash_map_key(self) -> HashMapKey {
        HashMapKey::from(self)
    }
}

impl FromSpecImpl<AppDataKey> for HashMapKey {
    open spec fn obeys_from_spec() -> bool {
        false
    }

    open spec fn from_spec(value: AppDataKey) -> HashMapKey {
        arbitrary()
    }
}

impl From<AppDataKey> for HashMapKey {
    fn from(value: AppDataKey) -> (place: Self)
        ensures
            place.0@ == value.slot(),
    {
        let AppDataKey(app_id, block_num) = value;
        let mut text = APP_STATE_CF.to_owned();
        append_field(&mut text, APP_ID_PREFIX);
        append_field(&mut text, decimal_text(app_id).as_str());
        append_field(&mut text, decimal_text(block_num).as_str());
        HashMapKey(text)
    }
}

impl RecordKey for BlockHeaderKey {
    open spec fn slot(&self) -> Seq<char> {
        colon(colon(APP_STATE_CF@, BLOCK_HEADER_KEY_PREFIX@), decimal(self.0 as nat))
    }

    fn into_hash_map_key(self) -> HashMapKey {
        HashMapKey::from(self)
    }
}

impl FromSpecImpl<BlockHeaderKey> for HashMapKey {
    open spec fn obeys_from_spec() -> bool {
        false
    }

    open spec fn from_spec(value: BlockHeaderKey) -> HashMapKey {
        arbitrary()
    }
}

impl From<BlockHeaderKey> for HashMapKey {
    fn from(value: BlockHeaderKey) -> (place: Self)
        ensures
            place.0@ == value.slot(),
    {
        let BlockHeaderKey(block_num) = value;
        let mut text = APP_STATE_CF.to_owned();
        append_field(&mut text, BLOCK_HEADER_KEY_PREFIX);
        append_field(&mut text, decimal_text(block_num).as_str());
        HashMapKey(text)
    }
}

impl RecordKey for VerifiedCellCountKey {
    open spec fn slot(&self) -> Seq<char> {
        colon(colon(APP_STATE_CF@, VERIFIED_CELL_COUNT_PREFIX@), decimal(self.0 as nat))
    }

    fn into_hash_map_key(self) -> HashMapKey {
        HashMapKey::from(self)
    }
}

impl FromSpecImpl<VerifiedCellCountKey> for HashMapKey {
    open spec fn obeys_from_spec() -> bool {
        false
    }

    open spec fn from_spec(value: VerifiedCellCountKey) -> HashMapKey {
        arbitrary()
    }
}

impl From<VerifiedCellCountKey> for HashMapKey {
    fn from(value: VerifiedCellCountKey) -> (place: Self)
        ensures
            place.0@ == value.slot(),
    {
        let VerifiedCellCountKey(block_num) = value;
        let mut text = APP_STATE_CF.to_owned();
        append_field(&mut text, VERIFIED_CELL_COUNT_PREFIX);
        append_field(&mut text, decimal_text(block_num).as_str());
        HashMapKey(text)
    }
}

impl RecordKey for FinalitySyncCheckpointKey {
    open spec fn slot(&self) -> Seq<char> {
        FINALITY_SYNC_CHECKPOINT_KEY@
    }

    fn into_hash_map_key(self) -> HashMapKey {
        HashMapKey::from(self)
    }
}

impl FromSpecImpl<FinalitySyncCheckpointKey> for HashMapKey {
    open spec fn obeys_from_spec() -> bool {
        false
    }

    open spec fn from_spec(value: FinalitySyncCheckpointKey) -> HashMapKey {
        arbitrary()
    }
}

impl From<FinalitySyncCheckpointKey> for HashMapKey {
    fn from(value: FinalitySyncCheckpointKey) -> (place: Self)
        ensures
            place.0@ == value.slot(),
    {
        HashMapKey(FINALITY_SYNC_CHECKPOINT_KEY.to_owned())
    }
}

impl RecordKey for RpcNodeKey {
    open spec fn slot(&self) -> Seq<char> {
        CONNECTED_RPC_NODE_KEY@
    }

    fn into_hash_map_key(self) -> HashMapKey {
        HashMapKey::from(self)
    }
}

impl FromSpecImpl<RpcNodeKey> for HashMapKey {
    open spec fn obeys_from_spec() -> bool {
        false
    }

    open spec fn from_spec(value: RpcNodeKey) -> HashMapKey {
        arbitrary()
    }
}

impl From<RpcNodeKey> for HashMapKey {
    fn from(value: RpcNodeKey) -> (place: Self)
        ensures
            place.0@ == value.slot(),
    {
        HashMapKey(CONNECTED_RPC_NODE_KEY.to_owned())
    }
}

impl RecordKey for IsFinalitySyncedKey {
    open spec fn slot(&self) -> Seq<char> {
        IS_FINALITY_SYNCED_KEY@
    }

    fn into_hash_map_key(self) -> HashMapKey {
        HashMapKey::from(self)
    }
}

impl FromSpecImpl<IsFinalitySyncedKey> for HashMapKey {
    open spec fn obeys_from_spec() -> bool {
        false
    }

    open spec fn from_spec(value: IsFinalitySyncedKey) -> HashMapKey {
        arbitrary()
    }
}

impl From<IsFinalitySyncedKey> for HashMapKey {
    fn from(value: IsFinalitySyncedKey) -> (place: Self)
        ensures
            place.0@ == value.slot(),
    {
        HashMapKey(IS_FINALITY_SYNCED_KEY.to_owned())
    }
}

impl RecordKey for VerifiedSyncDataKey {
    open spec fn slot(&self) -> Seq<char> {
        VERIFIED_SYNC_DATA@
    }

    fn into_hash_map_key(self) -> HashMapKey {
        HashMapKey::from(self)
    }
}

impl FromSpecImpl<VerifiedSyncDataKey> for HashMapKey {
    open spec fn obeys_from_spec() -> bool {
        false
    }

    open spec fn from_spec(value: VerifiedSyncDataKey) -> HashMapKey {
        arbitrary()
    }
}

impl From<VerifiedSyncDataKey> for HashMapKey {
    fn from(value: VerifiedSyncDataKey) -> (place: Self)
        ensures
            place.0@ == value.slot(),
    {
        HashMapKey(VERIFIED_SYNC_DATA.to_owned())
    }
}

impl RecordKey for AchievedSyncConfidenceKey {
    open spec fn slot(&self) -> Seq<char> {
        ACHIEVED_SYNC_CONFIDENCE_KEY@
    }

    fn into_hash_map_key(self) -> HashMapKey {
        HashMapKey::from(self)
    }
}

impl FromSpecImpl<AchievedSyncConfidenceKey> for HashMapKey {
    open spec fn obeys_from_spec() -> bool {
        false
    }

    open spec fn from_spec(value: AchievedSyncConfidenceKey) -> HashMapKey {
        arbitrary()
    }
}

impl From<AchievedSyncConfidenceKey> for HashMapKey {
    fn from(value: AchievedSyncConfidenceKey) -> (place: Self)
        ensures
            place.0@ == value.slot(),
    {
        HashMapKey(ACHIEVED_SYNC_CONFIDENCE_KEY.to_owned())
    }
}

impl RecordKey for VerifiedSyncHeaderKey {
    open spec fn slot(&self) -> Seq<char> {
        VERIFIED_SYNC_HEADER_KEY@
    }

    fn into_hash_map_key(self) -> HashMapKey {
        HashMapKey::from(self)
    }
}

impl FromSpecImpl<VerifiedSyncHeaderKey> for HashMapKey {
    open spec fn obeys_from_spec() -> bool {
        false
    }

    open spec fn from_spec(value: VerifiedSyncHeaderKey) -> HashMapKey {
        arbitrary()
    }
}

impl From<VerifiedSyncHeaderKey> for HashMapKey {
    fn from(value: VerifiedSyncHeaderKey) -> (place: Self)
        ensures
            place.0@ == value.slot(),
    {
        HashMapKey(VERIFIED_SYNC_HEADER_KEY.to_owned())
    }
}

impl RecordKey for LatestSyncKey {
    open spec fn slot(&self) -> Seq<char> {
        LATEST_SYNC_KEY@
    }

    fn into_hash_map_key(self) -> HashMapKey {
        HashMapKey::from(self)
    }
}

impl FromSpecImpl<LatestSyncKey> for HashMapKey {
    open spec fn obeys_from_spec() -> bool {
        false
    }

    open spec fn from_spec(value: LatestSyncKey) -> HashMapKey {
        arbitrary()
    }
}

impl From<LatestSyncKey> for HashMapKey {
    fn from(value: LatestSyncKey) -> (place: Self)
        ensures
            place.0@ == value.slot(),
    {
        HashMapKey(LATEST_SYNC_KEY.to_owned())
    }
}

impl RecordKey for VerifiedDataKey {
    open spec fn slot(&self) -> Seq<char> {
        VERIFIED_DATA_KEY@
    }

    fn into_hash_map_key(self) -> HashMapKey {
        HashMapKey::from(self)
    }
}

impl FromSpecImpl<VerifiedDataKey> for HashMapKey {
    open spec fn obeys_from_spec() -> bool {
        false
    }

    open spec fn from_spec(value: VerifiedDataKey) -> HashMapKey {
        arbitrary()
    }
}

impl From<VerifiedDataKey> for HashMapKey {
    fn from(value: VerifiedDataKey) -> (place: Self)
        ensures
            place.0@ == value.slot(),
    {
        HashMapKey(VERIFIED_DATA_KEY.to_owned())
    }
}

impl RecordKey for AchievedConfidenceKey {
    open spec fn slot(&self) -> Seq<char> {
        ACHIEVED_CONFIDENCE_KEY@
    }

    fn into_hash_map_key(self) -> HashMapKey {
        HashMapKey::from(self)
    }
}

impl FromSpecImpl<AchievedConfidenceKey> for HashMapKey {
    open spec fn obeys_from_spec() -> bool {
        false
    }

    open spec fn from_spec(value: AchievedConfidenceKey) -> HashMapKey {
        arbitrary()
    }
}

impl From<AchievedConfidenceKey> for HashMapKey {
    fn from(value: AchievedConfidenceKey) -> (place: Self)
        ensures
            place.0@ == value.slot(),
    {
        HashMapKey(ACHIEVED_CONFIDENCE_KEY.to_owned())
    }
}

impl RecordKey for VerifiedHeaderKey {
    open spec fn slot(&self) -> Seq<char> {
        VERIFIED_HEADER_KEY@
    }

    fn into_hash_map_key(self) -> HashMapKey {
        HashMapKey::from(self)
    }
}

impl FromSpecImpl<VerifiedHeaderKey> for HashMapKey {
    open spec fn obeys_from_spec() -> bool {
        false
    }

    open spec fn from_spec(value: VerifiedHeaderKey) -> HashMapKey {
        arbitrary()
    }
}

impl From<VerifiedHeaderKey> for HashMapKey {
    fn from(value: VerifiedHeaderKey) -> (place: Self)
        ensures
            place.0@ == value.slot(),
    {
        HashMapKey(VERIFIED_HEADER_KEY.to_owned())
    }
}

impl RecordKey for LatestHeaderKey {
    open spec fn slot(&self) -> Seq<char> {
        LATEST_HEADER_KEY@
    }

    fn into_hash_map_key(self) -> HashMapKey {
        HashMapKey::from(self)
    }
}

impl FromSpecImpl<LatestHeaderKey> for HashMapKey {
    open spec fn obeys_from_spec() -> bool {
        false
    }

    open spec fn from_spec(value: LatestHeaderKey) -> HashMapKey {
        arbitrary()
    }
}

impl From<LatestHeaderKey> for HashMapKey {
    fn from(value: LatestHeaderKey) -> (place: Self)
        ensures
            place.0@ == value.slot(),
    {
        HashMapKey(LATEST_HEADER_KEY.to_owned())
    }
}

impl RecordKey for IsSyncedKey {
    open spec fn slot(&self) -> Seq<char> {
        IS_SYNCED_KEY@
    }

    fn into_hash_map_key(self) -> HashMapKey {
        HashMapKey::from(self)
    }
}

impl FromSpecImpl<IsSyncedKey> for HashMapKey {
    open spec fn obeys_from_spec() -> bool {
        false
    }

    open spec fn from_spec(value: IsSyncedKey) -> HashMapKey {
        arbitrary()
    }
}

impl From<IsSyncedKey> for HashMapKey {
    fn from(value: IsSyncedKey) -> (place: Self)
        ensures
            place.0@ == value.slot(),
    {
        HashMapKey(IS_SYNCED_KEY.to_owned())
    }
}

impl RecordKey for ClientIdKey {
    open spec fn slot(&self) -> Seq<char> {
        CLIENT_ID_KEY@
    }

    fn into_hash_map_key(self) -> HashMapKey {
        HashMapKey::from(self)
    }
}

impl FromSpecImpl<ClientIdKey> for HashMapKey {
    open spec fn obeys_from_spec() -> bool {
        false
    }

    open spec fn from_spec(value: ClientIdKey) -> HashMapKey {
        arbitrary()
    }
}

impl From<ClientIdKey> for HashMapKey {
    fn from(value: ClientIdKey) -> (place: Self)
        ensures
            place.0@ == value.slot(),
    {
        HashMapKey(CLIENT_ID_KEY.to_owned())
    }
}

impl RecordKey for P2PKeypairKey {
    open spec fn slot(&self) -> Seq<char> {
        P2P_KEYPAIR_KEY@
    }

    fn into_hash_map_key(self) -> HashMapKey {
        HashMapKey::from(self)
    }
}

impl FromSpecImpl<P2PKeypairKey> for HashMapKey {
    open spec fn obeys_from_spec() -> bool {
        false
    }

    open spec fn from_spec(value: P2PKeypairKey) -> HashMapKey {
        arbitrary()
    }
}

impl From<P2PKeypairKey> for HashMapKey {
    fn from(value: P2PKeypairKey) -> (place: Self)
        ensures
            place.0@ == value.slot(),
    {
        HashMapKey(P2P_KEYPAIR_KEY.to_owned())
    }
}

/// A key of any kind.
pub enum AnyKey {
    AppData(AppDataKey),
    BlockHeader(BlockHeaderKey),
    VerifiedCellCount(VerifiedCellCountKey),
    FinalitySyncCheckpoint(FinalitySyncCheckpointKey),
    RpcNode(RpcNodeKey),
    IsFinalitySynced(IsFinalitySyncedKey),
    VerifiedSyncData(VerifiedSyncDataKey),
    AchievedSyncConfidence(AchievedSyncConfidenceKey),
    VerifiedSyncHeader(VerifiedSyncHeaderKey),
    LatestSync(LatestSyncKey),
    VerifiedData(VerifiedDataKey),
    AchievedConfidence(AchievedConfidenceKey),
    VerifiedHeader(VerifiedHeaderKey),
    LatestHeader(LatestHeaderKey),
    IsSynced(IsSyncedKey),
    ClientId(ClientIdKey),
    P2PKeypair(P2PKeypairKey),
}

impl AnyKey {
    /// The text under which the entry stands.
    pub open spec fn slot(self) -> Seq<char> {
        match self {
            AnyKey::AppData(key) => key.slot(),
            AnyKey::BlockHeader(key) => key.slot(),
            AnyKey::VerifiedCellCount(key) => key.slot(),
            AnyKey::FinalitySyncCheckpoint(key) => key.slot(),
            AnyKey::RpcNode(key) => key.slot(),
            AnyKey::IsFinalitySynced(key) => key.slot(),
            AnyKey::VerifiedSyncData(key) => key.slot(),
            AnyKey::AchievedSyncConfidence(key) => key.slot(),
            AnyKey::VerifiedSyncHeader(key) => key.slot(),
            AnyKey::LatestSync(key) => key.slot(),
            AnyKey::VerifiedData(key) => key.slot(),
            AnyKey::AchievedConfidence(key) => key.slot(),
            AnyKey::VerifiedHeader(key) => key.slot(),
            AnyKey::LatestHeader(key) => key.slot(),
            AnyKey::IsSynced(key) => key.slot(),
            AnyKey::ClientId(key) => key.slot(),
            AnyKey::P2PKeypair(key) => key.slot(),
        }
    }
}

/// What follows the first colon of two equal texts is equal, and so is what stands before it.
proof fn lemma_first_colon(a: Seq<char>, b: Seq<char>, c: Seq<char>, d: Seq<char>)
    requires
        colon(a, b) == colon(c, d),
        !a.contains(':'),
        !c.contains(':'),
    ensures
        a == c,
        b == d,
{
    let s = colon(a, b);
    assert(s[a.len() as int] == ':');
    assert(s[c.len() as int] == ':') by {
        assert(colon(c, d)[c.len() as int] == ':');
    }
    if a.len() < c.len() {
        assert(c[a.len() as int] == s[a.len() as int]);
    }
    if c.len() < a.len() {
        assert(a[c.len() as int] == s[c.len() as int]);
    }
    assert(a =~= s.take(a.len() as int));
    assert(c =~= colon(c, d).take(c.len() as int));
    assert(b =~= s.skip((a.len() + 1) as int));
    assert(d =~= colon(c, d).skip((c.len() + 1) as int));
}

/// Of a text that ends in two numerals, the first stands right behind the head's colon, and has
/// no colon in it.
proof fn lemma_last_field(head: Seq<char>, m: u32, n: u32)
    ensures
        colon(colon(head, decimal(m as nat)), decimal(n as nat)) == colon(
            head,
            colon(decimal(m as nat), decimal(n as nat)),
        ),
        !decimal(m as nat).contains(':'),
{
    lemma_decimal_digits(m as nat);
    assert(colon(colon(head, decimal(m as nat)), decimal(n as nat)) =~= colon(
        head,
        colon(decimal(m as nat), decimal(n as nat)),
    ));
}

/// Different keys stand in different slots: neither two keys of one kind nor two of different
/// kinds share one.
pub proof fn law_keys_do_not_share_slots(a: AnyKey, b: AnyKey)
    ensures
        a.slot() == b.slot() ==> a == b,
{
    if a.slot() == b.slot() {
        lemma_same_slot(a, b);
    }
}

/// Keys with the same slot are the same: the text tells the kind of the key apart, and then the
/// numbers in it.
proof fn lemma_same_slot(a: AnyKey, b: AnyKey)
    requires
        a.slot() == b.slot(),
    ensures
        a == b,
{
    reveal_strlit("app_state_cf");
    reveal_strlit("app_id");
    reveal_strlit("block_header");
    reveal_strlit("verified_cell_count");
    reveal_strlit("finality_sync_checkpoint");
    reveal_strlit("connected_rpc_node");
    reveal_strlit("is_finality_synced");
    reveal_strlit("verified_sync_data");
    reveal_strlit("achieved_sync_confidence");
    reveal_strlit("verified_sync_header");
    reveal_strlit("latest_sync");
    reveal_strlit("verified_data");
    reveal_strlit("achieved_confidence");
    reveal_strlit("verified_header");
    reveal_strlit("latest_header");
    reveal_strlit("is_synced");
    reveal_strlit("client_id");
    reveal_strlit("p2p_keypair");
    let s = a.slot();
    let t = b.slot();
    assert(s[0] == t[0]);
    assert(s[1] == t[1]);
    assert(s[13] == t[13]);
    match (a, b) {
        (AnyKey::AppData(k), AnyKey::AppData(l)) => {
            let head = colon(APP_STATE_CF@, APP_ID_PREFIX@);
            lemma_last_field(head, k.0, k.1);
            lemma_last_field(head, l.0, l.1);
            assert(s =~= t);
            let m = (head.len() + 1) as int;
            assert(s.skip(m) =~= colon(decimal(k.0 as nat), decimal(k.1 as nat)));
            assert(t.skip(m) =~= colon(decimal(l.0 as nat), decimal(l.1 as nat)));
            lemma_first_colon(
                decimal(k.0 as nat),
                decimal(k.1 as nat),
                decimal(l.0 as nat),
                decimal(l.1 as nat),
            );
            lemma_decimal_injective(k.0 as nat, l.0 as nat);
            lemma_decimal_injective(k.1 as nat, l.1 as nat);
        },
        (AnyKey::BlockHeader(k), AnyKey::BlockHeader(l)) => {
            let m = (colon(APP_STATE_CF@, BLOCK_HEADER_KEY_PREFIX@).len() + 1) as int;
            assert(s.skip(m) =~= decimal(k.0 as nat));
            assert(t.skip(m) =~= decimal(l.0 as nat));
            lemma_decimal_injective(k.0 as nat, l.0 as nat);
        },
        (AnyKey::VerifiedCellCount(k), AnyKey::VerifiedCellCount(l)) => {
            let m = (colon(APP_STATE_CF@, VERIFIED_CELL_COUNT_PREFIX@).len() + 1) as int;
            assert(s.skip(m) =~= decimal(k.0 as nat));
            assert(t.skip(m) =~= decimal(l.0 as nat));
            lemma_decimal_injective(k.0 as nat, l.0 as nat);
        },
        _ => {},
    }
}

/// The slots of numbered keys say what the numbers are of, and then the numbers, with colons between
/// them.
pub proof fn law_numbered_slots_are_spelled_out(
    data: AppDataKey,
    header: BlockHeaderKey,
    count: VerifiedCellCountKey,
)
    ensures
        data.slot() == "app_state_cf:app_id:"@ + decimal(data.0 as nat) + seq![':'] + decimal(
            data.1 as nat,
        ),
        header.slot() == "app_state_cf:block_header:"@ + decimal(header.0 as nat),
        count.slot() == "app_state_cf:verified_cell_count:"@ + decimal(count.0 as nat),
{
    reveal_strlit("app_state_cf");
    reveal_strlit("app_id");
    reveal_strlit("block_header");
    reveal_strlit("verified_cell_count");
    reveal_strlit("app_state_cf:app_id:");
    reveal_strlit("app_state_cf:block_header:");
    reveal_strlit("app_state_cf:verified_cell_count:");
    assert(data.slot() =~= "app_state_cf:app_id:"@ + decimal(data.0 as nat) + seq![':'] + decimal(
        data.1 as nat,
    ));
    assert(header.slot() =~= "app_state_cf:block_header:"@ + decimal(header.0 as nat));
    assert(count.slot() =~= "app_state_cf:verified_cell_count:"@ + decimal(count.0 as nat));
}

/// The slots of the other keys are their names.
pub proof fn law_named_slots_are_names()
    ensures
        FinalitySyncCheckpointKey.slot() == "finality_sync_checkpoint"@,
        RpcNodeKey.slot() == "connected_rpc_node"@,
        IsFinalitySyncedKey.slot() == "is_finality_synced"@,
        VerifiedSyncDataKey.slot() == "verified_sync_data"@,
        AchievedSyncConfidenceKey.slot() == "achieved_sync_confidence"@,
        VerifiedSyncHeaderKey.slot() == "verified_sync_header"@,
        LatestSyncKey.slot() == "latest_sync"@,
        VerifiedDataKey.slot() == "verified_data"@,
        AchievedConfidenceKey.slot() == "achieved_confidence"@,
        VerifiedHeaderKey.slot() == "verified_header"@,
        LatestHeaderKey.slot() == "latest_header"@,
        IsSyncedKey.slot() == "is_synced"@,
        ClientIdKey.slot() == "client_id"@,
        P2PKeypairKey.slot() == "p2p_keypair"@,
{
}

} // verus!
