use avail_light_core::data::database::{Database, DbMap};
use avail_light_core::data::hash_map_key::{HashMapKey, RecordKey};
use avail_light_core::data::kad::{DHTRecordKey, Record};
use avail_light_core::data::keys::{
    AchievedConfidenceKey, AchievedSyncConfidenceKey, AppDataKey, BlockHeaderKey, ClientIdKey,
    FinalitySyncCheckpointKey, IsFinalitySyncedKey, IsSyncedKey, LatestHeaderKey, LatestSyncKey,
    P2PKeypairKey, RpcNodeKey, VerifiedCellCountKey, VerifiedDataKey, VerifiedHeaderKey,
    VerifiedSyncDataKey, VerifiedSyncHeaderKey,
};
use avail_light_core::data::mem_db::{MemoryDB, RecordStore};
use avail_light_core::text::decimal_text;
use libp2p::PeerId;
use std::collections::HashSet;

#[test]
fn numbers_are_written_in_decimal() {
    for n in [0u32, 1, 9, 10, 99, 100, 65535, 1000000000, 4294967295] {
        assert_eq!(decimal_text(n), n.to_string());
    }
}

#[test]
fn numbered_keys_carry_their_numbers() {
    assert_eq!(HashMapKey::from(AppDataKey(7, 1024)).0, "app_state_cf:app_id:7:1024");
    assert_eq!(HashMapKey::from(BlockHeaderKey(0)).0, "app_state_cf:block_header:0");
    assert_eq!(
        HashMapKey::from(VerifiedCellCountKey(u32::MAX)).0,
        "app_state_cf:verified_cell_count:4294967295"
    );
}

#[test]
fn other_keys_have_names() {
    assert_eq!(HashMapKey::from(FinalitySyncCheckpointKey).0, "finality_sync_checkpoint");
    assert_eq!(HashMapKey::from(RpcNodeKey).0, "connected_rpc_node");
    assert_eq!(HashMapKey::from(IsFinalitySyncedKey).0, "is_finality_synced");
    assert_eq!(HashMapKey::from(VerifiedSyncDataKey).0, "verified_sync_data");
    assert_eq!(HashMapKey::from(AchievedSyncConfidenceKey).0, "achieved_sync_confidence");
    assert_eq!(HashMapKey::from(VerifiedSyncHeaderKey).0, "verified_sync_header");
    assert_eq!(HashMapKey::from(LatestSyncKey).0, "latest_sync");
    assert_eq!(HashMapKey::from(VerifiedDataKey).0, "verified_data");
    assert_eq!(HashMapKey::from(AchievedConfidenceKey).0, "achieved_confidence");
    assert_eq!(HashMapKey::from(VerifiedHeaderKey).0, "verified_header");
    assert_eq!(HashMapKey::from(LatestHeaderKey).0, "latest_header");
    assert_eq!(HashMapKey::from(IsSyncedKey).0, "is_synced");
    assert_eq!(HashMapKey::from(ClientIdKey).0, "client_id");
    assert_eq!(HashMapKey::from(P2PKeypairKey).0, "p2p_keypair");
}

#[test]
fn keys_do_not_share_slots() {
    let mut slots = HashSet::new();
    for m in [0u32, 1, 11, 111] {
        for n in [0u32, 1, 11, 111] {
            assert!(slots.insert(AppDataKey(m, n).into_hash_map_key()));
        }
        assert!(slots.insert(BlockHeaderKey(m).into_hash_map_key()));
        assert!(slots.insert(VerifiedCellCountKey(m).into_hash_map_key()));
    }
    assert!(slots.insert(FinalitySyncCheckpointKey.into_hash_map_key()));
    assert!(slots.insert(RpcNodeKey.into_hash_map_key()));
    assert!(slots.insert(IsFinalitySyncedKey.into_hash_map_key()));
    assert!(slots.insert(VerifiedSyncDataKey.into_hash_map_key()));
    assert!(slots.insert(AchievedSyncConfidenceKey.into_hash_map_key()));
    assert!(slots.insert(VerifiedSyncHeaderKey.into_hash_map_key()));
    assert!(slots.insert(LatestSyncKey.into_hash_map_key()));
    assert!(slots.insert(VerifiedDataKey.into_hash_map_key()));
    assert!(slots.insert(AchievedConfidenceKey.into_hash_map_key()));
    assert!(slots.insert(VerifiedHeaderKey.into_hash_map_key()));
    assert!(slots.insert(LatestHeaderKey.into_hash_map_key()));
    assert!(slots.insert(IsSyncedKey.into_hash_map_key()));
    assert!(slots.insert(ClientIdKey.into_hash_map_key()));
    assert!(slots.insert(P2PKeypairKey.into_hash_map_key()));
    assert_eq!(slots.len(), 38);
}

#[test]
fn value_is_read_back() {
    let mut db = DbMap::new();
    assert_eq!(db.get(ClientIdKey), None);
    db.put(ClientIdKey, "\"a\"".to_string());
    db.put(BlockHeaderKey(1), "1".to_string());
    assert_eq!(db.get(ClientIdKey).unwrap(), "\"a\"");
    db.put(ClientIdKey, "\"b\"".to_string());
    assert_eq!(db.get(ClientIdKey).unwrap(), "\"b\"");
    assert_eq!(db.get(BlockHeaderKey(1)).unwrap(), "1");
    assert_eq!(db.get(BlockHeaderKey(2)), None);
}

#[test]
fn deleted_entry_is_gone() {
    let mut db = DbMap::new();
    db.put(AppDataKey(1, 2), "x".to_string());
    db.put(AppDataKey(2, 1), "y".to_string());
    db.delete(AppDataKey(1, 2));
    assert_eq!(db.get(AppDataKey(1, 2)), None);
    assert_eq!(db.get(AppDataKey(2, 1)).unwrap(), "y");
    db.delete(AppDataKey(1, 2));
    assert_eq!(db.get(AppDataKey(2, 1)).unwrap(), "y");
}

#[test]
fn database_and_record_store_do_not_touch_each_other() {
    let mut db = MemoryDB::new(PeerId::random());
    let key = DHTRecordKey { bytes: b"client_id".to_vec() };
    let record = Record { key: key.clone(), value: vec![1], publisher: None, expires: None };
    RecordStore::put(&mut db, record).unwrap();
    assert_eq!(Database::get(&db, ClientIdKey), None);
    Database::put(&mut db, ClientIdKey, "\"a\"".to_string());
    assert_eq!(RecordStore::get(&db, &key).unwrap().value, vec![1]);
    RecordStore::remove(&mut db, &key);
    assert_eq!(Database::get(&db, ClientIdKey).unwrap(), "\"a\"");
    Database::delete(&mut db, ClientIdKey);
    assert_eq!(Database::get(&db, ClientIdKey), None);
}
