use avail_light_core::data::kad::{DHTRecordKey, Record, StoreError};
use avail_light_core::data::mem_db::{MemoryDB, MemoryStore, MemoryStoreConfig, RecordStore};
use avail_light_core::data::providers::ProvidersConfig;
use libp2p::kad::KBucketKey;
use libp2p::PeerId;
use std::time::{Duration, Instant};

fn key(bytes: &[u8]) -> DHTRecordKey {
    DHTRecordKey { bytes: bytes.to_vec() }
}

fn record(name: &[u8], value: &[u8]) -> Record {
    Record { key: key(name), value: value.to_vec(), publisher: None, expires: None }
}

fn small_store(max_records: usize, max_value_bytes: usize) -> MemoryStore {
    let config = MemoryStoreConfig {
        max_records,
        max_value_bytes,
        providers: ProvidersConfig::default(),
    };
    MemoryStore::with_config(PeerId::random(), config)
}

fn values(store: &impl RecordStore) -> Vec<(Vec<u8>, Vec<u8>)> {
    let mut values: Vec<(Vec<u8>, Vec<u8>)> =
        store.records().iter().map(|r| (r.key.bytes.clone(), r.value.clone())).collect();
    values.sort();
    values
}

#[test]
fn default_limits() {
    let config = MemoryStoreConfig::default();
    assert_eq!(config.max_records, 1024);
    assert_eq!(config.max_value_bytes, 66560);
    assert_eq!(config.providers.max_providers_per_key, 20);
    assert_eq!(config.providers.max_provided_keys, 1024);
}

#[test]
fn new_store_is_empty_and_belongs_to_its_peer() {
    let peer = PeerId::random();
    let store = MemoryStore::new(peer);
    assert!(store.local_key == KBucketKey::from(peer));
    assert_eq!(store.config.max_records, 1024);
    assert_eq!(store.config.max_value_bytes, 66560);
    assert!(store.records().is_empty());
    assert!(store.provided().is_empty());
    let db = MemoryDB::new(peer);
    assert!(db.libp2p_mem_store.local_key == KBucketKey::from(peer));
    assert!(db.records().is_empty());
}

#[test]
fn put_get_remove_record() {
    let mut store = MemoryStore::new(PeerId::random());
    let publisher = Some(PeerId::random());
    let expires = Some(Instant::now() + Duration::from_secs(60));
    assert!(store.get(&key(b"a")).is_none());
    let r = Record { key: key(b"a"), value: vec![1, 2], publisher, expires };
    assert_eq!(store.put(r), Ok(()));
    let found = store.get(&key(b"a")).unwrap();
    assert_eq!(found.key.bytes, b"a");
    assert_eq!(found.value, vec![1, 2]);
    assert_eq!(found.publisher, publisher);
    assert_eq!(found.expires, expires);
    assert!(store.get(&key(b"b")).is_none());
    store.remove(&key(b"b"));
    assert!(store.get(&key(b"a")).is_some());
    store.remove(&key(b"a"));
    assert!(store.get(&key(b"a")).is_none());
    assert!(store.records().is_empty());
}

#[test]
fn keys_are_told_apart_byte_by_byte() {
    let mut store = MemoryStore::new(PeerId::random());
    let names: Vec<Vec<u8>> = vec![vec![], vec![0], vec![0, 0], vec![127], vec![128], vec![255], vec![195, 191]];
    for (i, name) in names.iter().enumerate() {
        assert_eq!(store.put(record(name, &[i as u8])), Ok(()));
    }
    assert_eq!(store.records().len(), names.len());
    for (i, name) in names.iter().enumerate() {
        assert_eq!(store.get(&key(name)).unwrap().value, vec![i as u8]);
    }
}

#[test]
fn value_may_be_as_large_as_the_limit() {
    let mut store = small_store(2, 3);
    assert_eq!(store.put(record(b"a", &[0; 5])), Err(StoreError::ValueTooLarge));
    assert_eq!(store.put(record(b"a", &[0; 4])), Err(StoreError::ValueTooLarge));
    assert!(store.records().is_empty());
    assert_eq!(store.put(record(b"a", &[0; 3])), Ok(()));
    assert_eq!(store.put(record(b"a", &[1; 4])), Err(StoreError::ValueTooLarge));
    assert_eq!(store.get(&key(b"a")).unwrap().value, vec![0; 3]);
    let mut nothing = small_store(2, 0);
    assert_eq!(nothing.put(record(b"a", &[0])), Err(StoreError::ValueTooLarge));
    assert_eq!(nothing.put(record(b"a", &[])), Ok(()));
}

#[test]
fn records_lie_under_their_keys() {
    let mut store = MemoryStore::new(PeerId::random());
    for n in 0..20u8 {
        assert_eq!(store.put(record(&[n], &[n])), Ok(()));
    }
    store.remove(&key(&[3]));
    store.retain(|key, _| key.bytes[0] % 3 != 1);
    for n in 0..20u8 {
        if let Some(found) = store.get(&key(&[n])) {
            assert_eq!(found.key.bytes, vec![n]);
        }
    }
    assert_eq!(store.records().len(), 12);
}

#[test]
fn full_store_takes_updates_only() {
    let mut store = small_store(2, 10);
    assert_eq!(store.put(record(b"a", &[1])), Ok(()));
    assert_eq!(store.put(record(b"b", &[2])), Ok(()));
    assert_eq!(store.put(record(b"c", &[3])), Err(StoreError::MaxRecords));
    assert_eq!(store.put(record(b"a", &[4])), Ok(()));
    assert_eq!(store.put(record(b"c", &[0; 11])), Err(StoreError::ValueTooLarge));
    assert_eq!(values(&store), vec![(b"a".to_vec(), vec![4]), (b"b".to_vec(), vec![2])]);
    store.remove(&key(b"b"));
    assert_eq!(store.put(record(b"c", &[3])), Ok(()));
    assert_eq!(values(&store), vec![(b"a".to_vec(), vec![4]), (b"c".to_vec(), vec![3])]);
}

#[test]
fn store_without_room_takes_nothing() {
    let mut store = small_store(0, 10);
    assert_eq!(store.put(record(b"a", &[1])), Err(StoreError::MaxRecords));
    assert!(store.records().is_empty());
}

#[test]
fn remove_undoes_put() {
    let mut store = MemoryStore::new(PeerId::random());
    for n in 0..10u8 {
        assert_eq!(store.put(record(&[n], &[n])), Ok(()));
    }
    let before = values(&store);
    assert_eq!(store.put(record(b"new", &[9])), Ok(()));
    store.remove(&key(b"new"));
    assert_eq!(values(&store), before);
}

#[test]
fn many_records_come_and_go() {
    let mut store = MemoryStore::new(PeerId::random());
    for n in 0..200u8 {
        assert_eq!(store.put(record(&[n, 1], &[n])), Ok(()));
    }
    for n in (0..200u8).step_by(3) {
        store.remove(&key(&[n, 1]));
    }
    for n in 0..200u8 {
        let found = store.get(&key(&[n, 1])).map(|r| r.value.clone());
        assert_eq!(found, if n % 3 == 0 { None } else { Some(vec![n]) });
    }
    assert_eq!(store.records().len(), 133);
}

#[test]
fn retained_records_satisfy_the_predicate() {
    let mut store = MemoryStore::new(PeerId::random());
    for n in 0..20u8 {
        assert_eq!(store.put(record(&[n], &[n])), Ok(()));
    }
    store.retain(|key, record| {
        record.value.push(100);
        key.bytes[0] % 2 == 0
    });
    assert_eq!(store.records().len(), 10);
    for n in 0..20u8 {
        let found = store.get(&key(&[n])).map(|r| r.value.clone());
        assert_eq!(found, if n % 2 == 0 { Some(vec![n, 100]) } else { None });
    }
    store.retain(|_, _| false);
    assert!(store.records().is_empty());
    assert_eq!(store.put(record(b"a", &[1])), Ok(()));
    assert_eq!(store.records().len(), 1);
}

#[test]
fn retaining_leaves_room_for_new_records() {
    let mut store = small_store(3, 10);
    for n in 0..3u8 {
        assert_eq!(store.put(record(&[n], &[n])), Ok(()));
    }
    assert_eq!(store.put(record(b"new", &[9])), Err(StoreError::MaxRecords));
    store.retain(|key, _| key.bytes[0] != 1);
    assert_eq!(store.put(record(b"new", &[9])), Ok(()));
    assert_eq!(store.records().len(), 3);
    assert_eq!(store.put(record(b"newer", &[9])), Err(StoreError::MaxRecords));
}

#[test]
fn shrinking_changes_no_record() {
    let mut store = MemoryStore::new(PeerId::random());
    for n in 0..20u8 {
        assert_eq!(store.put(record(&[n], &[n])), Ok(()));
    }
    store.retain(|key, _| key.bytes[0] < 5);
    let before = values(&store);
    store.shrink_hashmap();
    assert_eq!(values(&store), before);
    assert_eq!(store.get(&key(&[4])).unwrap().value, vec![4]);
}

#[test]
fn clone_says_the_same_and_goes_its_own_way() {
    let peer = PeerId::random();
    let mut store = MemoryStore::new(peer);
    assert_eq!(store.put(record(b"a", &[1])), Ok(()));
    let mut copy = store.clone();
    assert!(copy.local_key == store.local_key);
    assert_eq!(values(&copy), values(&store));
    assert_eq!(copy.put(record(b"b", &[2])), Ok(()));
    copy.remove(&key(b"a"));
    assert_eq!(values(&store), vec![(b"a".to_vec(), vec![1])]);
    assert_eq!(values(&copy), vec![(b"b".to_vec(), vec![2])]);
}

#[test]
fn memory_db_stores_records() {
    let mut db = MemoryDB::new(PeerId::random());
    assert_eq!(RecordStore::put(&mut db, record(b"a", &[1])), Ok(()));
    assert_eq!(RecordStore::put(&mut db, record(b"b", &[2])), Ok(()));
    assert_eq!(RecordStore::put(&mut db, record(b"c", &[0; 66561])), Err(StoreError::ValueTooLarge));
    assert!(RecordStore::get(&db, &key(b"c")).is_none());
    assert_eq!(RecordStore::put(&mut db, record(b"c", &[0; 66560])), Ok(()));
    RecordStore::remove(&mut db, &key(b"c"));
    assert_eq!(values(&db), vec![(b"a".to_vec(), vec![1]), (b"b".to_vec(), vec![2])]);
    RecordStore::remove(&mut db, &key(b"a"));
    assert!(RecordStore::get(&db, &key(b"a")).is_none());
    assert_eq!(RecordStore::get(&db, &key(b"b")).unwrap().value, vec![2]);
}
