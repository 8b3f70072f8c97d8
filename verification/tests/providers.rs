use avail_light_core::data::kad::{DHTRecordKey, ProviderRecord, StoreError};
use avail_light_core::data::mem_db::{MemoryDB, MemoryStore, MemoryStoreConfig, RecordStore};
use avail_light_core::data::providers::ProvidersConfig;
use libp2p::kad::KBucketKey;
use libp2p::{Multiaddr, PeerId};

fn key(bytes: &[u8]) -> DHTRecordKey {
    DHTRecordKey { bytes: bytes.to_vec() }
}

fn record(name: &[u8], provider: PeerId) -> ProviderRecord {
    ProviderRecord { key: key(name), provider, expires: None, addresses: vec![] }
}

fn small_store(owner: PeerId, max_providers_per_key: usize, max_provided_keys: usize) -> MemoryStore {
    let config = MemoryStoreConfig {
        providers: ProvidersConfig { max_providers_per_key, max_provided_keys },
        ..MemoryStoreConfig::default()
    };
    MemoryStore::with_config(owner, config)
}

/// Peers in the order of their distances to a key, the closest first.
fn sorted_peers(name: &[u8], n: usize) -> Vec<PeerId> {
    let target = KBucketKey::from(name.to_vec());
    let mut peers: Vec<PeerId> = (0..n).map(|_| PeerId::random()).collect();
    peers.sort_by_key(|peer| KBucketKey::from(*peer).distance(&target));
    peers
}

fn listed(store: &impl RecordStore, name: &[u8]) -> Vec<PeerId> {
    store.providers(&key(name)).iter().map(|r| r.provider).collect()
}

#[test]
fn add_get_remove_provider() {
    let mut store = MemoryStore::new(PeerId::random());
    let peer = PeerId::random();
    let address: Multiaddr = "/ip4/159.73.143.3/tcp/37000".parse().unwrap();
    assert!(listed(&store, b"a").is_empty());
    let r = ProviderRecord { addresses: vec![address.clone()], ..record(b"a", peer) };
    assert_eq!(store.add_provider(r), Ok(()));
    let found = store.providers(&key(b"a"));
    assert_eq!(found.len(), 1);
    assert_eq!(found[0].key.bytes, b"a");
    assert_eq!(found[0].provider, peer);
    assert_eq!(found[0].addresses, vec![address]);
    assert!(listed(&store, b"b").is_empty());
    store.remove_provider(&key(b"a"), &PeerId::random());
    store.remove_provider(&key(b"b"), &peer);
    assert_eq!(listed(&store, b"a"), vec![peer]);
    store.remove_provider(&key(b"a"), &peer);
    assert!(listed(&store, b"a").is_empty());
}

#[test]
fn providers_are_ordered_by_distance() {
    let peers = sorted_peers(b"a", 12);
    let mut store = MemoryStore::new(PeerId::random());
    for i in [5usize, 0, 11, 3, 7, 1, 10, 2, 9, 4, 8, 6] {
        assert_eq!(store.add_provider(record(b"a", peers[i])), Ok(()));
    }
    assert_eq!(listed(&store, b"a"), peers);
    store.remove_provider(&key(b"a"), &peers[4]);
    let mut left = peers.clone();
    left.remove(4);
    assert_eq!(listed(&store, b"a"), left);
}

#[test]
fn closest_providers_are_kept() {
    let peers = sorted_peers(b"a", 6);
    let mut store = small_store(PeerId::random(), 3, 10);
    for i in [4usize, 2, 5, 0, 3, 1] {
        assert_eq!(store.add_provider(record(b"a", peers[i])), Ok(()));
    }
    assert_eq!(listed(&store, b"a"), peers[..3].to_vec());
}

#[test]
fn provider_has_one_record_for_a_key() {
    let peers = sorted_peers(b"a", 3);
    let mut store = small_store(PeerId::random(), 3, 10);
    for peer in &peers {
        assert_eq!(store.add_provider(record(b"a", *peer)), Ok(()));
    }
    let address: Multiaddr = "/ip4/159.73.143.3/tcp/37000".parse().unwrap();
    let update = ProviderRecord { addresses: vec![address.clone()], ..record(b"a", peers[1]) };
    assert_eq!(store.add_provider(update), Ok(()));
    assert_eq!(listed(&store, b"a"), peers);
    let found = store.providers(&key(b"a"));
    assert!(found[0].addresses.is_empty());
    assert_eq!(found[1].addresses, vec![address]);
    assert!(found[2].addresses.is_empty());
}

#[test]
fn number_of_provided_keys_is_limited() {
    let peer = PeerId::random();
    let mut store = small_store(PeerId::random(), 2, 2);
    assert_eq!(store.add_provider(record(b"a", peer)), Ok(()));
    assert_eq!(store.add_provider(record(b"b", peer)), Ok(()));
    assert_eq!(store.add_provider(record(b"c", peer)), Err(StoreError::MaxProvidedKeys));
    assert!(listed(&store, b"c").is_empty());
    let other = PeerId::random();
    assert_eq!(store.add_provider(record(b"a", other)), Ok(()));
    assert_eq!(listed(&store, b"a").len(), 2);
    store.remove_provider(&key(b"b"), &peer);
    assert_eq!(store.add_provider(record(b"c", peer)), Ok(()));
    assert_eq!(listed(&store, b"c"), vec![peer]);
}

#[test]
fn lists_of_different_keys_are_separate() {
    let (one, two) = (PeerId::random(), PeerId::random());
    let mut store = MemoryStore::new(PeerId::random());
    assert_eq!(store.add_provider(record(b"a", one)), Ok(()));
    assert_eq!(store.add_provider(record(b"b", two)), Ok(()));
    assert_eq!(listed(&store, b"a"), vec![one]);
    assert_eq!(listed(&store, b"b"), vec![two]);
    store.remove_provider(&key(b"a"), &one);
    assert_eq!(listed(&store, b"b"), vec![two]);
}

#[test]
fn provided_lists_the_records_of_the_owner() {
    let owner = PeerId::random();
    let mut store = MemoryStore::new(owner);
    assert_eq!(store.add_provider(record(b"a", owner)), Ok(()));
    assert_eq!(store.add_provider(record(b"a", PeerId::random())), Ok(()));
    assert_eq!(store.add_provider(record(b"b", PeerId::random())), Ok(()));
    assert_eq!(store.add_provider(record(b"c", owner)), Ok(()));
    let mut keys: Vec<Vec<u8>> = store.provided().iter().map(|r| r.key.bytes.clone()).collect();
    keys.sort();
    assert_eq!(keys, vec![b"a".to_vec(), b"c".to_vec()]);
    assert!(store.provided().iter().all(|r| r.provider == owner));
    store.remove_provider(&key(b"a"), &owner);
    assert_eq!(store.provided().len(), 1);
    assert_eq!(store.provided()[0].key.bytes, b"c");
}

#[test]
fn provided_follows_updates_and_evictions() {
    let peers = sorted_peers(b"a", 3);
    let owner = peers[2];
    let mut store = small_store(owner, 2, 10);
    assert_eq!(store.add_provider(record(b"a", owner)), Ok(()));
    let address: Multiaddr = "/ip4/159.73.143.3/tcp/37000".parse().unwrap();
    let update = ProviderRecord { addresses: vec![address.clone()], ..record(b"a", owner) };
    assert_eq!(store.add_provider(update), Ok(()));
    assert_eq!(store.provided().len(), 1);
    assert_eq!(store.provided()[0].addresses, vec![address]);
    assert_eq!(store.add_provider(record(b"a", peers[0])), Ok(()));
    assert_eq!(store.add_provider(record(b"a", peers[1])), Ok(()));
    assert_eq!(listed(&store, b"a"), peers[..2].to_vec());
    assert!(store.provided().is_empty());
}

#[test]
fn key_with_no_room_for_providers_has_none() {
    let mut store = small_store(PeerId::random(), 0, 1);
    assert_eq!(store.add_provider(record(b"a", PeerId::random())), Ok(()));
    assert!(listed(&store, b"a").is_empty());
    assert_eq!(store.add_provider(record(b"b", PeerId::random())), Ok(()));
}

#[test]
fn clone_keeps_the_provider_records() {
    let peers = sorted_peers(b"a", 3);
    let mut store = MemoryStore::new(peers[1]);
    for peer in &peers {
        assert_eq!(store.add_provider(record(b"a", *peer)), Ok(()));
    }
    let mut copy = store.clone();
    assert_eq!(listed(&copy, b"a"), peers);
    assert_eq!(copy.provided().len(), 1);
    copy.remove_provider(&key(b"a"), &peers[0]);
    assert_eq!(listed(&store, b"a"), peers);
    assert_eq!(listed(&copy, b"a"), peers[1..].to_vec());
}

#[test]
fn memory_db_stores_provider_records() {
    let owner = PeerId::random();
    let mut db = MemoryDB::new(owner);
    assert_eq!(db.add_provider(record(b"a", owner)), Ok(()));
    assert_eq!(db.add_provider(record(b"a", owner)), Ok(()));
    assert_eq!(listed(&db, b"a"), vec![owner]);
    assert_eq!(db.provided().len(), 1);
    db.remove_provider(&key(b"a"), &owner);
    assert!(db.provided().is_empty());
}
