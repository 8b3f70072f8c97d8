use avail_light_core::data::database::{Database, DbMap};
use avail_light_core::data::keys::{ClientIdKey, P2PKeypairKey};
use avail_light_core::network::configuration::{
    AutoNATConfig, KademliaConfig, KademliaMode, LibP2PConfig, SecretKey,
};
use avail_light_core::network::identity::{
    get_or_init_keypair, identity, keep_keypair, keypair, readable_identity, HexError, KeypairError,
};
use libp2p::identity::{ed25519, Keypair};
use libp2p::PeerId;
use std::time::Duration;

const SECRET: &str = "9d61b19deffd5a60ba844af492ec2cc44449c5697b326919703bac031cae7f60";
const PUBLIC: &str = "d75a980182b10ab7d54bfed3c964073a0ee172f3daa62325af021a68f707511a";

fn config(secret_key: Option<SecretKey>) -> LibP2PConfig {
    LibP2PConfig {
        secret_key,
        autonat: AutoNATConfig {
            autonat_retry_interval: Duration::ZERO,
            autonat_refresh_interval: Duration::ZERO,
            autonat_boot_delay: Duration::ZERO,
            autonat_throttle: Duration::ZERO,
            autonat_only_global_ips: false,
        },
        kademlia: KademliaConfig {
            kad_record_ttl: Duration::ZERO,
            operation_mode: KademliaMode::Client,
        },
        connection_idle_timeout: Duration::ZERO,
        max_negotiating_inbound_streams: 1,
        task_command_buffer_size: 1,
        per_connection_event_buffer_size: 1,
        dial_concurrency_factor: 1,
        ws_transport_enable: false,
        dht_parallelization_limit: 1,
    }
}

fn from_key(key: &str) -> Result<Keypair, KeypairError> {
    keypair(&SecretKey::Key { key: key.to_string() })
}

fn hex_error(error: KeypairError) -> HexError {
    match error {
        KeypairError::KeyDecoding(error) => error,
        other => panic!("{other:?}"),
    }
}

fn from_seed(seed: &str) -> Keypair {
    keypair(&SecretKey::Seed { seed: seed.to_string() }).unwrap()
}

fn encoded(keypair: &Keypair) -> Vec<u8> {
    keypair.clone().try_into_ed25519().unwrap().to_bytes().to_vec()
}

#[test]
fn secret_key_gives_its_keypair() {
    let keypair = from_key(SECRET).unwrap();
    assert_eq!(hex::encode(encoded(&keypair)), format!("{SECRET}{PUBLIC}"));
}

#[test]
fn digits_may_be_upper_case() {
    let keypair = from_key(&SECRET.to_uppercase()).unwrap();
    assert_eq!(hex::encode(encoded(&keypair)), format!("{SECRET}{PUBLIC}"));
}

#[test]
fn seed_is_hashed_into_the_secret_key() {
    let digest = "3a985da74fe225b2045c172d6bd390bd855f086e3e9d525b46bfe24511431532";
    assert_eq!(encoded(&from_seed("abc")), encoded(&from_key(digest).unwrap()));
    assert_eq!(encoded(&from_seed("abc")), encoded(&from_key(&digest.to_uppercase()).unwrap()));
    let empty = "a7ffc6f8bf1ed76651c14756a061d662f580ff4de43b49fa82d80a4b80f8434a";
    assert_eq!(encoded(&from_seed("")), encoded(&from_key(empty).unwrap()));
    assert_ne!(encoded(&from_seed("abc")), encoded(&from_seed("abd")));
}

#[test]
fn odd_number_of_digits_is_refused() {
    assert_eq!(hex_error(from_key(&SECRET[1..]).unwrap_err()), HexError::OddLength);
}

#[test]
fn other_lengths_are_refused() {
    for key in ["", "9d61", &format!("{SECRET}00")] {
        assert_eq!(hex_error(from_key(key).unwrap_err()), HexError::InvalidStringLength);
    }
}

#[test]
fn first_character_that_is_no_digit_is_named() {
    let key = format!("9d6g{}z", &SECRET[5..]);
    assert_eq!(
        hex_error(from_key(&key).unwrap_err()),
        HexError::InvalidHexCharacter { c: 'g', index: 3 }
    );
}

#[test]
fn errors_have_messages() {
    let refused = KeypairError::KeyDecoding(HexError::OddLength);
    assert_eq!(refused.message(), Some("error decoding secret key from config"));
    assert_eq!(KeypairError::SeedImport.message(), Some("error generating secret key from seed"));
    assert_eq!(KeypairError::KeyImport.message(), Some("error importing secret key"));
}

#[test]
fn configured_secret_comes_before_the_database() {
    let mut db = DbMap::new();
    keep_keypair(&mut db, from_seed("stored")).unwrap();
    let stored = db.get(P2PKeypairKey);
    let cfg = config(Some(SecretKey::Seed { seed: "configured".to_string() }));
    let keypair = get_or_init_keypair(&cfg, &mut db).unwrap();
    assert_eq!(encoded(&keypair), encoded(&from_seed("configured")));
    assert_eq!(db.get(P2PKeypairKey), stored);
}

#[test]
fn configured_secret_is_not_kept() {
    let mut db = DbMap::new();
    let cfg = config(Some(SecretKey::Key { key: SECRET.to_string() }));
    let (keypair, peer_id) = identity(&cfg, &mut db).unwrap();
    assert_eq!(hex::encode(encoded(&keypair)), format!("{SECRET}{PUBLIC}"));
    assert_eq!(peer_id, keypair.public().to_peer_id());
    assert_eq!(db.get(P2PKeypairKey), None);
    let wrong = config(Some(SecretKey::Key { key: "0".to_string() }));
    assert_eq!(hex_error(identity(&wrong, &mut db).unwrap_err()), HexError::OddLength);
}

#[test]
fn kept_keypair_is_an_array_of_numbers() {
    let mut db = DbMap::new();
    let kept = keep_keypair(&mut db, from_key(SECRET).unwrap()).unwrap();
    let bytes = encoded(&kept);
    let json = db.get(P2PKeypairKey).unwrap();
    assert_eq!(json, format!("{bytes:?}").replace(' ', ""));
    assert!(json.starts_with("[157,97,177,157,"));
    assert!(json.ends_with(",81,26]"));
}

#[test]
fn kept_keypair_is_read_back() {
    let mut db = DbMap::new();
    keep_keypair(&mut db, from_seed("abc")).unwrap();
    let (keypair, peer_id) = identity(&config(None), &mut db).unwrap();
    assert_eq!(encoded(&keypair), encoded(&from_seed("abc")));
    assert_eq!(peer_id, PeerId::from(from_seed("abc").public()));
}

#[test]
fn new_keypair_is_kept() {
    let mut db = DbMap::new();
    db.put(ClientIdKey, "\"me\"".to_string());
    let (keypair, peer_id) = identity(&config(None), &mut db).unwrap();
    let stored = db.get(P2PKeypairKey).unwrap();
    let (again, peer_again) = identity(&config(None), &mut db).unwrap();
    assert_eq!(encoded(&again), encoded(&keypair));
    assert_eq!(peer_again, peer_id);
    assert_eq!(db.get(P2PKeypairKey).unwrap(), stored);
    assert_eq!(db.get(ClientIdKey).unwrap(), "\"me\"");
    let mut other = DbMap::new();
    assert_ne!(identity(&config(None), &mut other).unwrap().1, peer_id);
}

#[test]
fn stored_bytes_that_are_no_keypair_are_refused() {
    let mut db = DbMap::new();
    db.put(P2PKeypairKey, "[1,2,3]".to_string());
    let refused = identity(&config(None), &mut db).unwrap_err();
    assert_eq!(refused.message(), None);
    let outside = ed25519::Keypair::try_from_bytes(&mut [1, 2, 3]).unwrap_err();
    match refused {
        KeypairError::StoredKeypair(error) => assert_eq!(error.to_string(), outside.to_string()),
        other => panic!("{other:?}"),
    }
    assert_eq!(db.get(P2PKeypairKey).unwrap(), "[1,2,3]");
    assert!(matches!(
        readable_identity(&config(None), &mut db),
        Some(Err(KeypairError::StoredKeypair(_)))
    ));
}

#[test]
fn stored_halves_have_to_belong_together() {
    let mut db = DbMap::new();
    let mut bytes = encoded(&from_seed("abc"));
    bytes[63] ^= 1;
    db.put(P2PKeypairKey, format!("{bytes:?}"));
    assert!(matches!(
        get_or_init_keypair(&config(None), &mut db),
        Err(KeypairError::StoredKeypair(_))
    ));
}

#[test]
fn unreadable_entry_gives_no_identity() {
    let mut db = DbMap::new();
    for text in ["", "{}", "[256]", "[1,2", "\"abc\""] {
        db.put(P2PKeypairKey, text.to_string());
        assert!(readable_identity(&config(None), &mut db).is_none());
        assert_eq!(db.get(P2PKeypairKey).unwrap(), text);
        let cfg = config(Some(SecretKey::Seed { seed: "abc".to_string() }));
        let (keypair, _) = readable_identity(&cfg, &mut db).unwrap().unwrap();
        assert_eq!(encoded(&keypair), encoded(&from_seed("abc")));
    }
}

#[test]
fn readable_entry_may_be_written_in_another_way() {
    let mut db = DbMap::new();
    let bytes = encoded(&from_seed("abc"));
    db.put(P2PKeypairKey, format!(" {bytes:?} "));
    let (keypair, _) = readable_identity(&config(None), &mut db).unwrap().unwrap();
    assert_eq!(encoded(&keypair), bytes);
}

#[test]
fn keypair_encodes_to_what_is_stored() {
    let mut db = DbMap::new();
    let (new, _) = identity(&config(None), &mut db).unwrap();
    let stored: Vec<u8> = serde_json::from_str(&db.get(P2PKeypairKey).unwrap()).unwrap();
    assert_eq!(stored.len(), 64);
    assert_eq!(encoded(&new), stored);
    let (read, _) = identity(&config(None), &mut db).unwrap();
    assert_eq!(encoded(&read), stored);
}

#[test]
fn identity_outlives_other_entries() {
    let mut db = DbMap::new();
    db.put(ClientIdKey, "\"me\"".to_string());
    let (keypair, peer_id) = identity(&config(None), &mut db).unwrap();
    let mut resumed = DbMap::new();
    resumed.put(P2PKeypairKey, db.get(P2PKeypairKey).unwrap());
    resumed.put(ClientIdKey, "\"you\"".to_string());
    let (again, peer_again) = identity(&config(None), &mut resumed).unwrap();
    assert_eq!(encoded(&again), encoded(&keypair));
    assert_eq!(peer_again, peer_id);
    assert_eq!(resumed.get(ClientIdKey).unwrap(), "\"you\"");
}
