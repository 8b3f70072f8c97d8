//! The keypair by which a node is known, and where it comes from.

use super::configuration::{LibP2PConfig, SecretKey};
use crate::data::database::Database;
use crate::data::hash_map_key::RecordKey;
use crate::data::keys::P2PKeypairKey;
use crate::text::decimal;
use libp2p::identity::{ed25519, DecodingError, Keypair, OtherVariantError};
use libp2p::PeerId;
use multihash::Hasher;
use vstd::prelude::*;
use vstd::utf8::{encode_utf8, is_ascii_chars, is_ascii_chars_encode_utf8};

verus! {

/// A keypair, as `libp2p` defines it.
#[verifier::external_type_specification]
#[verifier::external_body]
pub struct ExKeypair(libp2p::identity::Keypair);

/// What `libp2p` says of bytes that are no key.
#[verifier::external_type_specification]
#[verifier::external_body]
pub struct ExDecodingError(libp2p::identity::DecodingError);

/// What `libp2p` says of a keypair of another kind than the one asked for.
#[verifier::external_type_specification]
#[verifier::external_body]
pub struct ExOtherVariantError(libp2p::identity::OtherVariantError);

/// What `serde_json` says of a text that does not hold what it was asked for.
#[verifier::external_type_specification]
#[verifier::external_body]
pub struct ExJsonError(serde_json::Error);

/// What is wrong with a secret key in hexadecimal.
#[derive(Debug, Clone, Copy, PartialEq, Eq, Structural)]
pub enum HexError {
    /// The character at a position is no digit.
    InvalidHexCharacter { c: char, index: usize },
    /// The number of digits is odd.
    OddLength,
    /// The number of digits is not that of a secret key.
    InvalidStringLength,
}

/// Why there is no keypair.
#[derive(Debug)]
pub enum KeypairError {
    /// The digest of the seed is no secret key.
    SeedImport,
    /// The configured secret key cannot be decoded.
    KeyDecoding(HexError),
    /// The decoded secret key is none.
    KeyImport,
    /// What the database holds is no keypair.
    StoredKeypair(DecodingError),
    /// The keypair is of another kind than the one that is stored.
    NotEd25519(OtherVariantError),
}

impl KeypairError {
    /// What is said of an error beside what the outside error in it says for itself.
    pub open spec fn text(self) -> Option<Seq<char>> {
        match self {
            KeypairError::SeedImport => Some("error generating secret key from seed"@),
            KeypairError::KeyDecoding(_) => Some("error decoding secret key from config"@),
            KeypairError::KeyImport => Some("error importing secret key"@),
            KeypairError::StoredKeypair(_) => None,
            KeypairError::NotEd25519(_) => None,
        }
    }

    /// What is said of the error beside what the outside error in it says for itself.
    pub fn message(&self) -> (message: Option<&'static str>)
        ensures
            match message {
                Some(message) => self.text() == Some(message@),
                None => self.text() is None,
            },
    {
        match self {
            KeypairError::SeedImport => Some("error generating secret key from seed"),
            KeypairError::KeyDecoding(_) => Some("error decoding secret key from config"),
            KeypairError::KeyImport => Some("error importing secret key"),
            KeypairError::StoredKeypair(_) => None,
            KeypairError::NotEd25519(_) => None,
        }
    }
}

/// The number of bytes of a secret key.
pub const SECRET_KEY_BYTES: usize = 32;

/// The value of a hexadecimal digit, which may be upper or lower case.
pub open spec fn hex_digit(c: u8) -> Option<int> {
    if 0x30 <= c <= 0x39 {
        Some(c - 0x30)
    } else if 0x41 <= c <= 0x46 {
        Some(c - 0x41 + 10)
    } else if 0x61 <= c <= 0x66 {
        Some(c - 0x61 + 10)
    } else {
        None
    }
}

/// Whether the first character of `text` that is no hexadecimal digit stands at the position `i`.
pub open spec fn first_invalid(text: Seq<u8>, i: int) -> bool {
    &&& 0 <= i < text.len()
    &&& hex_digit(text[i]) is None
    &&& forall|j: int| 0 <= j < i ==> hex_digit(#[trigger] text[j]) is Some
}

/// The `n` bytes that the hexadecimal `text` stands for, two digits a byte, or what is wrong with
/// it.
pub open spec fn hex_decoded(text: Seq<u8>, n: nat) -> Result<Seq<u8>, HexError> {
    if text.len() % 2 != 0 {
        Err(HexError::OddLength)
    } else if text.len() != 2 * n {
        Err(HexError::InvalidStringLength)
    } else if exists|i: int| first_invalid(text, i) {
        let i = choose|i: int| first_invalid(text, i);
        Err(HexError::InvalidHexCharacter { c: text[i] as char, index: i as usize })
    } else {
        Ok(Seq::new(n, |i: int| (16 * hex_digit(text[2 * i])->0 + hex_digit(text[2 * i + 1])->0) as u8))
    }
}

/// Whether the hexadecimal `text` spells `bytes`, two digits a byte, each in either case.
pub open spec fn hex_spells(text: Seq<u8>, bytes: Seq<u8>) -> bool {
    &&& text.len() == 2 * bytes.len()
    &&& forall|i: int|
        0 <= i < bytes.len() ==> {
            &&& hex_digit(text[2 * i]) == Some(#[trigger] bytes[i] as int / 16)
            &&& hex_digit(text[2 * i + 1]) == Some(bytes[i] as int % 16)
        }
}

/// The hexadecimal digit of `d`, which is less than sixteen.
pub open spec fn hex_char(d: int, upper: bool) -> char {
    if d < 10 {
        ('0' as int + d) as char
    } else if upper {
        ('A' as int + d - 10) as char
    } else {
        ('a' as int + d - 10) as char
    }
}

/// The hexadecimal text of `bytes`, with upper case letters or with lower case ones.
pub open spec fn hex_text(bytes: Seq<u8>, upper: bool) -> Seq<char> {
    Seq::new(
        2 * bytes.len(),
        |i: int|
            hex_char(
                if i % 2 == 0 {
                    bytes[i / 2] as int / 16
                } else {
                    bytes[i / 2] as int % 16
                },
                upper,
            ),
    )
}

/// Calls `hex::decode_to_slice` with room for a secret key. Its result is `hex_decoded`.
#[verifier::external_body]
fn decode_hex(text: &str) -> (decoded: Result<Vec<u8>, HexError>)
    ensures
        match decoded {
            Ok(bytes) => hex_decoded(encode_utf8(text@), SECRET_KEY_BYTES as nat) == Ok::<
                Seq<u8>,
                HexError,
            >(bytes@),
            Err(error) => hex_decoded(encode_utf8(text@), SECRET_KEY_BYTES as nat) == Err::<
                Seq<u8>,
                HexError,
            >(error),
        },
{
    let mut decoded = [0u8; SECRET_KEY_BYTES];
    match hex::decode_to_slice(text, &mut decoded) {
        Ok(()) => Ok(decoded.to_vec()),
        Err(hex::FromHexError::InvalidHexCharacter { c, index }) => Err(
            HexError::InvalidHexCharacter { c, index },
        ),
        Err(hex::FromHexError::OddLength) => Err(HexError::OddLength),
        Err(hex::FromHexError::InvalidStringLength) => Err(HexError::InvalidStringLength),
    }
}

/// The SHA3-256 digest of a string of bytes.
pub uninterp spec fn sha3_256(data: Seq<u8>) -> Seq<u8>;

/// Calls the `digest` of `multihash::Sha3_256`. The digest is `sha3_256` of the bytes, and always as
/// long as a secret key.
#[verifier::external_body]
fn sha3_256_digest(data: &[u8]) -> (digest: Vec<u8>)
    ensures
        digest@ == sha3_256(data@),
        digest@.len() == SECRET_KEY_BYTES,
{
    multihash::Sha3_256::digest(data).as_ref().to_vec()
}

/// The Ed25519 keypair with the secret key `secret`.
pub uninterp spec fn ed25519_keypair(secret: Seq<u8>) -> Keypair;

/// Calls `libp2p::identity::Keypair::ed25519_from_bytes`, which takes any string of bytes of the
/// right length for a secret key and no other. The keypair is `ed25519_keypair` of the bytes.
#[verifier::external_body]
fn import_secret(secret: Vec<u8>) -> (keypair: Result<Keypair, DecodingError>)
    ensures
        match keypair {
            Ok(keypair) => secret@.len() == SECRET_KEY_BYTES && keypair == ed25519_keypair(secret@),
            Err(_) => secret@.len() != SECRET_KEY_BYTES,
        },
{
    Keypair::ed25519_from_bytes(secret)
}

/// The keypair of a configured secret: of the digest of a seed, or of the secret key itself.
pub open spec fn secret_keypair(secret_key: SecretKey) -> Result<Keypair, KeypairError> {
    match secret_key {
        SecretKey::Seed { seed } => Ok(ed25519_keypair(sha3_256(encode_utf8(seed@)))),
        SecretKey::Key { key } => match hex_decoded(encode_utf8(key@), SECRET_KEY_BYTES as nat) {
            Ok(bytes) => Ok(ed25519_keypair(bytes)),
            Err(error) => Err(KeypairError::KeyDecoding(error)),
        },
    }
}

/// Creates the identity keypair of a local node from its secret.
pub fn keypair(secret_key: &SecretKey) -> (keypair: Result<Keypair, KeypairError>)
    ensures
        keypair == secret_keypair(*secret_key),
        *secret_key matches SecretKey::Seed { seed } ==> {
            &&& sha3_256(encode_utf8(seed@)).len() == SECRET_KEY_BYTES
            &&& forall|key: String|
                hex_spells(encode_utf8(key@), sha3_256(encode_utf8(seed@)))
                    ==> #[trigger] secret_keypair(SecretKey::Key { key }) == keypair
        },
{
    match secret_key {
        // If seed is provided, generate secret key from seed
        SecretKey::Seed { seed } => {
            let seed_digest = sha3_256_digest(seed.as_str().as_bytes());
            proof {
                assert forall|key: String|
                    hex_spells(encode_utf8(key@), sha3_256(encode_utf8(seed@))) implies
                    #[trigger] secret_keypair(SecretKey::Key { key }) == secret_keypair(
                    *secret_key,
                ) by {
                    law_seed_is_as_good_as_its_digest(*seed, key);
                }
            }
            match import_secret(seed_digest) {
                Ok(keypair) => Ok(keypair),
                Err(_) => Err(KeypairError::SeedImport),
            }
        },
        // Import secret key if provided
        SecretKey::Key { key } => match decode_hex(key.as_str()) {
            Ok(decoded_key) => match import_secret(decoded_key) {
                Ok(keypair) => Ok(keypair),
                Err(_) => Err(KeypairError::KeyImport),
            },
            Err(error) => Err(KeypairError::KeyDecoding(error)),
        },
    }
}

/// The number of bytes of an encoded keypair.
pub const KEYPAIR_BYTES: usize = 64;

/// The bytes of a keypair, if it is an Ed25519 keypair, or what is said of one of another kind.
pub uninterp spec fn keypair_encoding(keypair: Keypair) -> Result<Seq<u8>, OtherVariantError>;

/// The keypair that a string of bytes encodes, or what is said of one that encodes none.
pub uninterp spec fn keypair_decoding(bytes: Seq<u8>) -> Result<Keypair, DecodingError>;

/// Calls `libp2p::identity::Keypair::generate_ed25519`. What comes out is random; it is always an
/// Ed25519 keypair.
#[verifier::external_body]
fn generate_keypair() -> (keypair: Keypair)
    ensures
        keypair_encoding(keypair) is Ok,
{
    Keypair::generate_ed25519()
}

/// Calls `libp2p::identity::Keypair::try_into_ed25519` and, on an Ed25519 keypair, its `to_bytes`:
/// the secret key, then the public key. The outcome is `keypair_encoding` of the keypair; the bytes
/// are read back as the same keypair.
#[verifier::external_body]
fn encode_keypair(keypair: &Keypair) -> (bytes: Result<Vec<u8>, OtherVariantError>)
    ensures
        match bytes {
            Ok(bytes) => {
                &&& keypair_encoding(*keypair) == Ok::<Seq<u8>, OtherVariantError>(bytes@)
                &&& keypair_decoding(bytes@) == Ok::<Keypair, DecodingError>(*keypair)
                &&& bytes@.len() == KEYPAIR_BYTES
            },
            Err(error) => keypair_encoding(*keypair) == Err::<Seq<u8>, OtherVariantError>(error),
        },
{
    keypair.clone().try_into_ed25519().map(|keypair| keypair.to_bytes().to_vec())
}

/// Calls `libp2p::identity::ed25519::Keypair::try_from_bytes`. What it makes of a string of bytes
/// is `keypair_decoding` of that string; one of another length than a keypair's is none. A keypair
/// comes out only where the public key in the bytes is that of the secret key in them, so that its
/// encoding is the same string of bytes.
#[verifier::external_body]
fn decode_keypair(bytes: Vec<u8>) -> (keypair: Result<Keypair, DecodingError>)
    ensures
        keypair == keypair_decoding(bytes@),
        keypair is Ok ==> (keypair_encoding(keypair->Ok_0) matches Ok(encoding) && encoding == bytes@),
        bytes@.len() != KEYPAIR_BYTES ==> keypair is Err,
{
    let mut bytes = bytes;
    ed25519::Keypair::try_from_bytes(&mut bytes[..]).map(From::from)
}

/// The numerals of `bytes` with commas between them.
pub open spec fn json_items(bytes: Seq<u8>) -> Seq<char>
    decreases bytes.len(),
{
    if bytes.len() == 0 {
        Seq::empty()
    } else if bytes.len() == 1 {
        decimal(bytes[0] as nat)
    } else {
        json_items(bytes.drop_last()).push(',') + decimal(bytes.last() as nat)
    }
}

/// The JSON text of a string of bytes: an array of numbers.
pub open spec fn json_array(bytes: Seq<u8>) -> Seq<char> {
    seq!['['] + json_items(bytes) + seq![']']
}

/// The string of bytes that a JSON text holds, if it does hold one.
pub uninterp spec fn json_bytes(json: Seq<char>) -> Option<Seq<u8>>;

/// Calls `serde_json::to_string` on a string of bytes, which writes an array of numbers without
/// white space and cannot fail. That text is read back as the same string of bytes.
#[verifier::external_body]
fn encode_json(bytes: &Vec<u8>) -> (json: String)
    ensures
        json@ == json_array(bytes@),
        json_bytes(json@) == Some(bytes@),
{
    serde_json::to_string(bytes).expect("Encoding data for MemoryDB failed")
}

/// Calls `serde_json::from_str` for a string of bytes. What it makes of a text is `json_bytes` of
/// that text.
#[verifier::external_body]
fn decode_json(json: &str) -> (bytes: Result<Vec<u8>, serde_json::Error>)
    ensures
        match bytes {
            Ok(bytes) => json_bytes(json@) == Some(bytes@),
            Err(_) => json_bytes(json@) is None,
        },
{
    serde_json::from_str(json)
}

/// The entries of a database, by their slots.
pub type Entries = Map<Seq<char>, Seq<char>>;

/// The slot of the node's keypair.
pub open spec fn keypair_slot() -> Seq<char> {
    P2PKeypairKey.slot()
}

/// Whether what the database holds under the slot of the keypair, if anything, is a string of
/// bytes.
pub open spec fn entry_readable(entries: Entries) -> bool {
    entries.contains_key(keypair_slot()) ==> json_bytes(entries[keypair_slot()]) is Some
}

/// The keypair that the string of bytes `bytes` in the database stands for.
pub open spec fn stored_keypair(bytes: Seq<u8>) -> Result<Keypair, KeypairError> {
    match keypair_decoding(bytes) {
        Ok(keypair) => Ok(keypair),
        Err(error) => Err(KeypairError::StoredKeypair(error)),
    }
}

/// Whether `bytes` is the encoding of `keypair`, of the length that such an encoding has.
pub open spec fn encodes(bytes: Seq<u8>, keypair: Keypair) -> bool {
    &&& keypair_encoding(keypair) == Ok::<Seq<u8>, OtherVariantError>(bytes)
    &&& bytes.len() == KEYPAIR_BYTES
}

/// The outcome of keeping `keypair` in a database with the entries `before`: the entry is written
/// and can be read back, or the keypair is not of the kind that is kept.
pub open spec fn kept(
    before: Entries,
    keypair: Keypair,
    after: Entries,
    outcome: Result<Keypair, KeypairError>,
) -> bool {
    match keypair_encoding(keypair) {
        Ok(bytes) => {
            &&& outcome == Ok::<Keypair, KeypairError>(keypair)
            &&& after == before.insert(keypair_slot(), json_array(bytes))
            &&& json_bytes(json_array(bytes)) == Some(bytes)
            &&& stored_keypair(bytes) == outcome
            &&& encodes(bytes, keypair)
        },
        Err(error) => {
            &&& outcome == Err::<Keypair, KeypairError>(KeypairError::NotEd25519(error))
            &&& after == before
        },
    }
}

/// The outcome of reading the keypair from the string of bytes `bytes` in the database. A keypair
/// that is read encodes to these bytes again.
pub open spec fn restored(bytes: Seq<u8>, outcome: Result<Keypair, KeypairError>) -> bool {
    &&& outcome == stored_keypair(bytes)
    &&& outcome matches Ok(keypair) ==> encodes(bytes, keypair)
}

/// Where the keypair of a node comes from, and what becomes of the database: a configured secret
/// comes first, then the entry of the database; without either, a new keypair is kept there.
pub open spec fn keypair_outcome(
    secret_key: Option<SecretKey>,
    before: Entries,
    after: Entries,
    outcome: Result<Keypair, KeypairError>,
) -> bool {
    match secret_key {
        Some(secret_key) => outcome == secret_keypair(secret_key) && after == before,
        None => if before.contains_key(keypair_slot()) {
            restored(json_bytes(before[keypair_slot()])->0, outcome) && after == before
        } else {
            &&& outcome is Ok
            &&& kept(before, outcome->Ok_0, after, outcome)
        },
    }
}

/// Keeps the keypair `id_keys` in the database, and hands it back.
pub fn keep_keypair<D: Database>(db: &mut D, id_keys: Keypair) -> (keypair: Result<
    Keypair,
    KeypairError,
>)
    ensures
        kept(old(db).entries(), id_keys, final(db).entries(), keypair),
{
    match encode_keypair(&id_keys) {
        Ok(bytes) => {
            db.put(P2PKeypairKey, encode_json(&bytes));
            Ok(id_keys)
        },
        Err(error) => Err(KeypairError::NotEd25519(error)),
    }
}

/// The keypair of the node: from the configured secret or, without one, from the database, where
/// a new one is kept if there is none.
pub fn get_or_init_keypair<D: Database>(cfg: &LibP2PConfig, db: &mut D) -> (keypair: Result<
    Keypair,
    KeypairError,
>)
    requires
        cfg.secret_key is None ==> entry_readable(old(db).entries()),
    ensures
        keypair_outcome(cfg.secret_key, old(db).entries(), final(db).entries(), keypair),
        cfg.secret_key matches Some(secret_key) ==> keypair == secret_keypair(secret_key),
        cfg.secret_key is Some ==> final(db).entries() == old(db).entries(),
{
    if let Some(secret_key) = cfg.secret_key.as_ref() {
        return keypair(secret_key);
    }
    if let Some(json) = db.get(P2PKeypairKey) {
        let bytes = decode_json(json.as_str()).unwrap();
        return match decode_keypair(bytes) {
            Ok(keypair) => Ok(keypair),
            Err(error) => Err(KeypairError::StoredKeypair(error)),
        };
    }
    let id_keys = generate_keypair();
    keep_keypair(db, id_keys)
}

/// The identifier of the peer with the keypair `keypair`.
pub uninterp spec fn keypair_peer(keypair: Keypair) -> PeerId;

/// Calls `libp2p::identity::Keypair::public` and `libp2p::PeerId::from`. The identifier is
/// `keypair_peer` of the keypair.
#[verifier::external_body]
fn peer_of_keypair(keypair: &Keypair) -> (peer: PeerId)
    ensures
        peer == keypair_peer(*keypair),
{
    PeerId::from(keypair.public())
}

/// The keypair of an identity, or why there is none.
pub open spec fn keypair_of(
    identity: Result<(Keypair, PeerId), KeypairError>,
) -> Result<Keypair, KeypairError> {
    match identity {
        Ok(identity) => Ok(identity.0),
        Err(error) => Err(error),
    }
}

/// The keypair of the node, and the identifier that it gives the node.
pub fn identity<D: Database>(cfg: &LibP2PConfig, db: &mut D) -> (identity: Result<
    (Keypair, PeerId),
    KeypairError,
>)
    requires
        cfg.secret_key is None ==> entry_readable(old(db).entries()),
    ensures
        keypair_outcome(
            cfg.secret_key,
            old(db).entries(),
            final(db).entries(),
            keypair_of(identity),
        ),
        identity matches Ok(identity) ==> identity.1 == keypair_peer(identity.0),
        cfg.secret_key matches Some(secret_key) ==> match secret_keypair(secret_key) {
            Ok(keypair) => identity == Ok::<(Keypair, PeerId), KeypairError>(
                (keypair, keypair_peer(keypair)),
            ),
            Err(error) => identity == Err::<(Keypair, PeerId), KeypairError>(error),
        },
{
    match get_or_init_keypair(cfg, db) {
        Ok(keypair) => {
            let peer_id = peer_of_keypair(&keypair);
            Ok((keypair, peer_id))
        },
        Err(error) => Err(error),
    }
}

/// The identity of the node, or nothing where the keypair would have to come from an entry of the
/// database that cannot be read.
pub fn readable_identity<D: Database>(cfg: &LibP2PConfig, db: &mut D) -> (identity: Option<
    Result<(Keypair, PeerId), KeypairError>,
>)
    ensures
        match identity {
            Some(identity) => {
                &&& cfg.secret_key is Some || entry_readable(old(db).entries())
                &&& keypair_outcome(
                    cfg.secret_key,
                    old(db).entries(),
                    final(db).entries(),
                    keypair_of(identity),
                )
                &&& identity matches Ok(identity) ==> identity.1 == keypair_peer(identity.0)
            },
            None => {
                &&& cfg.secret_key is None
                &&& !entry_readable(old(db).entries())
                &&& final(db).entries() == old(db).entries()
            },
        },
{
    if cfg.secret_key.is_none() {
        if let Some(json) = db.get(P2PKeypairKey) {
            if decode_json(json.as_str()).is_err() {
                return None;
            }
        }
    }
    Some(identity(cfg, db))
}

/// A node keeps its identity: once it has a keypair, it is given the same one again, and the
/// database stays as it is.
pub proof fn law_identity_is_kept(
    secret_key: Option<SecretKey>,
    before: Entries,
    after: Entries,
    outcome: Result<Keypair, KeypairError>,
    later: Entries,
    later_outcome: Result<Keypair, KeypairError>,
)
    requires
        keypair_outcome(secret_key, before, after, outcome),
        keypair_outcome(secret_key, after, later, later_outcome),
    ensures
        later_outcome == outcome,
        later == after,
{
}

/// A node keeps its identity whatever becomes of the other entries: from any later database that
/// holds the same under the slot of the keypair, it is given the same keypair again, and that
/// database stays as it is.
pub proof fn law_identity_outlives_other_entries(
    secret_key: Option<SecretKey>,
    before: Entries,
    after: Entries,
    outcome: Result<Keypair, KeypairError>,
    resumed: Entries,
    later: Entries,
    later_outcome: Result<Keypair, KeypairError>,
)
    requires
        keypair_outcome(secret_key, before, after, outcome),
        resumed.contains_key(keypair_slot()) == after.contains_key(keypair_slot()),
        resumed.contains_key(keypair_slot()) ==> resumed[keypair_slot()] == after[keypair_slot()],
        keypair_outcome(secret_key, resumed, later, later_outcome),
    ensures
        later_outcome == outcome,
        later == resumed,
{
}

/// Getting the identity touches no entry of the database but that of the keypair, and leaves that
/// one readable.
pub proof fn law_other_entries_stay(
    secret_key: Option<SecretKey>,
    before: Entries,
    after: Entries,
    outcome: Result<Keypair, KeypairError>,
    slot: Seq<char>,
)
    requires
        keypair_outcome(secret_key, before, after, outcome),
    ensures
        slot != keypair_slot() ==> after.contains_key(slot) == before.contains_key(slot) && after[slot]
            == before[slot],
        entry_readable(before) ==> entry_readable(after),
{
}

/// Without a configured secret, the keypair of a node encodes to the string of bytes that the
/// database holds for it afterwards, whether it was read from there or kept there.
pub proof fn law_keypair_encodes_to_what_is_stored(
    before: Entries,
    after: Entries,
    keypair: Keypair,
)
    requires
        keypair_outcome(None, before, after, Ok(keypair)),
    ensures
        after.contains_key(keypair_slot()),
        entry_readable(before) ==> json_bytes(after[keypair_slot()]) is Some,
        encodes(json_bytes(after[keypair_slot()])->0, keypair),
{
}

/// A seed always gives a keypair.
pub proof fn law_any_seed_gives_a_keypair(seed: String)
    ensures
        secret_keypair(SecretKey::Seed { seed }) is Ok,
{
}

/// A secret key gives a keypair exactly if it is written in as many hexadecimal digits as two for
/// each byte.
pub proof fn law_secret_key_is_hexadecimal(key: String)
    ensures
        secret_keypair(SecretKey::Key { key }) is Ok <==> {
            &&& encode_utf8(key@).len() == 2 * SECRET_KEY_BYTES
            &&& forall|i: int|
                0 <= i < encode_utf8(key@).len() ==> hex_digit(#[trigger] encode_utf8(key@)[i]) is Some
        },
{
    let text = encode_utf8(key@);
    if exists|i: int| 0 <= i < text.len() && hex_digit(#[trigger] text[i]) is None {
        let i = choose|i: int| 0 <= i < text.len() && hex_digit(#[trigger] text[i]) is None;
        lemma_first_invalid(text, i);
    }
}

/// A text is decoded into a string of bytes exactly if it spells that string.
pub proof fn law_hexadecimal_is_decoded(text: Seq<u8>, bytes: Seq<u8>)
    ensures
        hex_decoded(text, bytes.len()) == Ok::<Seq<u8>, HexError>(bytes) <==> hex_spells(text, bytes),
{
    let n = bytes.len();
    if hex_spells(text, bytes) {
        assert forall|i: int| 0 <= i < text.len() implies hex_digit(#[trigger] text[i]) is Some by {
            let b = bytes[i / 2];
            assert(i == 2 * (i / 2) || i == 2 * (i / 2) + 1);
        }
        assert(!(exists|i: int| first_invalid(text, i)));
        assert(hex_decoded(text, n)->Ok_0 =~= bytes);
    }
    if hex_decoded(text, n) == Ok::<Seq<u8>, HexError>(bytes) {
        assert forall|i: int| 0 <= i < text.len() implies hex_digit(#[trigger] text[i]) is Some by {
            if hex_digit(text[i]) is None {
                lemma_first_invalid(text, i);
            }
        }
        assert forall|i: int| 0 <= i < n implies {
            &&& hex_digit(text[2 * i]) == Some(#[trigger] bytes[i] as int / 16)
            &&& hex_digit(text[2 * i + 1]) == Some(bytes[i] as int % 16)
        } by {
            assert(hex_digit(text[2 * i]) is Some);
            assert(hex_digit(text[2 * i + 1]) is Some);
            assert(bytes[i] == hex_decoded(text, n)->Ok_0[i]);
        }
    }
}

/// The hexadecimal text of a string of bytes spells that string, in upper case and in lower case.
pub proof fn law_hexadecimal_text_spells_its_bytes(bytes: Seq<u8>, upper: bool)
    ensures
        hex_spells(encode_utf8(hex_text(bytes, upper)), bytes),
{
    let text = hex_text(bytes, upper);
    assert(is_ascii_chars(text));
    is_ascii_chars_encode_utf8(text);
    assert forall|i: int| 0 <= i < bytes.len() implies {
        &&& hex_digit(encode_utf8(text)[2 * i]) == Some(#[trigger] bytes[i] as int / 16)
        &&& hex_digit(encode_utf8(text)[2 * i + 1]) == Some(bytes[i] as int % 16)
    } by {
        assert((2 * i) / 2 == i && (2 * i + 1) / 2 == i);
        assert(text[2 * i] == hex_char(bytes[i] as int / 16, upper));
        assert(text[2 * i + 1] == hex_char(bytes[i] as int % 16, upper));
    }
}

/// A seed gives the same keypair as its digest does, written as a secret key in hexadecimal. (That
/// the digest is as long as a secret key, the contract of `keypair` says of every seed.)
pub proof fn law_seed_is_as_good_as_its_digest(seed: String, key: String)
    requires
        sha3_256(encode_utf8(seed@)).len() == SECRET_KEY_BYTES,
        hex_spells(encode_utf8(key@), sha3_256(encode_utf8(seed@))),
    ensures
        secret_keypair(SecretKey::Key { key }) == secret_keypair(SecretKey::Seed { seed }),
{
    law_hexadecimal_is_decoded(encode_utf8(key@), sha3_256(encode_utf8(seed@)));
}

/// Where a text holds a character that is no hexadecimal digit, there is a first one.
proof fn lemma_first_invalid(text: Seq<u8>, i: int)
    requires
        0 <= i < text.len(),
        hex_digit(text[i]) is None,
    ensures
        exists|j: int| first_invalid(text, j),
    decreases i,
{
    if exists|j: int| 0 <= j < i && hex_digit(#[trigger] text[j]) is None {
        let j = choose|j: int| 0 <= j < i && hex_digit(#[trigger] text[j]) is None;
        lemma_first_invalid(text, j);
    } else {
        assert(first_invalid(text, i));
    }
}

/// A seed gives the Ed25519 keypair whose secret key is the SHA3-256 digest of the seed's bytes.
pub proof fn law_seed_gives_the_keypair_of_its_digest(seed: String)
    ensures
        secret_keypair(SecretKey::Seed { seed }) == Ok::<Keypair, KeypairError>(
            ed25519_keypair(sha3_256(encode_utf8(seed@))),
        ),
{
}

/// A secret key in hexadecimal gives the Ed25519 keypair whose secret key is exactly the bytes that
/// its digits spell.
pub proof fn law_secret_key_gives_the_keypair_of_its_bytes(key: String, bytes: Seq<u8>)
    requires
        bytes.len() == 32,
        encode_utf8(key@).len() == 64,
        forall|i: int|
            0 <= i < 32 ==> {
                &&& hex_digit(encode_utf8(key@)[2 * i]) == Some(#[trigger] bytes[i] as int / 16)
                &&& hex_digit(encode_utf8(key@)[2 * i + 1]) == Some(bytes[i] as int % 16)
            },
    ensures
        secret_keypair(SecretKey::Key { key }) == Ok::<Keypair, KeypairError>(
            ed25519_keypair(bytes),
        ),
{
    assert(hex_spells(encode_utf8(key@), bytes));
    law_hexadecimal_is_decoded(encode_utf8(key@), bytes);
}

/// The hexadecimal digits are the ten numerals, and the letters from `a` to `f` in either case.
pub proof fn law_hexadecimal_digits(c: u8)
    ensures
        48 <= c <= 57 ==> hex_digit(c) == Some(c - 48),
        65 <= c <= 70 ==> hex_digit(c) == Some(c - 55),
        97 <= c <= 102 ==> hex_digit(c) == Some(c - 87),
        c < 48 || 57 < c < 65 || 70 < c < 97 || 102 < c ==> hex_digit(c) is None,
{
}

/// A text that spells a string of bytes has two digits for each byte, of which sixteen times the
/// first and the second add up to it.
pub proof fn law_digits_add_up(text: Seq<u8>, bytes: Seq<u8>, i: int)
    requires
        hex_spells(text, bytes),
        0 <= i < bytes.len(),
    ensures
        text.len() == 2 * bytes.len(),
        hex_digit(text[2 * i]) is Some,
        hex_digit(text[2 * i + 1]) is Some,
        16 * hex_digit(text[2 * i])->0 + hex_digit(text[2 * i + 1])->0 == bytes[i],
{
    let b = bytes[i] as int;
    assert(hex_digit(text[2 * i]) == Some(b / 16));
    assert(hex_digit(text[2 * i + 1]) == Some(b % 16));
}

/// A text with two digits for each byte, of which sixteen times the first and the second add up to
/// it, spells the string of bytes.
pub proof fn law_digits_that_add_up_spell(text: Seq<u8>, bytes: Seq<u8>)
    requires
        text.len() == 2 * bytes.len(),
        forall|i: int|
            0 <= i < bytes.len() ==> {
                &&& hex_digit(text[2 * i]) is Some
                &&& hex_digit(text[2 * i + 1]) is Some
                &&& 16 * hex_digit(text[2 * i])->0 + hex_digit(text[2 * i + 1])->0
                    == #[trigger] bytes[i]
            },
    ensures
        hex_spells(text, bytes),
{
    assert forall|i: int| 0 <= i < bytes.len() implies {
        &&& hex_digit(text[2 * i]) == Some(#[trigger] bytes[i] as int / 16)
        &&& hex_digit(text[2 * i + 1]) == Some(bytes[i] as int % 16)
    } by {
        law_hexadecimal_digits(text[2 * i]);
        law_hexadecimal_digits(text[2 * i + 1]);
    }
}

/// A secret key with an odd number of digits, with another number of them than a secret key has, or
/// with a character that is no digit is refused, and what is said of it is which; of a character,
/// the first such one and its position.
pub proof fn law_wrong_secret_keys_are_refused(key: String, i: int)
    ensures
        encode_utf8(key@).len() % 2 == 1 ==> secret_keypair(SecretKey::Key { key }) == Err::<
            Keypair,
            KeypairError,
        >(KeypairError::KeyDecoding(HexError::OddLength)),
        encode_utf8(key@).len() % 2 == 0 && encode_utf8(key@).len() != 64 ==> secret_keypair(
            SecretKey::Key { key },
        ) == Err::<Keypair, KeypairError>(KeypairError::KeyDecoding(HexError::InvalidStringLength)),
        encode_utf8(key@).len() == 64 && 0 <= i < 64 && hex_digit(encode_utf8(key@)[i]) is None && (
        forall|j: int| 0 <= j < i ==> hex_digit(#[trigger] encode_utf8(key@)[j]) is Some)
            ==> secret_keypair(SecretKey::Key { key }) == Err::<Keypair, KeypairError>(
            KeypairError::KeyDecoding(
                HexError::InvalidHexCharacter {
                    c: encode_utf8(key@)[i] as char,
                    index: i as usize,
                },
            ),
        ),
{
    let text = encode_utf8(key@);
    if text.len() == 64 && 0 <= i < 64 && hex_digit(text[i]) is None && (forall|j: int|
        0 <= j < i ==> hex_digit(#[trigger] text[j]) is Some) {
        assert(first_invalid(text, i));
        let f = choose|f: int| first_invalid(text, f);
        assert(first_invalid(text, f));
        if f < i {
            assert(hex_digit(text[f]) is Some);
        }
        if i < f {
            assert(hex_digit(text[i]) is Some);
        }
    }
}

/// A configured secret decides: whatever two databases hold, the outcome is the keypair of that
/// secret or what is wrong with it, and both databases stay as they are.
pub proof fn law_configured_secret_comes_first(
    secret_key: SecretKey,
    before: Entries,
    after: Entries,
    outcome: Result<Keypair, KeypairError>,
    other_before: Entries,
    other_after: Entries,
    other_outcome: Result<Keypair, KeypairError>,
)
    requires
        keypair_outcome(Some(secret_key), before, after, outcome),
        keypair_outcome(Some(secret_key), other_before, other_after, other_outcome),
    ensures
        outcome == secret_keypair(secret_key),
        other_outcome == outcome,
        after == before,
        other_after == other_before,
        secret_key matches SecretKey::Seed { seed } ==> outcome == Ok::<Keypair, KeypairError>(
            ed25519_keypair(sha3_256(encode_utf8(seed@))),
        ),
{
}

/// A configured secret key decides: the outcome is the keypair of exactly the bytes that its digits
/// spell, whatever the database holds.
pub proof fn law_configured_secret_key_comes_first(
    key: String,
    bytes: Seq<u8>,
    before: Entries,
    after: Entries,
    outcome: Result<Keypair, KeypairError>,
)
    requires
        keypair_outcome(Some(SecretKey::Key { key }), before, after, outcome),
        bytes.len() == 32,
        encode_utf8(key@).len() == 64,
        forall|i: int|
            0 <= i < 32 ==> {
                &&& hex_digit(encode_utf8(key@)[2 * i]) == Some(#[trigger] bytes[i] as int / 16)
                &&& hex_digit(encode_utf8(key@)[2 * i + 1]) == Some(bytes[i] as int % 16)
            },
    ensures
        outcome == Ok::<Keypair, KeypairError>(ed25519_keypair(bytes)),
        after == before,
{
    law_secret_key_gives_the_keypair_of_its_bytes(key, bytes);
}

/// Without a configured secret, what the database holds decides: where it holds a string of bytes
/// for the keypair, the outcome is what these bytes are decoded to, and the database stays.
pub proof fn law_stored_keypair_comes_next(
    before: Entries,
    after: Entries,
    outcome: Result<Keypair, KeypairError>,
    bytes: Seq<u8>,
)
    requires
        keypair_outcome(None, before, after, outcome),
        before.contains_key("p2p_keypair"@),
    ensures
        after == before,
        json_bytes(before["p2p_keypair"@]) == Some(bytes) ==> match keypair_decoding(bytes) {
            Ok(keypair) => outcome == Ok::<Keypair, KeypairError>(keypair),
            Err(error) => outcome == Err::<Keypair, KeypairError>(
                KeypairError::StoredKeypair(error),
            ),
        },
{
}

/// Without either, there is always a keypair. The database then holds its encoding and can be read
/// back to it; no other entry has changed.
pub proof fn law_new_keypair_is_kept(
    before: Entries,
    after: Entries,
    outcome: Result<Keypair, KeypairError>,
    slot: Seq<char>,
)
    requires
        keypair_outcome(None, before, after, outcome),
        !before.contains_key("p2p_keypair"@),
    ensures
        outcome is Ok,
        keypair_encoding(outcome->Ok_0) is Ok,
        keypair_encoding(outcome->Ok_0)->Ok_0.len() == 64,
        after.contains_key("p2p_keypair"@),
        after["p2p_keypair"@] == json_array(keypair_encoding(outcome->Ok_0)->Ok_0),
        json_bytes(after["p2p_keypair"@]) == Some(keypair_encoding(outcome->Ok_0)->Ok_0),
        keypair_decoding(keypair_encoding(outcome->Ok_0)->Ok_0) == Ok::<Keypair, DecodingError>(
            outcome->Ok_0,
        ),
        slot != "p2p_keypair"@ ==> after.contains_key(slot) == before.contains_key(slot)
            && after[slot] == before[slot],
{
}

/// Keeping a keypair writes its encoding into the database and hands the same keypair back; one
/// that has no encoding is refused, and nothing is written.
pub proof fn law_kept_keypair_is_written(
    before: Entries,
    keypair: Keypair,
    after: Entries,
    outcome: Result<Keypair, KeypairError>,
)
    requires
        kept(before, keypair, after, outcome),
    ensures
        match keypair_encoding(keypair) {
            Ok(bytes) => {
                &&& outcome == Ok::<Keypair, KeypairError>(keypair)
                &&& after == before.insert("p2p_keypair"@, json_array(bytes))
                &&& json_bytes(json_array(bytes)) == Some(bytes)
                &&& keypair_decoding(bytes) == Ok::<Keypair, DecodingError>(keypair)
                &&& bytes.len() == 64
            },
            Err(error) => {
                &&& outcome == Err::<Keypair, KeypairError>(KeypairError::NotEd25519(error))
                &&& after == before
            },
        },
{
}

/// The entry of the keypair can be read exactly if there is none or it holds a string of bytes.
pub proof fn law_readable_entry(entries: Entries)
    ensures
        entry_readable(entries) <==> (!entries.contains_key("p2p_keypair"@) || json_bytes(
            entries["p2p_keypair"@],
        ) is Some),
{
}

/// The keypair of an identity is the first of the two; without an identity, the error is the same.
pub proof fn law_keypair_of_an_identity(keypair: Keypair, peer: PeerId, error: KeypairError)
    ensures
        keypair_of(Ok((keypair, peer))) == Ok::<Keypair, KeypairError>(keypair),
        keypair_of(Err(error)) == Err::<Keypair, KeypairError>(error),
{
}

/// Errors with a secret are said to be such; errors that come from elsewhere speak for themselves.
pub proof fn law_messages(
    hex: HexError,
    decoding: DecodingError,
    variant: OtherVariantError,
)
    ensures
        KeypairError::SeedImport.text() == Some("error generating secret key from seed"@),
        KeypairError::KeyDecoding(hex).text() == Some("error decoding secret key from config"@),
        KeypairError::KeyImport.text() == Some("error importing secret key"@),
        KeypairError::StoredKeypair(decoding).text() is None,
        KeypairError::NotEd25519(variant).text() is None,
{
}

/// The JSON text of a string of bytes is an opening bracket, the numerals of its bytes in order with
/// commas between them, and a closing bracket.
pub proof fn law_json_array_is_spelled_out(bytes: Seq<u8>, b: u8)
    ensures
        json_array(Seq::<u8>::empty()) == seq!['[', ']'],
        json_array(seq![b]) == seq!['['] + decimal(b as nat) + seq![']'],
        bytes.len() > 0 ==> json_array(bytes.push(b)) == json_array(bytes).drop_last() + seq![',']
            + decimal(b as nat) + seq![']'],
{
    assert(json_array(Seq::<u8>::empty()) =~= seq!['[', ']']);
    assert(json_items(seq![b]) == decimal(b as nat));
    if bytes.len() > 0 {
        assert(bytes.push(b).drop_last() =~= bytes);
        assert(json_array(bytes.push(b)) =~= json_array(bytes).drop_last() + seq![',']
            + decimal(b as nat) + seq![']']);
    }
}

} // verus!
