//! The records of the Kademlia DHT (distributed hash table).

use libp2p::kad::KBucketKey;
use libp2p::{Multiaddr, PeerId};
use std::time::Instant;
use vstd::prelude::*;

verus! {

/// The identifier of a peer, as `libp2p` defines it.
#[verifier::external_type_specification]
#[verifier::external_body]
pub struct ExPeerId(libp2p::PeerId);

/// A point in time of the local, monotonic clock.
#[verifier::external_type_specification]
#[verifier::external_body]
pub struct ExInstant(std::time::Instant);

/// A point of the DHT keyspace together with what it was hashed from, as `libp2p` defines it.
#[verifier::external_type_specification]
#[verifier::external_body]
#[verifier::reject_recursive_types(T)]
pub struct ExKBucketKey<T>(libp2p::kad::KBucketKey<T>);

/// The point of the keyspace that a peer is hashed to.
pub uninterp spec fn peer_key(peer: PeerId) -> KBucketKey<PeerId>;

/// The peer that a point of the keyspace was hashed from.
pub uninterp spec fn preimage(key: KBucketKey<PeerId>) -> PeerId;

/// The distance between the points of the keyspace that a peer and a record key are hashed to: the
/// bitwise exclusive or of the two hashes, read as a number.
pub uninterp spec fn distance(peer: PeerId, key: Seq<u8>) -> nat;

/// Calls `libp2p::kad::KBucketKey::from`. The result is `peer_key` of the peer, and keeps the
/// peer as its preimage.
#[verifier::external_body]
pub(crate) fn key_of_peer(peer: PeerId) -> (key: KBucketKey<PeerId>)
    ensures
        key == peer_key(peer),
        preimage(key) == peer,
{
    KBucketKey::from(peer)
}

/// Calls `libp2p::kad::KBucketKey::preimage`, which hands out the peer that the point was hashed
/// from.
#[verifier::external_body]
pub(crate) fn peer_of_key(key: &KBucketKey<PeerId>) -> (peer: PeerId)
    ensures
        peer == preimage(*key),
{
    *key.preimage()
}

/// Calls the `==` of `libp2p::PeerId`, which compares the bytes of the two identifiers.
#[verifier::external_body]
pub(crate) fn same_peer(peer: &PeerId, other: &PeerId) -> (same: bool)
    ensures
        same == (*peer == *other),
{
    peer == other
}

/// Calls `libp2p::kad::KBucketKey::distance` on the points of two peers and that of a record key,
/// and compares the two distances.
#[verifier::external_body]
pub(crate) fn is_closer(peer: &PeerId, other: &PeerId, key: &Vec<u8>) -> (closer: bool)
    ensures
        closer == (distance(*peer, key@) < distance(*other, key@)),
{
    let target = KBucketKey::from(key.clone());
    KBucketKey::from(*peer).distance(&target) < KBucketKey::from(*other).distance(&target)
}

/// The `clone` of `libp2p::Multiaddr`, which hands out an equal multi-address.
pub assume_specification[ <Multiaddr as Clone>::clone ](address: &Multiaddr) -> (copy: Multiaddr)
    ensures
        copy == *address,
;

/// The (opaque) key of a record: a string of bytes.
#[derive(Debug)]
pub struct DHTRecordKey {
    pub bytes: Vec<u8>,
}

impl View for DHTRecordKey {
    type V = Seq<u8>;

    open spec fn view(&self) -> Seq<u8> {
        self.bytes@
    }
}

impl Clone for DHTRecordKey {
    fn clone(&self) -> (key: Self)
        ensures
            key@ == self@,
    {
        let bytes = self.bytes.clone();
        assert(bytes@ =~= self.bytes@);
        DHTRecordKey { bytes }
    }
}

/// A record stored in the DHT.
#[derive(Debug)]
pub struct Record {
    /// Key of the record.
    pub key: DHTRecordKey,
    /// Value of the record.
    pub value: Vec<u8>,
    /// The (original) publisher of the record.
    pub publisher: Option<PeerId>,
    /// The expiration time as measured by a local, monotonic clock.
    pub expires: Option<Instant>,
}

impl Record {
    /// Whether two records say the same.
    pub open spec fn says_same(&self, other: &Self) -> bool {
        &&& self.key@ == other.key@
        &&& self.value@ == other.value@
        &&& self.publisher == other.publisher
        &&& self.expires == other.expires
    }
}

impl Clone for Record {
    fn clone(&self) -> (record: Self)
        ensures
            record.says_same(self),
    {
        let value = self.value.clone();
        assert(value@ =~= self.value@);
        Record {
            key: self.key.clone(),
            value,
            publisher: self.publisher,
            expires: self.expires,
        }
    }
}

/// A record stored in the DHT whose value is the ID of a peer who can provide the value on
/// demand.
#[derive(Debug)]
pub struct ProviderRecord {
    /// The key whose value is provided by the provider.
    pub key: DHTRecordKey,
    /// The provider of the value for the key.
    pub provider: PeerId,
    /// The expiration time as measured by a local, monotonic clock.
    pub expires: Option<Instant>,
    /// The known addresses that the provider may be listening on.
    pub addresses: Vec<Multiaddr>,
}

impl ProviderRecord {
    /// Whether two provider records say the same.
    pub open spec fn says_same(&self, other: &Self) -> bool {
        &&& self.key@ == other.key@
        &&& self.provider == other.provider
        &&& self.expires == other.expires
        &&& self.addresses@ == other.addresses@
    }
}

impl Clone for ProviderRecord {
    fn clone(&self) -> (record: Self)
        ensures
            record.says_same(self),
    {
        let addresses = self.addresses.clone();
        assert(addresses@ =~= self.addresses@);
        ProviderRecord {
            key: self.key.clone(),
            provider: self.provider,
            expires: self.expires,
            addresses,
        }
    }
}

/// The possible errors of a record store.
#[derive(Debug, Clone, Copy, PartialEq, Eq, Structural)]
pub enum StoreError {
    /// The store is at capacity w.r.t. the total number of stored records.
    MaxRecords,
    /// The store is at capacity w.r.t. the total number of keys with provider records.
    MaxProvidedKeys,
    /// The store cannot store this value because it is too large.
    ValueTooLarge,
}

/// A key is the string of its bytes, all of them.
pub proof fn law_key_is_its_bytes(key: DHTRecordKey)
    ensures
        key@ == key.bytes@,
{
}

/// Records that say the same have the same key, value, publisher and expiration time, and records
/// that have these in common say the same.
pub proof fn law_same_record(record: Record, other: Record)
    ensures
        record.says_same(&other) <==> {
            &&& record.key.bytes@ == other.key.bytes@
            &&& record.value@ == other.value@
            &&& record.publisher == other.publisher
            &&& record.expires == other.expires
        },
{
}

/// Provider records that say the same have the same key, provider, expiration time and addresses,
/// and provider records that have these in common say the same.
pub proof fn law_same_provider_record(record: ProviderRecord, other: ProviderRecord)
    ensures
        record.says_same(&other) <==> {
            &&& record.key.bytes@ == other.key.bytes@
            &&& record.provider == other.provider
            &&& record.expires == other.expires
            &&& record.addresses@ == other.addresses@
        },
{
}

} // verus!
