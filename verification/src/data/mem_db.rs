//! In-memory stores: of the records of the DHT, and of the entries of the client's database.

use super::database::DbMap;
use super::kad::{
    key_of_peer, peer_key, peer_of_key, preimage, DHTRecordKey, ProviderRecord, Record, StoreError,
};
use super::key_map::{lists_values, lookup, KeyMap};
use super::providers::{
    add_outcome, added, law_list_is_written, law_list_of_a_key,
    law_new_provider_is_placed_by_distance, law_provider_lists_are_separate, list_of,
    list_says_same, lists_valid, records_by, with_list, without, ProviderLists, Providers,
    ProvidersConfig,
};
use libp2p::kad::KBucketKey;
use libp2p::PeerId;
use vstd::prelude::*;

verus! {

/// Configuration for a `MemoryStore`.
#[derive(Debug, Clone, Copy)]
pub struct MemoryStoreConfig {
    /// The maximum number of records.
    pub max_records: usize,
    /// The maximum size of record values, in bytes.
    pub max_value_bytes: usize,
    pub providers: ProvidersConfig,
}

impl Default for MemoryStoreConfig {
    // Default values kept in line with libp2p
    fn default() -> (config: Self)
        ensures
            config.max_records == 1024,
            config.max_value_bytes == 65 * 1024,
            config.providers.max_providers_per_key == 20,
            config.providers.max_provided_keys == 1024,
    {
        MemoryStoreConfig {
            max_records: 1024,
            max_value_bytes: 65 * 1024,
            providers: ProvidersConfig::default(),
        }
    }
}

/// In-memory implementation of a `RecordStore`.
pub struct MemoryStore {
    /// The identity of the peer owning the store.
    pub local_key: KBucketKey<PeerId>,
    /// The configuration of the store.
    pub config: MemoryStoreConfig,
    /// The stored (regular) records.
    pub records: KeyMap<Record>,
    /// The stored provider records.
    pub providers: Providers,
}

/// What a put of `record` is answered where a store holds `records`: no value may be larger than
/// `max_value_bytes`, and no new key comes in once there are `max_records` records.
pub open spec fn put_outcome(
    records: Map<Seq<u8>, Record>,
    record: Record,
    config: MemoryStoreConfig,
) -> Result<(), StoreError> {
    if record.value@.len() > config.max_value_bytes {
        Err(StoreError::ValueTooLarge)
    } else if !records.contains_key(record.key@) && records.dom().len() >= config.max_records {
        Err(StoreError::MaxRecords)
    } else {
        Ok(())
    }
}

/// What a store of DHT records holds.
pub struct StoreState {
    /// The record of each key that has one.
    pub records: Map<Seq<u8>, Record>,
    /// The provider records of each key that has any.
    pub providers: ProviderLists,
    /// The limits on the records.
    pub config: MemoryStoreConfig,
    /// The limits on the provider records.
    pub provider_limits: ProvidersConfig,
    /// The peer owning the store.
    pub owner: PeerId,
}

impl StoreState {
    /// What the store holds once a put of `record` has been answered.
    pub open spec fn after_put(self, record: Record) -> StoreState {
        match put_outcome(self.records, record, self.config) {
            Ok(()) => StoreState { records: self.records.insert(record.key@, record), ..self },
            Err(_) => self,
        }
    }

    /// What the store holds once the record with the key `k` has been removed.
    pub open spec fn after_remove(self, k: Seq<u8>) -> StoreState {
        StoreState { records: self.records.remove(k), ..self }
    }

    /// What the store holds once an added provider record has been answered.
    pub open spec fn after_add_provider(self, record: ProviderRecord) -> StoreState {
        match add_outcome(self.providers, record, self.provider_limits) {
            Ok(()) => StoreState {
                providers: with_list(
                    self.providers,
                    record.key@,
                    added(
                        list_of(self.providers, record.key@),
                        record,
                        self.provider_limits.max_providers_per_key as nat,
                    ),
                ),
                ..self
            },
            Err(_) => self,
        }
    }

    /// What the store holds once the record by `provider` has been removed from those of the key
    /// `k`.
    pub open spec fn after_remove_provider(self, k: Seq<u8>, provider: PeerId) -> StoreState {
        StoreState {
            providers: with_list(self.providers, k, without(list_of(self.providers, k), provider)),
            ..self
        }
    }

    /// Whether the records keep to the configuration: there are no more of them than it allows,
    /// and no value is larger than it allows.
    pub open spec fn within_limits(self) -> bool {
        &&& self.records.dom().finite()
        &&& self.records.dom().len() <= self.config.max_records
        &&& forall|k: Seq<u8>| #[trigger]
            self.records.contains_key(k) ==> self.records[k].value@.len()
                <= self.config.max_value_bytes
    }

    /// Whether each record lies under its own key.
    pub open spec fn keyed(self) -> bool {
        forall|k: Seq<u8>| #[trigger]
            self.records.contains_key(k) ==> self.records[k].key@ == k
    }
}

/// A record that was put is what its key gives; every other key gives what it gave before.
pub proof fn law_put_is_read_back(state: StoreState, record: Record, k: Seq<u8>)
    requires
        put_outcome(state.records, record, state.config) is Ok,
    ensures
        lookup(state.after_put(record).records, record.key@) == Some(record),
        k != record.key@ ==> lookup(state.after_put(record).records, k) == lookup(state.records, k),
{
}

/// A removed record is gone; every other key gives what it gave before.
pub proof fn law_removed_record_is_gone(state: StoreState, k: Seq<u8>, other: Seq<u8>)
    ensures
        lookup(state.after_remove(k).records, k) is None,
        other != k ==> lookup(state.after_remove(k).records, other) == lookup(state.records, other),
{
}

/// Removing a record that came in under a new key undoes the put.
pub proof fn law_remove_undoes_put(state: StoreState, record: Record)
    requires
        !state.records.contains_key(record.key@),
    ensures
        state.after_put(record).after_remove(record.key@) == state,
{
    assert(state.after_put(record).after_remove(record.key@).records =~= state.records);
}

/// A key that has a record can always be given another one whose value is not too large, however
/// full the store is.
pub proof fn law_full_store_takes_updates(state: StoreState, record: Record)
    requires
        state.records.contains_key(record.key@),
        record.value@.len() <= state.config.max_value_bytes,
    ensures
        put_outcome(state.records, record, state.config) is Ok,
        state.after_put(record).records.dom() == state.records.dom(),
{
    assert(state.after_put(record).records.dom() =~= state.records.dom());
}

/// A new store keeps to its configuration.
pub proof fn law_new_store_is_within_limits(owner: PeerId, config: MemoryStoreConfig)
    ensures
        empty_store(owner, config).within_limits(),
{
    assert(empty_store(owner, config).records.dom() =~= Set::empty());
}

/// Neither puts nor removals take the records over the limits of the configuration, nor do the
/// changes to provider records.
pub proof fn law_store_stays_within_limits(
    state: StoreState,
    record: Record,
    k: Seq<u8>,
    provider_record: ProviderRecord,
    provider: PeerId,
)
    requires
        state.within_limits(),
    ensures
        state.after_put(record).within_limits(),
        state.after_remove(k).within_limits(),
        state.after_add_provider(provider_record).within_limits(),
        state.after_remove_provider(k, provider).within_limits(),
{
    if state.records.contains_key(record.key@) {
        assert(state.records.insert(record.key@, record).dom() =~= state.records.dom());
    }
}

/// Each stored record lies under its own key: it does so in a new store, and every operation keeps
/// it that way.
pub proof fn law_records_lie_under_their_keys(
    owner: PeerId,
    config: MemoryStoreConfig,
    state: StoreState,
    record: Record,
    k: Seq<u8>,
    provider_record: ProviderRecord,
    provider: PeerId,
)
    ensures
        empty_store(owner, config).keyed(),
        state.keyed() ==> {
            &&& state.after_put(record).keyed()
            &&& state.after_remove(k).keyed()
            &&& state.after_add_provider(provider_record).keyed()
            &&& state.after_remove_provider(k, provider).keyed()
        },
{
}

/// Records that are left of a store lie under their own keys, if their keys have not been changed.
pub proof fn law_retained_records_lie_under_their_keys(before: StoreState, after: StoreState)
    requires
        before.keyed(),
        after.records.dom().subset_of(before.records.dom()),
        forall|k: Seq<u8>| #[trigger]
            after.records.contains_key(k) ==> after.records[k].key@ == before.records[k].key@,
    ensures
        after.keyed(),
{
    assert forall|k: Seq<u8>| #[trigger] after.records.contains_key(k) implies after.records[k].key@
        == k by {
        assert(before.records.contains_key(k));
    }
}

/// Records that are left of a store keep to its configuration, if their values have not grown.
pub proof fn law_retained_records_stay_within_limits(before: StoreState, after: StoreState)
    requires
        before.within_limits(),
        after.config == before.config,
        after.records.dom().subset_of(before.records.dom()),
        forall|k: Seq<u8>| #[trigger]
            after.records.contains_key(k) ==> after.records[k].value@.len()
                <= before.records[k].value@.len(),
    ensures
        after.within_limits(),
{
    vstd::set_lib::lemma_len_subset(after.records.dom(), before.records.dom());
    assert forall|k: Seq<u8>| #[trigger] after.records.contains_key(k) implies after.records[k].value@.len()
        <= after.config.max_value_bytes by {
        assert(before.records.contains_key(k));
    }
}

/// A store of the records of the DHT.
pub trait RecordStore: Sized {
    /// What the store holds.
    spec fn state(&self) -> StoreState;

    /// Gets a record from the store, given its key.
    fn get(&self, k: &DHTRecordKey) -> (record: Option<&Record>)
        ensures
            match record {
                Some(r) => self.state().records.contains_key(k@) && *r == self.state().records[k@],
                None => !self.state().records.contains_key(k@),
            },
    ;

    /// Puts a record into the store.
    fn put(&mut self, r: Record) -> (result: Result<(), StoreError>)
        ensures
            result == put_outcome(old(self).state().records, r, old(self).state().config),
            final(self).state() == old(self).state().after_put(r),
    ;

    /// Removes the record with the given key from the store.
    fn remove(&mut self, k: &DHTRecordKey)
        ensures
            final(self).state() == old(self).state().after_remove(k@),
    ;

    /// The records currently stored, each once, in no particular order.
    fn records(&self) -> (records: Vec<&Record>)
        ensures
            lists_values(records@.map_values(|r: &Record| *r), self.state().records),
    ;

    /// Adds a provider record to the store.
    ///
    /// A key keeps the records of the providers closest to it, as many as the configuration
    /// allows.
    fn add_provider(&mut self, record: ProviderRecord) -> (result: Result<(), StoreError>)
        ensures
            lists_valid(final(self).state().providers, final(self).state().provider_limits),
            result == add_outcome(
                old(self).state().providers,
                record,
                old(self).state().provider_limits,
            ),
            final(self).state() == old(self).state().after_add_provider(record),
    ;

    /// A copy of the stored provider records for the given key, the closest provider first.
    fn providers(&self, key: &DHTRecordKey) -> (copies: Vec<ProviderRecord>)
        ensures
            lists_valid(self.state().providers, self.state().provider_limits),
            copies@.len() == list_of(self.state().providers, key@).len(),
            forall|i: int|
                0 <= i < copies@.len() ==> (#[trigger] copies@[i]).says_same(
                    &list_of(self.state().providers, key@)[i],
                ),
    ;

    /// The stored provider records for which the node owning the store is itself the provider,
    /// each once, in no particular order.
    fn provided(&self) -> (records: Vec<&ProviderRecord>)
        ensures
            lists_values(
                records@.map_values(|r: &ProviderRecord| *r),
                records_by(self.state().providers, self.state().owner),
            ),
    ;

    /// Removes a provider record from the store.
    fn remove_provider(&mut self, key: &DHTRecordKey, provider: &PeerId)
        ensures
            lists_valid(final(self).state().providers, final(self).state().provider_limits),
            final(self).state() == old(self).state().after_remove_provider(key@, *provider),
    ;
}

/// What a new store holds: nothing.
pub open spec fn empty_store(owner: PeerId, config: MemoryStoreConfig) -> StoreState {
    StoreState {
        records: Map::empty(),
        providers: Map::empty(),
        config,
        provider_limits: config.providers,
        owner,
    }
}

impl MemoryStore {
    /// Creates a new `MemoryStore` with a default configuration.
    pub fn new(local_id: PeerId) -> (store: Self)
        ensures
            store.local_key == peer_key(local_id),
            store.config.max_records == 1024,
            store.config.max_value_bytes == 65 * 1024,
            store.config.providers.max_providers_per_key == 20,
            store.config.providers.max_provided_keys == 1024,
            store.state() == empty_store(local_id, store.config),
    {
        Self::with_config(local_id, MemoryStoreConfig::default())
    }

    /// Creates a new `MemoryStore` with the given configuration.
    pub fn with_config(local_id: PeerId, config: MemoryStoreConfig) -> (store: Self)
        ensures
            store.local_key == peer_key(local_id),
            store.config == config,
            store.state() == empty_store(local_id, config),
    {
        MemoryStore {
            local_key: key_of_peer(local_id),
            records: KeyMap::new(),
            providers: Providers::with_config(config.providers),
            config,
        }
    }

    /// Retains the records satisfying a predicate, which may change them.
    pub fn retain<F>(&mut self, f: F)
        where F: FnMut(&DHTRecordKey, &mut Record) -> bool
        requires
            forall|key: &DHTRecordKey, record: &mut Record| #[trigger] f.requires((key, record)),
        ensures
            final(self).local_key == old(self).local_key,
            final(self).state() == (StoreState {
                records: final(self).state().records,
                ..old(self).state()
            }),
            final(self).state().records.dom().subset_of(old(self).state().records.dom()),
            forall|k: Seq<u8>| #[trigger]
                old(self).state().records.contains_key(k) ==> exists|
                    key: DHTRecordKey,
                    record: &mut Record,
                    keep: bool,
                |
                    {
                        &&& key@ == k
                        &&& *record == old(self).state().records[k]
                        &&& #[trigger] f.ensures((&key, record), keep)
                        &&& lookup(final(self).state().records, k) == if keep {
                            Some(*final(record))
                        } else {
                            None
                        }
                    },
    {
        self.records.retain(f);
    }

    /// Gives back what memory the records do not need, and changes no record. How much memory that is
    /// depends on the allocator, so the contract says nothing of it.
    pub fn shrink_hashmap(&mut self)
        ensures
            final(self).local_key == old(self).local_key,
            final(self).state() == old(self).state(),
    {
        self.records.shrink_to_fit();
    }
}

impl Clone for MemoryStore {
    fn clone(&self) -> (copy: Self)
        ensures
            copy.local_key == self.local_key,
            copy.state().config == self.state().config,
            copy.state().provider_limits == self.state().provider_limits,
            copy.state().owner == self.state().owner,
            copy.state().records.dom() == self.state().records.dom(),
            forall|k: Seq<u8>| #[trigger]
                self.state().records.contains_key(k) ==> copy.state().records[k].says_same(
                    &self.state().records[k],
                ),
            copy.state().providers.dom() == self.state().providers.dom(),
            forall|k: Seq<u8>| #[trigger]
                self.state().providers.contains_key(k) ==> list_says_same(
                    copy.state().providers[k],
                    self.state().providers[k],
                ),
    {
        let records = self.records.clone();
        assert forall|k: Seq<u8>| #[trigger] self.records@.contains_key(k) implies records@[k].says_same(
            &self.records@[k],
        ) by {
            assert(cloned::<Record>(self.records@[k], records@[k]));
        }
        MemoryStore {
            local_key: self.local_key,
            config: self.config,
            records,
            providers: self.providers.clone(),
        }
    }
}

impl RecordStore for MemoryStore {
    open spec fn state(&self) -> StoreState {
        StoreState {
            records: self.records@,
            providers: self.providers.stored(),
            config: self.config,
            provider_limits: self.providers.limits(),
            owner: preimage(self.local_key),
        }
    }

    fn get(&self, k: &DHTRecordKey) -> Option<&Record> {
        self.records.get(k)
    }

    fn put(&mut self, r: Record) -> (result: Result<(), StoreError>)
        ensures
            final(self).local_key == old(self).local_key,
    {
        if r.value.len() > self.config.max_value_bytes {
            return Err(StoreError::ValueTooLarge);
        }
        let num_records = self.records.len();
        if self.records.get(&r.key).is_none() && num_records >= self.config.max_records {
            return Err(StoreError::MaxRecords);
        }
        self.records.insert(r.key.clone(), r);
        Ok(())
    }

    fn remove(&mut self, k: &DHTRecordKey)
        ensures
            final(self).local_key == old(self).local_key,
    {
        self.records.remove(k);
    }

    fn records(&self) -> Vec<&Record> {
        self.records.values()
    }

    fn add_provider(&mut self, record: ProviderRecord) -> (result: Result<(), StoreError>)
        ensures
            final(self).local_key == old(self).local_key,
    {
        self.providers.add_provider(record)
    }

    fn providers(&self, key: &DHTRecordKey) -> Vec<ProviderRecord> {
        self.providers.providers(key)
    }

    fn provided(&self) -> Vec<&ProviderRecord> {
        let owner = peer_of_key(&self.local_key);
        self.providers.provided(&owner)
    }

    fn remove_provider(&mut self, key: &DHTRecordKey, provider: &PeerId)
        ensures
            final(self).local_key == old(self).local_key,
    {
        self.providers.remove_provider(key, provider);
    }
}

/// The database of the client and the record store of its node, both in memory.
pub struct MemoryDB {
    pub db_map: DbMap,
    pub libp2p_mem_store: MemoryStore,
}

impl MemoryDB {
    /// Creates an empty database, and an empty record store owned by `local_id`.
    pub fn new(local_id: PeerId) -> (db: Self)
        ensures
            super::database::Database::entries(&db) == Map::<Seq<char>, Seq<char>>::empty(),
            db.libp2p_mem_store.local_key == peer_key(local_id),
            db.state() == empty_store(local_id, db.state().config),
            db.state().config.max_records == 1024,
            db.state().config.max_value_bytes == 65 * 1024,
            db.state().config.providers.max_providers_per_key == 20,
            db.state().config.providers.max_provided_keys == 1024,
    {
        MemoryDB { db_map: DbMap::new(), libp2p_mem_store: MemoryStore::new(local_id) }
    }
}

impl RecordStore for MemoryDB {
    open spec fn state(&self) -> StoreState {
        self.libp2p_mem_store.state()
    }

    fn get(&self, k: &DHTRecordKey) -> Option<&Record> {
        self.libp2p_mem_store.get(k)
    }

    fn put(&mut self, r: Record) -> (result: Result<(), StoreError>)
        ensures
            final(self).db_map == old(self).db_map,
            final(self).libp2p_mem_store.local_key == old(self).libp2p_mem_store.local_key,
    {
        self.libp2p_mem_store.put(r)
    }

    fn remove(&mut self, k: &DHTRecordKey)
        ensures
            final(self).db_map == old(self).db_map,
            final(self).libp2p_mem_store.local_key == old(self).libp2p_mem_store.local_key,
    {
        self.libp2p_mem_store.remove(k);
    }

    fn records(&self) -> Vec<&Record> {
        self.libp2p_mem_store.records()
    }

    fn add_provider(&mut self, record: ProviderRecord) -> (result: Result<(), StoreError>)
        ensures
            final(self).db_map == old(self).db_map,
            final(self).libp2p_mem_store.local_key == old(self).libp2p_mem_store.local_key,
    {
        self.libp2p_mem_store.add_provider(record)
    }

    fn providers(&self, key: &DHTRecordKey) -> Vec<ProviderRecord> {
        self.libp2p_mem_store.providers(key)
    }

    fn provided(&self) -> Vec<&ProviderRecord> {
        self.libp2p_mem_store.provided()
    }

    fn remove_provider(&mut self, key: &DHTRecordKey, provider: &PeerId)
        ensures
            final(self).db_map == old(self).db_map,
            final(self).libp2p_mem_store.local_key == old(self).libp2p_mem_store.local_key,
    {
        self.libp2p_mem_store.remove_provider(key, provider);
    }
}

/// A value that is no larger than allowed is taken if its key has a record already or there are
/// fewer records than allowed. A larger one is answered that it is too large, and no other is; where
/// neither holds of a value that is not too large, the answer is that there are too many records.
pub proof fn law_put_is_answered_by_size_and_room(
    records: Map<Seq<u8>, Record>,
    record: Record,
    config: MemoryStoreConfig,
)
    ensures
        put_outcome(records, record, config) == Ok::<(), StoreError>(()) <==> {
            &&& record.value@.len() <= config.max_value_bytes
            &&& records.contains_key(record.key.bytes@) || records.dom().len() < config.max_records
        },
        put_outcome(records, record, config) == Err::<(), StoreError>(StoreError::ValueTooLarge)
            <==> record.value@.len() > config.max_value_bytes,
        put_outcome(records, record, config) == Err::<(), StoreError>(StoreError::MaxRecords) <==> {
            &&& record.value@.len() <= config.max_value_bytes
            &&& !records.contains_key(record.key.bytes@)
            &&& records.dom().len() >= config.max_records
        },
{
}

/// A new record is taken if its value is no larger than allowed and there is room for one more; it
/// is then what its key gives, and nothing else in the store has changed.
pub proof fn law_new_record_is_taken(state: StoreState, record: Record)
    requires
        record.value@.len() <= state.config.max_value_bytes,
        !state.records.contains_key(record.key.bytes@),
        state.records.dom().finite(),
        state.records.dom().len() < state.config.max_records,
    ensures
        put_outcome(state.records, record, state.config) == Ok::<(), StoreError>(()),
        state.after_put(record).records.contains_key(record.key.bytes@),
        state.after_put(record).records[record.key.bytes@] == record,
        state.after_put(record).records.dom().len() == state.records.dom().len() + 1,
        forall|k: Seq<u8>|
            k != record.key.bytes@ ==> (#[trigger] state.after_put(record).records.contains_key(k)
                <==> state.records.contains_key(k)),
        forall|k: Seq<u8>| #[trigger]
            state.records.contains_key(k) ==> state.after_put(record).records[k]
                == state.records[k],
{
    assert(state.after_put(record).records.dom() =~= state.records.dom().insert(record.key@));
}

/// A record for a key that has one takes the place of the one that was there, whole, and changes
/// no other; the number of records stays.
pub proof fn law_record_is_replaced(state: StoreState, record: Record)
    requires
        record.value@.len() <= state.config.max_value_bytes,
        state.records.contains_key(record.key.bytes@),
    ensures
        put_outcome(state.records, record, state.config) == Ok::<(), StoreError>(()),
        state.after_put(record).records.dom() == state.records.dom(),
        state.after_put(record).records[record.key.bytes@] == record,
        forall|k: Seq<u8>| #[trigger]
            state.records.contains_key(k) && k != record.key.bytes@ ==> state.after_put(
                record,
            ).records[k] == state.records[k],
{
    assert(state.after_put(record).records.dom() =~= state.records.dom());
}

/// A record whose value is too large, and a new one for which there is no room, leave the store as
/// it is.
pub proof fn law_refused_put_changes_nothing(state: StoreState, record: Record)
    requires
        record.value@.len() > state.config.max_value_bytes || (!state.records.contains_key(
            record.key.bytes@,
        ) && state.records.dom().len() >= state.config.max_records),
    ensures
        state.after_put(record) == state,
        put_outcome(state.records, record, state.config) is Err,
{
}

/// What is taken is taken with a smaller value too, and where more and larger values are allowed.
pub proof fn law_smaller_values_are_taken(
    records: Map<Seq<u8>, Record>,
    record: Record,
    smaller: Record,
    config: MemoryStoreConfig,
    larger: MemoryStoreConfig,
)
    requires
        put_outcome(records, record, config) is Ok,
        smaller.key.bytes@ == record.key.bytes@,
        smaller.value@.len() <= record.value@.len(),
        config.max_value_bytes <= larger.max_value_bytes,
        config.max_records <= larger.max_records,
    ensures
        put_outcome(records, smaller, config) is Ok,
        put_outcome(records, smaller, larger) is Ok,
{
}

/// Neither puts nor removals touch the provider records, the limits or the owner of a store; changes
/// to provider records touch neither its records nor the limits or the owner.
pub proof fn law_records_and_provider_records_are_apart(
    state: StoreState,
    record: Record,
    k: Seq<u8>,
    provider_record: ProviderRecord,
    provider: PeerId,
)
    ensures
        state.after_put(record).providers == state.providers,
        state.after_put(record).config == state.config,
        state.after_put(record).provider_limits == state.provider_limits,
        state.after_put(record).owner == state.owner,
        state.after_remove(k).providers == state.providers,
        state.after_remove(k).config == state.config,
        state.after_remove(k).provider_limits == state.provider_limits,
        state.after_remove(k).owner == state.owner,
        state.after_add_provider(provider_record).records == state.records,
        state.after_add_provider(provider_record).config == state.config,
        state.after_add_provider(provider_record).provider_limits == state.provider_limits,
        state.after_add_provider(provider_record).owner == state.owner,
        state.after_remove_provider(k, provider).records == state.records,
        state.after_remove_provider(k, provider).config == state.config,
        state.after_remove_provider(k, provider).provider_limits == state.provider_limits,
        state.after_remove_provider(k, provider).owner == state.owner,
{
}

/// Removing takes out the record of the key and no other.
pub proof fn law_only_the_named_record_is_removed(state: StoreState, k: Seq<u8>, other: Seq<u8>)
    ensures
        !state.after_remove(k).records.contains_key(k),
        other != k ==> (state.after_remove(k).records.contains_key(other)
            <==> state.records.contains_key(other)),
        other != k && state.records.contains_key(other) ==> state.after_remove(k).records[other]
            == state.records[other],
{
}

/// A provider record is refused only where its key has none and there is no room for another key,
/// and then changes nothing. Otherwise it changes the list of its key, and no other.
pub proof fn law_provider_record_goes_to_its_key(
    state: StoreState,
    record: ProviderRecord,
    other: Seq<u8>,
)
    ensures
        !state.providers.contains_key(record.key.bytes@) && state.providers.dom().len()
            >= state.provider_limits.max_provided_keys ==> state.after_add_provider(record) == state,
        state.providers.contains_key(record.key.bytes@) || state.providers.dom().len()
            < state.provider_limits.max_provided_keys ==> list_of(
            state.after_add_provider(record).providers,
            record.key.bytes@,
        ) == added(
            list_of(state.providers, record.key.bytes@),
            record,
            state.provider_limits.max_providers_per_key as nat,
        ),
        other != record.key.bytes@ ==> list_of(state.after_add_provider(record).providers, other)
            == list_of(state.providers, other),
        other != record.key.bytes@ ==> (state.after_add_provider(record).providers.contains_key(
            other,
        ) <==> state.providers.contains_key(other)),
{
    let list = added(
        list_of(state.providers, record.key@),
        record,
        state.provider_limits.max_providers_per_key as nat,
    );
    law_list_is_written(state.providers, record.key@, list, other);
    law_provider_lists_are_separate(state.providers, record.key@, list, other);
}

/// The first provider of a key is listed for it, where the configuration leaves room for the key and
/// for a provider.
pub proof fn law_first_provider_is_listed(state: StoreState, record: ProviderRecord)
    requires
        !state.providers.contains_key(record.key.bytes@),
        state.providers.dom().len() < state.provider_limits.max_provided_keys,
        state.provider_limits.max_providers_per_key > 0,
    ensures
        state.after_add_provider(record).providers.contains_key(record.key.bytes@),
        state.after_add_provider(record).providers[record.key.bytes@] == seq![record],
{
    let none = list_of(state.providers, record.key@);
    let max = state.provider_limits.max_providers_per_key as nat;
    law_list_of_a_key(state.providers, record.key@);
    law_new_provider_is_placed_by_distance(none, record, max, 0);
    assert(added(none, record, max) =~= seq![record]);
    law_list_is_written(state.providers, record.key@, seq![record], record.key@);
}

/// Removing a provider from a key removes its record from the list of that key and from no other.
pub proof fn law_provider_is_removed_from_its_key(
    state: StoreState,
    k: Seq<u8>,
    provider: PeerId,
    other: Seq<u8>,
)
    ensures
        list_of(state.after_remove_provider(k, provider).providers, k) == without(
            list_of(state.providers, k),
            provider,
        ),
        other != k ==> list_of(state.after_remove_provider(k, provider).providers, other)
            == list_of(state.providers, other),
        other != k ==> (state.after_remove_provider(k, provider).providers.contains_key(other)
            <==> state.providers.contains_key(other)),
{
    let list = without(list_of(state.providers, k), provider);
    law_list_is_written(state.providers, k, list, other);
    law_provider_lists_are_separate(state.providers, k, list, other);
}

/// A new store holds no records and no provider records, and has the limits and the owner it was
/// given.
pub proof fn law_new_store_is_empty(owner: PeerId, config: MemoryStoreConfig, k: Seq<u8>)
    ensures
        !empty_store(owner, config).records.contains_key(k),
        !empty_store(owner, config).providers.contains_key(k),
        empty_store(owner, config).config == config,
        empty_store(owner, config).provider_limits == config.providers,
        empty_store(owner, config).owner == owner,
{
}

/// What a store holds is what its parts hold, and what a database holds of records is what its store
/// holds.
pub proof fn law_state_is_that_of_the_parts(store: MemoryStore, db: MemoryDB)
    ensures
        store.state().records == store.records@,
        store.state().providers == store.providers.stored(),
        store.state().config == store.config,
        store.state().provider_limits == store.providers.limits(),
        store.state().owner == preimage(store.local_key),
        db.state() == db.libp2p_mem_store.state(),
        super::database::Database::entries(&db) == super::database::Database::entries(&db.db_map),
{
}

} // verus!
