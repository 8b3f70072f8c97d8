//! The provider records of a store: for each key, the peers closest to it that provide its value.

use super::kad::{distance, is_closer, same_peer, DHTRecordKey, ProviderRecord, StoreError};
use super::key_map::{lists_entries, lists_values, KeyMap};
use libp2p::PeerId;
use vstd::prelude::*;

verus! {

/// Configuration for `Providers`.
#[derive(Debug, Clone, Copy)]
pub struct ProvidersConfig {
    /// The maximum number of providers stored for a key.
    ///
    /// This should match up with the chosen replication factor.
    pub max_providers_per_key: usize,
    /// The maximum number of keys with provider records.
    pub max_provided_keys: usize,
}

impl Default for ProvidersConfig {
    fn default() -> (config: Self)
        ensures
            config.max_providers_per_key == 20,
            config.max_provided_keys == 1024,
    {
        ProvidersConfig { max_providers_per_key: 20, max_provided_keys: 1024 }
    }
}

/// The provider records of a store.
pub struct Providers {
    config: ProvidersConfig,
    lists: KeyMap<Vec<ProviderRecord>>,
}

/// The provider records of each key that has any.
pub type ProviderLists = Map<Seq<u8>, Seq<ProviderRecord>>;

/// The provider records of the key `k`.
pub open spec fn list_of(lists: ProviderLists, k: Seq<u8>) -> Seq<ProviderRecord> {
    if lists.contains_key(k) {
        lists[k]
    } else {
        Seq::empty()
    }
}

/// `lists` with `list` as the provider records of the key `k`.
pub open spec fn with_list(
    lists: ProviderLists,
    k: Seq<u8>,
    list: Seq<ProviderRecord>,
) -> ProviderLists {
    if list.len() == 0 {
        lists.remove(k)
    } else {
        lists.insert(k, list)
    }
}

/// Whether the record at the position `i` of `list` is the one by `provider`.
pub open spec fn is_by(list: Seq<ProviderRecord>, i: int, provider: PeerId) -> bool {
    0 <= i < list.len() && list[i].provider == provider
}

/// Whether `list` holds a record by `provider`.
pub open spec fn has_provider(list: Seq<ProviderRecord>, provider: PeerId) -> bool {
    exists|i: int| #[trigger] is_by(list, i, provider)
}

/// The position of the record by `provider` in `list`.
pub open spec fn position_of(list: Seq<ProviderRecord>, provider: PeerId) -> int {
    choose|i: int| #[trigger] is_by(list, i, provider)
}

/// The number of records at the front of `list` whose providers are no farther from the key `k`
/// than `provider` is.
pub open spec fn rank(list: Seq<ProviderRecord>, provider: PeerId, k: Seq<u8>) -> nat
    decreases list.len(),
{
    if list.len() == 0 || distance(provider, k) < distance(list[0].provider, k) {
        0
    } else {
        1 + rank(list.drop_first(), provider, k)
    }
}

/// `list` once `record` has been added: in the place of the record by the same provider, if there
/// is one; else before the records whose providers are farther from the key. Where that makes more
/// than `max` records, the last one leaves.
pub open spec fn added(
    list: Seq<ProviderRecord>,
    record: ProviderRecord,
    max: nat,
) -> Seq<ProviderRecord> {
    if has_provider(list, record.provider) {
        list.update(position_of(list, record.provider), record)
    } else {
        let longer = list.insert(rank(list, record.provider, record.key@) as int, record);
        if longer.len() > max {
            longer.take(max as int)
        } else {
            longer
        }
    }
}

/// `list` without the record by `provider`.
pub open spec fn without(list: Seq<ProviderRecord>, provider: PeerId) -> Seq<ProviderRecord> {
    if has_provider(list, provider) {
        list.remove(position_of(list, provider))
    } else {
        list
    }
}

/// Whether `list` can stand under the key `k`: one to `max` records of that key, each by another
/// provider, and none before one whose provider is closer to the key.
pub open spec fn list_valid(list: Seq<ProviderRecord>, k: Seq<u8>, max: nat) -> bool {
    &&& 0 < list.len() <= max
    &&& forall|i: int| 0 <= i < list.len() ==> (#[trigger] list[i]).key@ == k
    &&& forall|i: int, j: int|
        0 <= i < j < list.len() ==> (#[trigger] list[i]).provider != (#[trigger] list[j]).provider
    &&& forall|i: int, j: int|
        0 <= i < j < list.len() ==> distance((#[trigger] list[i]).provider, k) <= distance(
            (#[trigger] list[j]).provider,
            k,
        )
}

proof fn lemma_rank(list: Seq<ProviderRecord>, provider: PeerId, k: Seq<u8>, n: int)
    requires
        0 <= n <= list.len(),
        forall|i: int|
            0 <= i < n ==> distance((#[trigger] list[i]).provider, k) <= distance(provider, k),
        n < list.len() ==> distance(provider, k) < distance(list[n].provider, k),
    ensures
        rank(list, provider, k) == n,
    decreases n,
{
    if n > 0 {
        assert(list[0].provider == list[0].provider);
        assert forall|i: int| 0 <= i < n - 1 implies distance(
            (#[trigger] list.drop_first()[i]).provider,
            k,
        ) <= distance(provider, k) by {
            assert(list.drop_first()[i] == list[i + 1]);
        }
        lemma_rank(list.drop_first(), provider, k, n - 1);
    }
}

impl Clone for Providers {
    fn clone(&self) -> (copy: Self)
        ensures
            copy.limits() == self.limits(),
            copy.stored().dom() == self.stored().dom(),
            forall|k: Seq<u8>| #[trigger]
                self.stored().contains_key(k) ==> list_says_same(copy.stored()[k], self.stored()[k]),
    {
        proof {
            use_type_invariant(self);
        }
        let lists = self.lists.clone();
        proof {
            assert forall|k: Seq<u8>| #[trigger] self.lists@.contains_key(k) implies list_says_same(
                lists@[k]@,
                self.lists@[k]@,
            ) by {
                let from = self.lists@[k];
                let to = lists@[k];
                assert(cloned::<Vec<ProviderRecord>>(from, to));
                assert forall|i: int| 0 <= i < from@.len() implies (#[trigger] to@[i]).says_same(
                    &from@[i],
                ) by {
                    assert(cloned::<ProviderRecord>(from@[i], to@[i]));
                }
            }
        }
        let copy = Providers { config: self.config, lists };
        assert(copy.stored().dom() =~= self.stored().dom());
        copy
    }
}

/// Whether two lists of provider records say the same, position by position.
pub open spec fn list_says_same(list: Seq<ProviderRecord>, other: Seq<ProviderRecord>) -> bool {
    &&& list.len() == other.len()
    &&& forall|i: int| 0 <= i < list.len() ==> (#[trigger] list[i]).says_same(&other[i])
}

impl Providers {
    /// The configuration.
    pub closed spec fn limits(&self) -> ProvidersConfig {
        self.config
    }

    /// The provider records of each key that has any.
    pub closed spec fn stored(&self) -> ProviderLists {
        self.lists@.map_values(|list: Vec<ProviderRecord>| list@)
    }

    #[verifier::type_invariant]
    spec fn well_formed(&self) -> bool {
        &&& self.lists@.dom().finite()
        &&& self.lists@.dom().len() <= self.config.max_provided_keys
        &&& forall|k: Seq<u8>| #[trigger]
            self.lists@.contains_key(k) ==> list_valid(
                self.lists@[k]@,
                k,
                self.config.max_providers_per_key as nat,
            )
    }

    /// A store of provider records with none in it.
    pub fn with_config(config: ProvidersConfig) -> (providers: Self)
        ensures
            providers.limits() == config,
            providers.stored() == Map::<Seq<u8>, Seq<ProviderRecord>>::empty(),
    {
        let providers = Providers { config, lists: KeyMap::new() };
        assert(providers.stored() =~= Map::<Seq<u8>, Seq<ProviderRecord>>::empty());
        providers
    }

    /// The provider records of a valid store, as its invariant has them.
    proof fn lemma_stored(&self)
        requires
            self.well_formed(),
        ensures
            lists_valid(self.stored(), self.limits()),
            self.stored().dom() == self.lists@.dom(),
    {
        assert(self.stored().dom() =~= self.lists@.dom());
    }

    /// Adds a provider record, if its key has some already or there is room for one more key.
    ///
    /// A key keeps the records of the providers closest to it, as many as the configuration
    /// allows.
    pub fn add_provider(&mut self, record: ProviderRecord) -> (result: Result<(), StoreError>)
        ensures
            final(self).limits() == old(self).limits(),
            lists_valid(final(self).stored(), final(self).limits()),
            result == add_outcome(old(self).stored(), record, old(self).limits()),
            final(self).stored() == match result {
                Ok(()) => with_list(
                    old(self).stored(),
                    record.key@,
                    added(
                        list_of(old(self).stored(), record.key@),
                        record,
                        old(self).limits().max_providers_per_key as nat,
                    ),
                ),
                Err(_) => old(self).stored(),
            },
    {
        proof {
            use_type_invariant(&*self);
            self.lemma_stored();
        }
        let config = self.config;
        let ghost before = self.lists@;
        let ghost k = record.key@;
        let num_keys = self.lists.len();
        let known = self.lists.get(&record.key).is_some();
        if !known && num_keys >= config.max_provided_keys {
            return Err(StoreError::MaxProvidedKeys);
        }
        let mut taken: Providers = Providers::with_config(config);
        std::mem::swap(&mut taken, self);
        let Providers { config: _, mut lists } = taken;
        let key = record.key.clone();
        let mut list: Vec<ProviderRecord> = match lists.remove(&key) {
            Some(list) => list,
            None => Vec::new(),
        };
        let ghost old_list = list@;
        add_to_list(&mut list, record, config.max_providers_per_key);
        if list.len() > 0 {
            lists.insert(key, list);
        }
        proof {
            assert(lists@.dom() =~= if list@.len() > 0 {
                before.dom().insert(k)
            } else {
                before.dom().remove(k)
            });
        }
        *self = Providers { config, lists };
        proof {
            self.lemma_stored();
            assert(self.stored() =~= with_list(
                old(self).stored(),
                k,
                added(old_list, record, config.max_providers_per_key as nat),
            ));
        }
        Ok(())
    }

    /// A copy of the provider records of `key`, the closest provider first.
    pub fn providers(&self, key: &DHTRecordKey) -> (copies: Vec<ProviderRecord>)
        ensures
            lists_valid(self.stored(), self.limits()),
            copies@.len() == list_of(self.stored(), key@).len(),
            forall|i: int|
                0 <= i < copies@.len() ==> (#[trigger] copies@[i]).says_same(
                    &list_of(self.stored(), key@)[i],
                ),
    {
        proof {
            use_type_invariant(self);
            self.lemma_stored();
        }
        let mut copies: Vec<ProviderRecord> = Vec::new();
        if let Some(list) = self.lists.get(key) {
            for i in 0..list.len()
                invariant
                    copies@.len() == i,
                    forall|j: int| 0 <= j < i ==> (#[trigger] copies@[j]).says_same(&list@[j]),
            {
                copies.push(list[i].clone());
            }
        }
        copies
    }

    /// Removes the record by `provider` from those of `key`.
    pub fn remove_provider(&mut self, key: &DHTRecordKey, provider: &PeerId)
        ensures
            final(self).limits() == old(self).limits(),
            lists_valid(final(self).stored(), final(self).limits()),
            final(self).stored() == with_list(
                old(self).stored(),
                key@,
                without(list_of(old(self).stored(), key@), *provider),
            ),
    {
        proof {
            use_type_invariant(&*self);
            self.lemma_stored();
        }
        let config = self.config;
        let ghost before = self.lists@;
        let mut taken: Providers = Providers::with_config(config);
        std::mem::swap(&mut taken, self);
        let Providers { config: _, mut lists } = taken;
        let mut list: Vec<ProviderRecord> = match lists.remove(key) {
            Some(list) => list,
            None => Vec::new(),
        };
        let ghost old_list = list@;
        if let Some(i) = find(&list, provider) {
            assert(is_by(old_list, position_of(old_list, *provider), *provider));
            list.remove(i);
        }
        if list.len() > 0 {
            lists.insert(key.clone(), list);
        }
        proof {
            assert(lists@.dom() =~= if list@.len() > 0 {
                before.dom().insert(key@)
            } else {
                before.dom().remove(key@)
            });
        }
        *self = Providers { config, lists };
        proof {
            self.lemma_stored();
            assert(self.stored() =~= with_list(
                old(self).stored(),
                key@,
                without(old_list, *provider),
            ));
        }
    }

    /// The provider records by `peer`, each once, in no particular order.
    pub fn provided(&self, peer: &PeerId) -> (listed: Vec<&ProviderRecord>)
        ensures
            lists_values(listed@.map_values(|r: &ProviderRecord| *r), records_by(self.stored(), *peer)),
    {
        proof {
            use_type_invariant(self);
        }
        let lists = self.lists.values();
        let ghost all = lists@.map_values(|l: &Vec<ProviderRecord>| *l);
        let ghost keys = choose|keys: Seq<Seq<u8>>| lists_entries(keys, all, self.lists@);
        let mut listed: Vec<&ProviderRecord> = Vec::new();
        let ghost mut found: Seq<Seq<u8>> = Seq::empty();
        for n in 0..lists.len()
            invariant
                self.well_formed(),
                all == lists@.map_values(|l: &Vec<ProviderRecord>| *l),
                lists_entries(keys, all, self.lists@),
                found.len() == listed@.len(),
                found.no_duplicates(),
                forall|j: int|
                    0 <= j < found.len() ==> {
                        &&& keys.take(n as int).contains(#[trigger] found[j])
                        &&& has_provider(self.lists@[found[j]]@, *peer)
                        &&& *listed@[j] == record_by(self.lists@[found[j]]@, *peer)
                    },
                forall|m: int|
                    0 <= m < n && has_provider(self.lists@[#[trigger] keys[m]]@, *peer)
                        ==> found.contains(keys[m]),
        {
            let list = lists[n];
            let ghost k = keys[n as int];
            let ghost before = found;
            assert(all[n as int] == *list);
            assert(self.lists@[k] == *list);
            assert(keys.contains(k) && self.lists@.contains_key(k));
            assert(!found.contains(k)) by {
                if found.contains(k) {
                    let j = found.index_of(k);
                    assert(keys.take(n as int).contains(found[j]));
                    let m = keys.take(n as int).index_of(k);
                    assert(keys[m] == keys[n as int]);
                }
            }
            if let Some(i) = find(list, peer) {
                listed.push(&list[i]);
                proof {
                    found = found.push(k);
                    assert(has_provider(list@, *peer));
                    assert(is_by(list@, position_of(list@, *peer), *peer));
                    assert(position_of(list@, *peer) == i);
                    assert(found[before.len() as int] == k);
                }
            }
            assert forall|j: int| 0 <= j < found.len() implies keys.take(n + 1).contains(
                #[trigger] found[j],
            ) by {
                if j < before.len() {
                    assert(keys.take(n as int).contains(before[j]));
                    let m = keys.take(n as int).index_of(before[j]);
                    assert(keys.take(n + 1)[m] == before[j]);
                } else {
                    assert(keys.take(n + 1)[n as int] == k);
                }
            }
            assert forall|m: int|
                0 <= m < n + 1 && has_provider(
                    self.lists@[#[trigger] keys[m]]@,
                    *peer,
                ) implies found.contains(keys[m]) by {
                if m < n {
                    assert(before.contains(keys[m]));
                    assert(found[before.index_of(keys[m])] == keys[m]);
                } else {
                    assert(found.last() == k);
                }
            }
        }
        proof {
            let values = listed@.map_values(|r: &ProviderRecord| *r);
            let map = records_by(self.stored(), *peer);
            assert(keys.take(lists@.len() as int) =~= keys);
            assert forall|k: Seq<u8>| #[trigger] map.contains_key(k) <==> found.contains(k) by {
                if map.contains_key(k) {
                    assert(self.lists@.contains_key(k));
                    assert(keys.contains(k));
                    assert(keys[keys.index_of(k)] == k);
                }
                if found.contains(k) {
                    assert(keys.contains(found[found.index_of(k)]));
                    assert(self.lists@.contains_key(k));
                }
            }
            assert(lists_entries(found, values, map));
        }
        listed
    }
}

/// The record by `provider` in `list`.
pub open spec fn record_by(list: Seq<ProviderRecord>, provider: PeerId) -> ProviderRecord {
    list[position_of(list, provider)]
}

/// The record by `provider` of each key that has one.
pub open spec fn records_by(lists: ProviderLists, provider: PeerId) -> Map<Seq<u8>, ProviderRecord> {
    Map::new(
        |k: Seq<u8>| lists.contains_key(k) && has_provider(lists[k], provider),
        |k: Seq<u8>| record_by(lists[k], provider),
    )
}

/// Whether the provider records of a store are as they are to be under the configuration `config`:
/// at most as many keys as it allows, each with a list that can stand under it.
pub open spec fn lists_valid(lists: ProviderLists, config: ProvidersConfig) -> bool {
    &&& lists.dom().finite()
    &&& lists.dom().len() <= config.max_provided_keys
    &&& forall|k: Seq<u8>| #[trigger]
        lists.contains_key(k) ==> list_valid(lists[k], k, config.max_providers_per_key as nat)
}

/// Whether a provider record is taken in: there is a list for its key, or room for one more.
pub open spec fn add_outcome(
    lists: ProviderLists,
    record: ProviderRecord,
    config: ProvidersConfig,
) -> Result<(), StoreError> {
    if lists.contains_key(record.key@) || lists.dom().len() < config.max_provided_keys {
        Ok(())
    } else {
        Err(StoreError::MaxProvidedKeys)
    }
}

/// The position of the record by `provider` in `list`, if there is one.
fn find(list: &Vec<ProviderRecord>, provider: &PeerId) -> (position: Option<usize>)
    ensures
        match position {
            Some(i) => is_by(list@, i as int, *provider),
            None => !has_provider(list@, *provider),
        },
{
    for i in 0..list.len()
        invariant
            forall|j: int| 0 <= j < i ==> !#[trigger] is_by(list@, j, *provider),
    {
        if same_peer(&list[i].provider, provider) {
            assert(is_by(list@, i as int, *provider));
            return Some(i);
        }
        assert(!is_by(list@, i as int, *provider));
    }
    None
}

/// Adds `record` to the list of its key, which keeps at most `max` records.
fn add_to_list(list: &mut Vec<ProviderRecord>, record: ProviderRecord, max: usize)
    requires
        old(list)@.len() > 0 ==> list_valid(old(list)@, record.key@, max as nat),
    ensures
        final(list)@ == added(old(list)@, record, max as nat),
        final(list)@.len() > 0 ==> list_valid(final(list)@, record.key@, max as nat),
{
    let ghost before = list@;
    let ghost k = record.key@;
    if let Some(i) = find(list, &record.provider) {
        assert(is_by(before, position_of(before, record.provider), record.provider));
        list.set(i, record);
        return ;
    }
    let mut n: usize = 0;
    while n < list.len() && !is_closer(&record.provider, &list[n].provider, &record.key.bytes)
        invariant
            n <= list@.len(),
            list@ == before,
            k == record.key@,
            forall|i: int|
                0 <= i < n ==> distance((#[trigger] before[i]).provider, k) <= distance(
                    record.provider,
                    k,
                ),
        ensures
            n <= list@.len(),
            n < list@.len() ==> distance(record.provider, k) < distance(before[n as int].provider, k),
        decreases list@.len() - n,
    {
        n = n + 1;
    }
    proof {
        lemma_rank(before, record.provider, k, n as int);
        assert forall|i: int| 0 <= i < before.len() implies (#[trigger] before[i]).provider
            != record.provider by {
            if before[i].provider == record.provider {
                assert(is_by(before, i, record.provider));
            }
        }
    }
    list.insert(n, record);
    if list.len() > max {
        list.truncate(max);
    }
}

/// A key keeps the providers closest to it: where adding a record leaves one out, that record's
/// provider is no closer to the key than any whose record is kept.
pub proof fn law_closest_providers_are_kept(
    list: Seq<ProviderRecord>,
    record: ProviderRecord,
    max: nat,
    left_out: ProviderRecord,
    kept: ProviderRecord,
)
    requires
        list.len() > 0 ==> list_valid(list, record.key@, max),
        list.contains(left_out) || left_out == record,
        !has_provider(added(list, record, max), left_out.provider),
        added(list, record, max).contains(kept),
    ensures
        distance(kept.provider, record.key@) <= distance(left_out.provider, record.key@),
{
    let k = record.key@;
    let result = added(list, record, max);
    let p = result.index_of(kept);
    if has_provider(list, record.provider) {
        let i = position_of(list, record.provider);
        assert(is_by(list, i, record.provider));
        assert(is_by(result, i, record.provider));
        if list.contains(left_out) {
            let j = list.index_of(left_out);
            assert(result[j].provider == left_out.provider);
            assert(is_by(result, j, left_out.provider));
        }
    } else {
        let n = rank(list, record.provider, k) as int;
        lemma_rank_bounds(list, record.provider, k);
        let longer = list.insert(n, record);
        let j = if left_out == record && !list.contains(left_out) {
            n
        } else {
            let i = list.index_of(left_out);
            if i < n {
                i
            } else {
                i + 1
            }
        };
        assert(longer[j] == left_out);
        assert(longer[p] == kept);
        if j < result.len() {
            assert(is_by(result, j, left_out.provider));
        }
        assert forall|a: int, b: int| 0 <= a < b < longer.len() implies distance(
            (#[trigger] longer[a]).provider,
            k,
        ) <= distance((#[trigger] longer[b]).provider, k) by {
            let c = if a < n {
                a
            } else {
                a - 1
            };
            let d = if b < n {
                b
            } else {
                b - 1
            };
            if a != n && b != n {
                assert(longer[a] == list[c] && longer[b] == list[d]);
            } else if a == n {
                assert(longer[b] == list[d]);
            } else {
                assert(longer[a] == list[c]);
            }
        }
    }
}

/// The providers ranked before a provider are no farther from the key; where the list is sorted,
/// those behind it are farther.
proof fn lemma_rank_bounds(list: Seq<ProviderRecord>, provider: PeerId, k: Seq<u8>)
    requires
        forall|i: int, j: int|
            0 <= i < j < list.len() ==> distance((#[trigger] list[i]).provider, k) <= distance(
                (#[trigger] list[j]).provider,
                k,
            ),
    ensures
        0 <= rank(list, provider, k) <= list.len(),
        forall|i: int|
            0 <= i < rank(list, provider, k) ==> distance((#[trigger] list[i]).provider, k)
                <= distance(provider, k),
        forall|i: int|
            rank(list, provider, k) <= i < list.len() ==> distance(provider, k) < distance(
                (#[trigger] list[i]).provider,
                k,
            ),
    decreases list.len(),
{
    if list.len() == 0 {
    } else if distance(provider, k) < distance(list[0].provider, k) {
    } else {
        let rest = list.drop_first();
        assert forall|i: int, j: int| 0 <= i < j < rest.len() implies distance(
            (#[trigger] rest[i]).provider,
            k,
        ) <= distance((#[trigger] rest[j]).provider, k) by {
            assert(rest[i] == list[i + 1] && rest[j] == list[j + 1]);
        }
        lemma_rank_bounds(rest, provider, k);
        assert forall|i: int| 0 <= i < rank(list, provider, k) implies distance(
            (#[trigger] list[i]).provider,
            k,
        ) <= distance(provider, k) by {
            if i > 0 {
                assert(list[i] == rest[i - 1]);
            }
        }
        assert forall|i: int| rank(list, provider, k) <= i < list.len() implies distance(
            provider,
            k,
        ) < distance((#[trigger] list[i]).provider, k) by {
            assert(list[i] == rest[i - 1]);
        }
    }
}

/// Once a record has been added to the list of its key, it is in the list exactly if its provider
/// had a record there before, or fewer than `max` of those listed are as close to the key.
pub proof fn law_added_provider_is_listed(list: Seq<ProviderRecord>, record: ProviderRecord, max: nat)
    requires
        list.len() > 0 ==> list_valid(list, record.key@, max),
    ensures
        has_provider(added(list, record, max), record.provider) <==> has_provider(
            list,
            record.provider,
        ) || rank(list, record.provider, record.key@) < max,
        has_provider(added(list, record, max), record.provider) ==> added(
            list,
            record,
            max,
        ).contains(record),
{
    let result = added(list, record, max);
    let provider = record.provider;
    if has_provider(list, provider) {
        let i = position_of(list, provider);
        assert(is_by(list, i, provider));
        assert(is_by(result, i, provider));
        assert(result[i] == record);
    } else {
        let n = rank(list, provider, record.key@) as int;
        lemma_rank_bounds(list, provider, record.key@);
        let longer = list.insert(n, record);
        if n < max {
            assert(result[n] == record);
            assert(is_by(result, n, provider));
        } else if has_provider(result, provider) {
            let i = position_of(result, provider);
            assert(is_by(result, i, provider));
            assert(longer[i] == result[i]);
            assert(list[i] == longer[i]);
            assert(is_by(list, i, provider));
        }
    }
}

/// The provider records of a key are those that were written for it last; what is written for one
/// key changes nothing for another.
pub proof fn law_provider_lists_are_separate(
    lists: ProviderLists,
    k: Seq<u8>,
    list: Seq<ProviderRecord>,
    other: Seq<u8>,
)
    ensures
        list_of(with_list(lists, k, list), k) == list,
        other != k ==> list_of(with_list(lists, k, list), other) == list_of(lists, other),
{
    assert(list.len() == 0 ==> list =~= Seq::empty());
}

/// A provider whose record was removed from the list of a key has none left in it.
pub proof fn law_removed_provider_is_gone(
    list: Seq<ProviderRecord>,
    k: Seq<u8>,
    max: nat,
    provider: PeerId,
)
    requires
        list.len() > 0 ==> list_valid(list, k, max),
    ensures
        !has_provider(without(list, provider), provider),
{
    let rest = without(list, provider);
    if has_provider(list, provider) && has_provider(rest, provider) {
        let i = position_of(list, provider);
        let j = position_of(rest, provider);
        assert(is_by(list, i, provider));
        assert(is_by(rest, j, provider));
        let m = if j < i {
            j
        } else {
            j + 1
        };
        assert(list[m] == rest[j]);
        assert(list[i].provider == list[m].provider);
    }
}

/// A key has the records that are listed under it, and none where nothing is.
pub proof fn law_list_of_a_key(lists: ProviderLists, k: Seq<u8>)
    ensures
        lists.contains_key(k) ==> list_of(lists, k) == lists[k],
        !lists.contains_key(k) ==> list_of(lists, k).len() == 0,
{
}

/// Writing a list for a key leaves the key with that list, or without an entry if the list is empty;
/// every other key has what it had.
pub proof fn law_list_is_written(
    lists: ProviderLists,
    k: Seq<u8>,
    list: Seq<ProviderRecord>,
    other: Seq<u8>,
)
    ensures
        with_list(lists, k, list).contains_key(k) <==> list.len() > 0,
        list.len() > 0 ==> with_list(lists, k, list)[k] == list,
        other != k ==> with_list(lists, k, list).contains_key(other) == lists.contains_key(other),
        other != k && lists.contains_key(other) ==> with_list(lists, k, list)[other]
            == lists[other],
{
}

/// A record by a provider that is listed already, at the position `i`, takes the place of the one
/// there; every other record stays where it is, and none leaves.
pub proof fn law_known_provider_is_updated(
    list: Seq<ProviderRecord>,
    record: ProviderRecord,
    max: nat,
    i: int,
)
    requires
        forall|a: int, b: int|
            0 <= a < b < list.len() ==> (#[trigger] list[a]).provider != (#[trigger] list[b]).provider,
        0 <= i < list.len(),
        list[i].provider == record.provider,
    ensures
        added(list, record, max).len() == list.len(),
        added(list, record, max)[i] == record,
        forall|j: int|
            0 <= j < list.len() && j != i ==> #[trigger] added(list, record, max)[j] == list[j],
{
    assert(is_by(list, i, record.provider));
    let p = position_of(list, record.provider);
    assert(is_by(list, p, record.provider));
    assert(p == i) by {
        if p < i {
            assert(list[p].provider != list[i].provider);
        }
        if i < p {
            assert(list[i].provider != list[p].provider);
        }
    }
}

/// A record by a provider that is not listed comes behind the `n` records whose providers are as
/// close to the key and before the others, which move back by one; of all these records, the first
/// `max` are kept.
pub proof fn law_new_provider_is_placed_by_distance(
    list: Seq<ProviderRecord>,
    record: ProviderRecord,
    max: nat,
    n: int,
)
    requires
        forall|i: int| 0 <= i < list.len() ==> (#[trigger] list[i]).provider != record.provider,
        0 <= n <= list.len(),
        forall|i: int|
            0 <= i < n ==> distance((#[trigger] list[i]).provider, record.key.bytes@) <= distance(
                record.provider,
                record.key.bytes@,
            ),
        forall|i: int|
            n <= i < list.len() ==> distance(record.provider, record.key.bytes@) < distance(
                (#[trigger] list[i]).provider,
                record.key.bytes@,
            ),
    ensures
        added(list, record, max).len() == if list.len() + 1 <= max {
            list.len() + 1
        } else {
            max
        },
        forall|i: int|
            0 <= i < n && i < max ==> #[trigger] added(list, record, max)[i] == list[i],
        n < max ==> added(list, record, max)[n] == record,
        forall|i: int|
            n < i <= list.len() && i < max ==> #[trigger] added(list, record, max)[i] == list[i - 1],
{
    if has_provider(list, record.provider) {
        let i = position_of(list, record.provider);
        assert(is_by(list, i, record.provider));
        assert(list[i].provider != record.provider);
    }
    if n < list.len() {
        assert(distance(record.provider, record.key@) < distance(list[n].provider, record.key@));
    }
    lemma_rank(list, record.provider, record.key@, n);
}

/// Removing the record of a provider, at the position `i`, moves the records behind it up by one
/// and leaves those before it.
pub proof fn law_only_the_named_provider_is_removed(
    list: Seq<ProviderRecord>,
    provider: PeerId,
    i: int,
)
    requires
        forall|a: int, b: int|
            0 <= a < b < list.len() ==> (#[trigger] list[a]).provider != (#[trigger] list[b]).provider,
        0 <= i < list.len(),
        list[i].provider == provider,
    ensures
        without(list, provider).len() == list.len() - 1,
        forall|j: int| 0 <= j < i ==> #[trigger] without(list, provider)[j] == list[j],
        forall|j: int|
            i <= j < list.len() - 1 ==> #[trigger] without(list, provider)[j] == list[j + 1],
{
    assert(is_by(list, i, provider));
    let p = position_of(list, provider);
    assert(is_by(list, p, provider));
    assert(p == i) by {
        if p < i {
            assert(list[p].provider != list[i].provider);
        }
        if i < p {
            assert(list[i].provider != list[p].provider);
        }
    }
}

/// Removing a provider that has no record in a list changes nothing in it.
pub proof fn law_unknown_provider_removes_nothing(list: Seq<ProviderRecord>, provider: PeerId)
    requires
        forall|i: int| 0 <= i < list.len() ==> (#[trigger] list[i]).provider != provider,
    ensures
        without(list, provider) == list,
{
    if has_provider(list, provider) {
        let i = position_of(list, provider);
        assert(is_by(list, i, provider));
        assert(list[i].provider != provider);
    }
}

/// Removing a provider keeps the record of every other one.
pub proof fn law_other_providers_stay(list: Seq<ProviderRecord>, provider: PeerId, r: ProviderRecord)
    requires
        list.contains(r),
        r.provider != provider,
    ensures
        without(list, provider).contains(r),
{
    let j = list.index_of(r);
    if has_provider(list, provider) {
        let i = position_of(list, provider);
        assert(is_by(list, i, provider));
        assert(without(list, provider)[if j < i { j } else { j - 1 }] == r);
    }
}

/// Removing the record of a provider that had none before it was added undoes the adding, where no
/// record had to leave for it.
pub proof fn law_remove_undoes_add(list: Seq<ProviderRecord>, record: ProviderRecord, max: nat)
    requires
        list.len() > 0 ==> list_valid(list, record.key@, max),
        list.len() < max,
        forall|i: int| 0 <= i < list.len() ==> (#[trigger] list[i]).provider != record.provider,
    ensures
        without(added(list, record, max), record.provider) == list,
{
    if has_provider(list, record.provider) {
        let i = position_of(list, record.provider);
        assert(is_by(list, i, record.provider));
        assert(list[i].provider != record.provider);
    }
    lemma_rank_bounds(list, record.provider, record.key@);
    let n = rank(list, record.provider, record.key@) as int;
    let longer = added(list, record, max);
    assert(longer == list.insert(n, record));
    assert(is_by(longer, n, record.provider));
    let p = position_of(longer, record.provider);
    assert(is_by(longer, p, record.provider));
    if p < n {
        assert(longer[p] == list[p]);
    }
    if n < p {
        assert(longer[p] == list[p - 1]);
    }
    assert(longer.remove(n) =~= list);
}

/// A provider record is refused exactly if its key has none yet and as many keys as are allowed have
/// some, and is then answered that there are too many keys.
pub proof fn law_provider_record_is_taken_if_there_is_room(
    lists: ProviderLists,
    record: ProviderRecord,
    config: ProvidersConfig,
)
    ensures
        lists.contains_key(record.key.bytes@) ==> add_outcome(lists, record, config) == Ok::<
            (),
            StoreError,
        >(()),
        lists.dom().len() < config.max_provided_keys ==> add_outcome(lists, record, config) == Ok::<
            (),
            StoreError,
        >(()),
        !lists.contains_key(record.key.bytes@) && lists.dom().len() >= config.max_provided_keys
            ==> add_outcome(lists, record, config) == Err::<(), StoreError>(
            StoreError::MaxProvidedKeys,
        ),
{
}

/// The provider records of a store keep to its configuration: no more keys than it allows have
/// some, each of these has one record at least and no more than are allowed, all of that key, by
/// different providers, and in the order of their distances.
pub proof fn law_provider_lists_keep_to_the_configuration(
    lists: ProviderLists,
    config: ProvidersConfig,
    k: Seq<u8>,
    i: int,
    j: int,
)
    requires
        lists_valid(lists, config),
        lists.contains_key(k),
        0 <= i < j < lists[k].len(),
    ensures
        lists.dom().finite(),
        lists.dom().len() <= config.max_provided_keys,
        0 < lists[k].len() <= config.max_providers_per_key,
        lists[k][i].key.bytes@ == k,
        lists[k][j].key.bytes@ == k,
        lists[k][i].provider != lists[k][j].provider,
        distance(lists[k][i].provider, k) <= distance(lists[k][j].provider, k),
{
    assert(list_valid(lists[k], k, config.max_providers_per_key as nat));
}

/// The records by a provider are those that the lists hold of it, one for each key in whose list it
/// is, and no others.
pub proof fn law_records_by_a_provider(
    lists: ProviderLists,
    config: ProvidersConfig,
    provider: PeerId,
    k: Seq<u8>,
)
    requires
        lists_valid(lists, config),
    ensures
        records_by(lists, provider).contains_key(k) <==> lists.contains_key(k) && exists|i: int|
            0 <= i < lists[k].len() && (#[trigger] lists[k][i]).provider == provider,
        forall|i: int|
            lists.contains_key(k) && 0 <= i < lists[k].len() && (#[trigger] lists[k][i]).provider
                == provider ==> records_by(lists, provider)[k] == lists[k][i],
{
    if lists.contains_key(k) {
        let list = lists[k];
        assert(list_valid(list, k, config.max_providers_per_key as nat));
        if has_provider(list, provider) {
            let p = position_of(list, provider);
            assert(is_by(list, p, provider));
            assert(list[p].provider == provider);
        }
        if exists|i: int| 0 <= i < list.len() && (#[trigger] list[i]).provider == provider {
            let i = choose|i: int|
                0 <= i < list.len() && (#[trigger] list[i]).provider == provider;
            assert(is_by(list, i, provider));
        }
        assert forall|i: int|
            0 <= i < list.len() && (#[trigger] list[i]).provider == provider implies records_by(
            lists,
            provider,
        )[k] == list[i] by {
            assert(is_by(list, i, provider));
            let p = position_of(list, provider);
            assert(is_by(list, p, provider));
            if p < i {
                assert(list[p].provider != list[i].provider);
            }
            if i < p {
                assert(list[i].provider != list[p].provider);
            }
        }
    }
}

/// Lists say the same exactly if they are equally long and their records, position by position, have
/// the same key, provider, expiration time and addresses.
pub proof fn law_same_list(list: Seq<ProviderRecord>, other: Seq<ProviderRecord>)
    ensures
        list_says_same(list, other) <==> {
            &&& list.len() == other.len()
            &&& forall|i: int|
                0 <= i < list.len() ==> {
                    &&& (#[trigger] list[i]).key.bytes@ == other[i].key.bytes@
                    &&& list[i].provider == other[i].provider
                    &&& list[i].expires == other[i].expires
                    &&& list[i].addresses@ == other[i].addresses@
                }
        },
{
}

} // verus!
