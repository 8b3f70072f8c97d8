//! The database of the client: a text for each key.

use super::hash_map_key::{law_keys_do_not_share_slots, AnyKey, RecordKey};
use super::mem_db::MemoryDB;
use vstd::hash_map::StringHashMap;
use vstd::prelude::*;

verus! {

/// A database, which keeps the encoded value of each of its entries, of which there are finitely
/// many.
pub trait Database: Sized {
    /// The encoded value of each entry, by its slot.
    spec fn entries(&self) -> Map<Seq<char>, Seq<char>>;

    /// Puts the encoded value `value` under `key`, in place of what stood there.
    fn put<T: RecordKey>(&mut self, key: T, value: String)
        ensures
            final(self).entries() == old(self).entries().insert(key.slot(), value@),
            old(self).entries().dom().finite(),
            final(self).entries().dom().finite(),
            final(self).entries().dom().len() == old(self).entries().dom().len() + if old(
                self,
            ).entries().contains_key(key.slot()) {
                0int
            } else {
                1int
            },
    ;

    /// The encoded value under `key`, if there is one.
    fn get<T: RecordKey>(&self, key: T) -> (value: Option<String>)
        ensures
            self.entries().dom().finite(),
            match value {
                Some(text) => self.entries().contains_key(key.slot()) && text@
                    == self.entries()[key.slot()],
                None => !self.entries().contains_key(key.slot()),
            },
    ;

    /// Removes the entry under `key`, if there is one.
    fn delete<T: RecordKey>(&mut self, key: T)
        ensures
            final(self).entries() == old(self).entries().remove(key.slot()),
            old(self).entries().dom().finite(),
            final(self).entries().dom().finite(),
            final(self).entries().dom().len() == old(self).entries().dom().len() - if old(
                self,
            ).entries().contains_key(key.slot()) {
                1int
            } else {
                0int
            },
    ;
}

/// A database in memory.
pub struct DbMap {
    map: StringHashMap<String>,
}

impl DbMap {
    #[verifier::type_invariant]
    spec fn well_formed(&self) -> bool {
        self.map@.dom().finite()
    }

    /// The entries stand where the map has its keys.
    proof fn lemma_entries(&self)
        ensures
            self.entries().dom() == self.map@.dom(),
    {
        assert(self.entries().dom() =~= self.map@.dom());
    }

    /// A database with no entries.
    pub fn new() -> (db: Self)
        ensures
            db.entries() == Map::<Seq<char>, Seq<char>>::empty(),
    {
        let db = DbMap { map: StringHashMap::new() };
        assert(db.entries() =~= Map::<Seq<char>, Seq<char>>::empty());
        db
    }
}

impl Database for DbMap {
    closed spec fn entries(&self) -> Map<Seq<char>, Seq<char>> {
        self.map@.map_values(|value: String| value@)
    }

    fn put<T: RecordKey>(&mut self, key: T, value: String) {
        proof {
            use_type_invariant(&*self);
            self.lemma_entries();
            law_put_counts_new_keys(self.entries(), key.slot(), value@);
        }
        let place = key.into_hash_map_key();
        let mut taken: DbMap = DbMap::new();
        std::mem::swap(&mut taken, self);
        let DbMap { mut map } = taken;
        map.insert(place.0, value);
        *self = DbMap { map };
        assert(self.entries() =~= old(self).entries().insert(key.slot(), value@));
    }

    fn get<T: RecordKey>(&self, key: T) -> Option<String> {
        proof {
            use_type_invariant(self);
            self.lemma_entries();
        }
        match self.map.get(key.into_hash_map_key().0.as_str()) {
            Some(value) => Some(value.clone()),
            None => None,
        }
    }

    fn delete<T: RecordKey>(&mut self, key: T) {
        proof {
            use_type_invariant(&*self);
            self.lemma_entries();
            law_delete_counts_old_keys(self.entries(), key.slot());
        }
        let place = key.into_hash_map_key();
        let mut taken: DbMap = DbMap::new();
        std::mem::swap(&mut taken, self);
        let DbMap { mut map } = taken;
        map.remove(place.0.as_str());
        *self = DbMap { map };
        assert(self.entries() =~= old(self).entries().remove(key.slot()));
    }
}

impl Database for MemoryDB {
    open spec fn entries(&self) -> Map<Seq<char>, Seq<char>> {
        self.db_map.entries()
    }

    fn put<T: RecordKey>(&mut self, key: T, value: String)
        ensures
            final(self).libp2p_mem_store == old(self).libp2p_mem_store,
    {
        self.db_map.put(key, value);
    }

    fn get<T: RecordKey>(&self, key: T) -> Option<String> {
        self.db_map.get(key)
    }

    fn delete<T: RecordKey>(&mut self, key: T)
        ensures
            final(self).libp2p_mem_store == old(self).libp2p_mem_store,
    {
        self.db_map.delete(key);
    }
}

/// A value that was put under a key is what that key gives; every other key gives what it gave
/// before.
pub proof fn law_value_is_read_back(
    entries: Map<Seq<char>, Seq<char>>,
    key: AnyKey,
    value: Seq<char>,
    other: AnyKey,
)
    ensures
        entries.insert(key.slot(), value).contains_key(key.slot()),
        entries.insert(key.slot(), value)[key.slot()] == value,
        other != key ==> {
            &&& entries.insert(key.slot(), value).contains_key(other.slot())
                == entries.contains_key(other.slot())
            &&& entries.insert(key.slot(), value)[other.slot()] == entries[other.slot()]
        },
{
    law_keys_do_not_share_slots(key, other);
}

/// A put makes one more entry if there was none under the key, and leaves their number as it was if
/// there was one.
pub proof fn law_put_counts_new_keys(
    entries: Map<Seq<char>, Seq<char>>,
    slot: Seq<char>,
    value: Seq<char>,
)
    requires
        entries.dom().finite(),
    ensures
        entries.insert(slot, value).dom().finite(),
        entries.insert(slot, value).dom().len() == entries.dom().len() + if entries.contains_key(
            slot,
        ) {
            0int
        } else {
            1int
        },
{
    assert(entries.insert(slot, value).dom() =~= entries.dom().insert(slot));
}

/// Deleting makes one entry fewer if there was one under the key, and leaves their number as it was
/// if there was none.
pub proof fn law_delete_counts_old_keys(entries: Map<Seq<char>, Seq<char>>, slot: Seq<char>)
    requires
        entries.dom().finite(),
    ensures
        entries.remove(slot).dom().finite(),
        entries.remove(slot).dom().len() == entries.dom().len() - if entries.contains_key(slot) {
            1int
        } else {
            0int
        },
{
    assert(entries.remove(slot).dom() =~= entries.dom().remove(slot));
}

/// A deleted entry is gone; every other key gives what it gave before.
pub proof fn law_deleted_entry_is_gone(
    entries: Map<Seq<char>, Seq<char>>,
    key: AnyKey,
    other: AnyKey,
)
    ensures
        !entries.remove(key.slot()).contains_key(key.slot()),
        other != key ==> {
            &&& entries.remove(key.slot()).contains_key(other.slot()) == entries.contains_key(
                other.slot(),
            )
            &&& entries.contains_key(other.slot()) ==> entries.remove(key.slot())[other.slot()]
                == entries[other.slot()]
        },
{
    law_keys_do_not_share_slots(key, other);
}

} // verus!
