//! Maps from record keys.

use super::kad::DHTRecordKey;
use vstd::hash_map::StringHashMap;
use vstd::prelude::*;

verus! {

/// A map from record keys to values of type `V`.
///
/// Keys and values stand side by side, in no particular order; an index gives the position of each
/// key. The keys are kept apart by their bytes: no two positions hold the same string.
pub struct KeyMap<V> {
    index: StringHashMap<usize>,
    keys: Vec<DHTRecordKey>,
    values: Vec<V>,
}

/// Whether `values` lists what `map` holds, each entry once, in some order of the keys.
pub open spec fn lists_values<V>(values: Seq<V>, map: Map<Seq<u8>, V>) -> bool {
    exists|keys: Seq<Seq<u8>>| #[trigger] lists_entries(keys, values, map)
}

/// Whether `keys` and `values`, position by position, are the entries of `map`, each once.
pub open spec fn lists_entries<V>(keys: Seq<Seq<u8>>, values: Seq<V>, map: Map<Seq<u8>, V>) -> bool {
    &&& keys.len() == values.len()
    &&& keys.no_duplicates()
    &&& forall|k: Seq<u8>| #[trigger] map.contains_key(k) <==> keys.contains(k)
    &&& forall|i: int| 0 <= i < keys.len() ==> map[#[trigger] keys[i]] == values[i]
}

/// What `map` holds under `k`, if anything.
pub open spec fn lookup<V>(map: Map<Seq<u8>, V>, k: Seq<u8>) -> Option<V> {
    if map.contains_key(k) {
        Some(map[k])
    } else {
        None
    }
}

/// The bytes of each key.
spec fn bytes_of(keys: Seq<DHTRecordKey>) -> Seq<Seq<u8>> {
    keys.map_values(|k: DHTRecordKey| k@)
}

/// The text under which a key stands in the index: one character for each byte.
spec fn label(key: Seq<u8>) -> Seq<char> {
    key.map_values(|b: u8| b as char)
}

/// Whether `index` gives the position of each of `keys`, and of nothing else.
spec fn indexed(index: Map<Seq<char>, usize>, keys: Seq<Seq<u8>>) -> bool {
    &&& forall|i: int|
        0 <= i < keys.len() ==> index.contains_key(label(#[trigger] keys[i])) && index[label(keys[i])]
            == i
    &&& forall|t: Seq<char>| #[trigger]
        index.contains_key(t) ==> index[t] < keys.len() && label(keys[index[t] as int]) == t
}

/// Different keys have different labels.
proof fn lemma_label(a: Seq<u8>, b: Seq<u8>)
    requires
        label(a) == label(b),
    ensures
        a == b,
{
    assert(label(a).len() == a.len());
    assert(label(b).len() == b.len());
    assert forall|i: int| 0 <= i < a.len() implies a[i] == b[i] by {
        assert(label(a)[i] == a[i] as char);
        assert(label(b)[i] == b[i] as char);
    }
    assert(a =~= b);
}

/// Keys that an index tells apart are different.
proof fn lemma_indexed(index: Map<Seq<char>, usize>, keys: Seq<Seq<u8>>)
    requires
        indexed(index, keys),
    ensures
        keys.no_duplicates(),
{
}

/// Calls `std::string::String::push`, which appends a character to a string.
#[verifier::external_body]
fn push_char(text: &mut String, c: char)
    ensures
        final(text)@ == old(text)@.push(c),
{
    text.push(c);
}

/// The text under which a key stands in the index.
fn label_text(key: &DHTRecordKey) -> (text: String)
    ensures
        text@ == label(key@),
{
    let mut text = String::new();
    for i in 0..key.bytes.len()
        invariant
            text@ == label(key@.take(i as int)),
    {
        push_char(&mut text, key.bytes[i] as char);
        assert(label(key@.take(i + 1)) =~= label(key@.take(i as int)).push(key@[i as int] as char));
    }
    assert(key@.take(key@.len() as int) =~= key@);
    text
}

/// The map that `keys` and `values` spell out, position by position.
spec fn spelled<V>(keys: Seq<Seq<u8>>, values: Seq<V>) -> Map<Seq<u8>, V> {
    Map::new(|k: Seq<u8>| keys.contains(k), |k: Seq<u8>| values[keys.index_of(k)])
}

proof fn lemma_spelled<V>(keys: Seq<Seq<u8>>, values: Seq<V>)
    requires
        keys.len() == values.len(),
        keys.no_duplicates(),
    ensures
        lists_entries(keys, values, spelled(keys, values)),
        spelled(keys, values).dom().finite(),
        spelled(keys, values).dom().len() == keys.len(),
{
    let map = spelled(keys, values);
    assert forall|i: int| 0 <= i < keys.len() implies map[#[trigger] keys[i]] == values[i] by {
        assert(keys.contains(keys[i]));
    }
    assert(map.dom() =~= keys.to_set());
    keys.unique_seq_to_set();
}

proof fn lemma_push<V>(keys: Seq<Seq<u8>>, values: Seq<V>, k: Seq<u8>, v: V)
    requires
        keys.len() == values.len(),
        keys.no_duplicates(),
        !keys.contains(k),
    ensures
        keys.push(k).no_duplicates(),
        spelled(keys.push(k), values.push(v)) == spelled(keys, values).insert(k, v),
{
    let more = keys.push(k);
    let more_values = values.push(v);
    assert forall|x: Seq<u8>| more.contains(x) <==> keys.contains(x) || x == k by {
        if keys.contains(x) {
            assert(more[keys.index_of(x)] == x);
        }
        if x == k {
            assert(more[keys.len() as int] == x);
        }
    }
    lemma_spelled(keys, values);
    lemma_spelled(more, more_values);
    assert forall|x: Seq<u8>| more.contains(x) implies spelled(more, more_values)[x] == spelled(
        keys,
        values,
    ).insert(k, v)[x] by {
        let j = more.index_of(x);
        assert(more[j] == x);
        if x != k {
            assert(keys[j] == x);
        }
    }
    assert(spelled(more, more_values) =~= spelled(keys, values).insert(k, v));
}

proof fn lemma_set<V>(keys: Seq<Seq<u8>>, values: Seq<V>, i: int, v: V)
    requires
        keys.len() == values.len(),
        keys.no_duplicates(),
        0 <= i < keys.len(),
    ensures
        spelled(keys, values.update(i, v)) == spelled(keys, values).insert(keys[i], v),
{
    lemma_spelled(keys, values);
    lemma_spelled(keys, values.update(i, v));
    assert(keys.contains(keys[i]));
    assert(spelled(keys, values.update(i, v)) =~= spelled(keys, values).insert(keys[i], v));
}

/// `seq` with its last element in the place of the one at `i`.
spec fn swapped_out<T>(seq: Seq<T>, i: int) -> Seq<T> {
    seq.update(i, seq.last()).drop_last()
}

proof fn lemma_swap_remove<V>(keys: Seq<Seq<u8>>, values: Seq<V>, i: int)
    requires
        keys.len() == values.len(),
        keys.no_duplicates(),
        0 <= i < keys.len(),
    ensures
        swapped_out(keys, i).no_duplicates(),
        spelled(swapped_out(keys, i), swapped_out(values, i)) == spelled(keys, values).remove(keys[i]),
{
    let rest = swapped_out(keys, i);
    let rest_values = swapped_out(values, i);
    let last = keys.len() - 1;
    assert forall|k: Seq<u8>| rest.contains(k) <==> keys.contains(k) && k != keys[i] by {
        if rest.contains(k) {
            let j = rest.index_of(k);
            assert(keys[if j == i { last } else { j }] == k);
        }
        if keys.contains(k) && k != keys[i] {
            let j = keys.index_of(k);
            assert(rest[if j == last { i } else { j }] == k);
        }
    }
    lemma_spelled(keys, values);
    lemma_spelled(rest, rest_values);
    assert forall|k: Seq<u8>| rest.contains(k) implies spelled(rest, rest_values)[k] == spelled(
        keys,
        values,
    )[k] by {
        let j = rest.index_of(k);
        assert(keys[if j == i { last } else { j }] == k);
    }
    assert(spelled(rest, rest_values) =~= spelled(keys, values).remove(keys[i]));
}

/// An index stays one when the last key takes the place of the one at `i`.
proof fn lemma_unindexed(
    index: Map<Seq<char>, usize>,
    keys: Seq<Seq<u8>>,
    i: int,
    rest: Map<Seq<char>, usize>,
)
    requires
        indexed(index, keys),
        0 <= i < keys.len(),
        i <= usize::MAX,
        rest == if i < keys.len() - 1 {
            index.remove(label(keys[i])).insert(label(keys.last()), i as usize)
        } else {
            index.remove(label(keys[i]))
        },
    ensures
        indexed(rest, swapped_out(keys, i)),
{
    let left = swapped_out(keys, i);
    let last = keys.len() - 1;
    assert forall|j: int| 0 <= j < left.len() implies rest.contains_key(label(#[trigger] left[j]))
        && rest[label(left[j])] == j by {
        let m = if j == i {
            last
        } else {
            j
        };
        assert(left[j] == keys[m]);
        assert(index[label(keys[m])] == m);
        assert(index[label(keys[i])] == i);
        assert(index[label(keys[last])] == last);
    }
    assert forall|t: Seq<char>| #[trigger] rest.contains_key(t) implies rest[t] < left.len() && label(
        left[rest[t] as int],
    ) == t by {
        if t != label(keys[last]) || i == last {
            assert(index.contains_key(t));
            let m = index[t] as int;
            assert(label(keys[m]) == t);
            assert(m != i);
            assert(m != last);
            assert(left[m] == keys[m]);
        }
    }
}

/// Puts a new key behind the others, and into their index.
fn push_entry(
    index: &mut StringHashMap<usize>,
    keys: &mut Vec<DHTRecordKey>,
    key: DHTRecordKey,
)
    requires
        indexed(old(index)@, bytes_of(old(keys)@)),
        !bytes_of(old(keys)@).contains(key@),
    ensures
        bytes_of(final(keys)@) == bytes_of(old(keys)@).push(key@),
        final(keys)@.len() == old(keys)@.len() + 1,
        indexed(final(index)@, bytes_of(final(keys)@)),
{
    let ghost before = bytes_of(keys@);
    let ghost old_index = index@;
    index.insert(label_text(&key), keys.len());
    keys.push(key);
    proof {
        let after = bytes_of(keys@);
        assert(after =~= before.push(key@));
        assert forall|i: int| 0 <= i < before.len() implies label(#[trigger] before[i]) != label(
            key@,
        ) by {
            if label(before[i]) == label(key@) {
                lemma_label(before[i], key@);
            }
        }
        assert forall|i: int| 0 <= i < after.len() implies index@.contains_key(
            label(#[trigger] after[i]),
        ) && index@[label(after[i])] == i by {
            if i < before.len() {
                assert(after[i] == before[i]);
            }
        }
        assert forall|t: Seq<char>| #[trigger] index@.contains_key(t) implies index@[t] < after.len()
            && label(after[index@[t] as int]) == t by {
            if t != label(key@) {
                assert(old_index.contains_key(t));
                assert(after[old_index[t] as int] == before[old_index[t] as int]);
            }
        }
    }
}

/// The index of `keys`.
fn index_of_keys(keys: &Vec<DHTRecordKey>) -> (index: StringHashMap<usize>)
    requires
        bytes_of(keys@).no_duplicates(),
    ensures
        indexed(index@, bytes_of(keys@)),
{
    let mut index: StringHashMap<usize> = StringHashMap::with_capacity(keys.len());
    let ghost all = bytes_of(keys@);
    for n in 0..keys.len()
        invariant
            all == bytes_of(keys@),
            all.no_duplicates(),
            indexed(index@, all.take(n as int)),
    {
        let ghost before = index@;
        index.insert(label_text(&keys[n]), n);
        proof {
            let done = all.take(n as int);
            let more = all.take(n + 1);
            assert forall|i: int| 0 <= i < done.len() implies label(#[trigger] done[i]) != label(
                all[n as int],
            ) by {
                if label(done[i]) == label(all[n as int]) {
                    lemma_label(done[i], all[n as int]);
                    assert(all[i] == all[n as int]);
                }
            }
            assert forall|i: int| 0 <= i < more.len() implies index@.contains_key(
                label(#[trigger] more[i]),
            ) && index@[label(more[i])] == i by {
                if i < n {
                    assert(more[i] == done[i]);
                }
            }
            assert forall|t: Seq<char>| #[trigger] index@.contains_key(t) implies index@[t]
                < more.len() && label(more[index@[t] as int]) == t by {
                if t != label(all[n as int]) {
                    assert(before.contains_key(t));
                    assert(more[before[t] as int] == done[before[t] as int]);
                }
            }
        }
    }
    assert(all.take(keys@.len() as int) =~= all);
    index
}

/// Calls `std::vec::Vec::shrink_to_fit`, which lowers the capacity of a vector as far as possible
/// and leaves its elements alone. How far the capacity falls is up to the allocator; the contract
/// speaks of the elements only.
#[verifier::external_body]
fn shrink_vec<T>(vec: &mut Vec<T>)
    ensures
        final(vec)@ == old(vec)@,
{
    vec.shrink_to_fit();
}

impl<V> View for KeyMap<V> {
    type V = Map<Seq<u8>, V>;

    closed spec fn view(&self) -> Map<Seq<u8>, V> {
        spelled(self.key_seq(), self.values@)
    }
}

impl<V: Clone> Clone for KeyMap<V> {
    fn clone(&self) -> (copy: Self)
        ensures
            copy@.dom() == self@.dom(),
            forall|k: Seq<u8>| #[trigger]
                self@.contains_key(k) ==> cloned::<V>(self@[k], copy@[k]),
    {
        proof {
            use_type_invariant(self);
            lemma_indexed(self.index@, self.key_seq());
            lemma_spelled(self.key_seq(), self.values@);
        }
        let mut keys: Vec<DHTRecordKey> = Vec::new();
        let mut values: Vec<V> = Vec::new();
        for i in 0..self.keys.len()
            invariant
                self.keys@.len() == self.values@.len(),
                keys@.len() == i,
                values@.len() == i,
                forall|j: int| 0 <= j < i ==> (#[trigger] keys@[j])@ == self.keys@[j]@,
                forall|j: int| 0 <= j < i ==> cloned::<V>(self.values@[j], #[trigger] values@[j]),
        {
            keys.push(self.keys[i].clone());
            values.push(self.values[i].clone());
        }
        assert(bytes_of(keys@) =~= self.key_seq());
        let index = index_of_keys(&keys);
        let copy = KeyMap { index, keys, values };
        proof {
            lemma_spelled(self.key_seq(), values@);
            assert(copy@.dom() =~= self@.dom());
            assert forall|k: Seq<u8>| #[trigger] self@.contains_key(k) implies cloned::<V>(
                self@[k],
                copy@[k],
            ) by {
                let j = self.key_seq().index_of(k);
                assert(self.key_seq()[j] == k);
                assert(cloned::<V>(self.values@[j], values@[j]));
            }
        }
        copy
    }
}

impl<V> KeyMap<V> {
    spec fn key_seq(&self) -> Seq<Seq<u8>> {
        bytes_of(self.keys@)
    }

    #[verifier::type_invariant]
    spec fn well_formed(&self) -> bool {
        &&& self.keys@.len() == self.values@.len()
        &&& indexed(self.index@, self.key_seq())
    }

    /// The map with no entries.
    pub fn new() -> (map: Self)
        ensures
            map@ == Map::<Seq<u8>, V>::empty(),
    {
        let map = KeyMap { index: StringHashMap::new(), keys: Vec::new(), values: Vec::new() };
        assert(map@ =~= Map::<Seq<u8>, V>::empty());
        map
    }

    /// The number of entries.
    pub fn len(&self) -> (len: usize)
        ensures
            self@.dom().finite(),
            len == self@.dom().len(),
    {
        proof {
            use_type_invariant(self);
            lemma_indexed(self.index@, self.key_seq());
            lemma_spelled(self.key_seq(), self.values@);
        }
        self.keys.len()
    }

    /// The position of `key`, if it is there.
    fn position(&self, key: &DHTRecordKey) -> (position: Option<usize>)
        ensures
            match position {
                Some(i) => i < self.keys@.len() && self.key_seq()[i as int] == key@,
                None => !self.key_seq().contains(key@),
            },
    {
        proof {
            use_type_invariant(self);
        }
        let text = label_text(key);
        match self.index.get(text.as_str()) {
            Some(i) => {
                proof {
                    lemma_label(self.key_seq()[*i as int], key@);
                }
                Some(*i)
            },
            None => None,
        }
    }

    /// The value under `key`, if there is one.
    pub fn get(&self, key: &DHTRecordKey) -> (value: Option<&V>)
        ensures
            match value {
                Some(v) => self@.contains_key(key@) && *v == self@[key@],
                None => !self@.contains_key(key@),
            },
    {
        proof {
            use_type_invariant(self);
            lemma_indexed(self.index@, self.key_seq());
            lemma_spelled(self.key_seq(), self.values@);
        }
        match self.position(key) {
            Some(i) => {
                assert(self.key_seq().contains(self.key_seq()[i as int]));
                Some(&self.values[i])
            },
            None => None,
        }
    }

    /// Puts `value` under `key`, in place of what stood there.
    pub fn insert(&mut self, key: DHTRecordKey, value: V)
        ensures
            final(self)@ == old(self)@.insert(key@, value),
    {
        proof {
            use_type_invariant(&*self);
            lemma_indexed(self.index@, self.key_seq());
            lemma_spelled(self.key_seq(), self.values@);
        }
        let position = self.position(&key);
        let mut taken: KeyMap<V> = KeyMap::new();
        std::mem::swap(&mut taken, self);
        let KeyMap { mut index, mut keys, mut values } = taken;
        let ghost old_keys = bytes_of(keys@);
        let ghost old_values = values@;
        match position {
            Some(i) => {
                values.set(i, value);
            },
            None => {
                push_entry(&mut index, &mut keys, key);
                values.push(value);
            },
        }
        proof {
            match position {
                Some(i) => lemma_set(old_keys, old_values, i as int, value),
                None => lemma_push(old_keys, old_values, key@, value),
            }
        }
        *self = KeyMap { index, keys, values };
    }

    /// Takes the entry under `key` out, if there is one.
    pub fn remove(&mut self, key: &DHTRecordKey) -> (value: Option<V>)
        ensures
            final(self)@ == old(self)@.remove(key@),
            match value {
                Some(v) => old(self)@.contains_key(key@) && v == old(self)@[key@],
                None => !old(self)@.contains_key(key@),
            },
    {
        proof {
            use_type_invariant(&*self);
            lemma_indexed(self.index@, self.key_seq());
            lemma_spelled(self.key_seq(), self.values@);
        }
        match self.position(key) {
            None => {
                assert(self@.remove(key@) =~= self@);
                None
            },
            Some(i) => {
                let mut taken: KeyMap<V> = KeyMap::new();
                std::mem::swap(&mut taken, self);
                let KeyMap { mut index, mut keys, mut values } = taken;
                let ghost old_keys = bytes_of(keys@);
                let ghost old_values = values@;
                let ghost old_index = index@;
                index.remove(label_text(key).as_str());
                keys.swap_remove(i);
                let value = values.swap_remove(i);
                if i < keys.len() {
                    index.insert(label_text(&keys[i]), i);
                }
                proof {
                    lemma_swap_remove(old_keys, old_values, i as int);
                    assert(bytes_of(keys@) =~= swapped_out(old_keys, i as int));
                    lemma_unindexed(old_index, old_keys, i as int, index@);
                }
                *self = KeyMap { index, keys, values };
                Some(value)
            },
        }
    }

    /// The values, each once, in no particular order.
    pub fn values(&self) -> (listed: Vec<&V>)
        ensures
            lists_values(listed@.map_values(|v: &V| *v), self@),
    {
        proof {
            use_type_invariant(self);
            lemma_indexed(self.index@, self.key_seq());
            lemma_spelled(self.key_seq(), self.values@);
        }
        let mut listed: Vec<&V> = Vec::new();
        for i in 0..self.values.len()
            invariant
                listed@.len() == i,
                forall|j: int| 0 <= j < i ==> *listed@[j] == self.values@[j],
        {
            listed.push(&self.values[i]);
        }
        assert(listed@.map_values(|v: &V| *v) =~= self.values@);
        assert(lists_entries(self.key_seq(), listed@.map_values(|v: &V| *v), self@));
        listed
    }

    /// Lets `f` look at each entry once, and change its value; the entries on which it answers
    /// `false` leave.
    pub fn retain<F>(&mut self, f: F)
        where F: FnMut(&DHTRecordKey, &mut V) -> bool
        requires
            forall|key: &DHTRecordKey, value: &mut V| #[trigger] f.requires((key, value)),
        ensures
            final(self)@.dom().subset_of(old(self)@.dom()),
            forall|k: Seq<u8>| #[trigger]
                old(self)@.contains_key(k) ==> exists|key: DHTRecordKey, value: &mut V, keep: bool|
                    {
                        &&& key@ == k
                        &&& *value == old(self)@[k]
                        &&& #[trigger] f.ensures((&key, value), keep)
                        &&& lookup(final(self)@, k) == if keep {
                            Some(*final(value))
                        } else {
                            None
                        }
                    },
    {
        proof {
            use_type_invariant(&*self);
            lemma_indexed(self.index@, self.key_seq());
            lemma_spelled(self.key_seq(), self.values@);
        }
        let ghost predicate = f;
        let mut f = f;
        let mut taken: KeyMap<V> = KeyMap::new();
        std::mem::swap(&mut taken, self);
        let KeyMap { index: _, mut keys, mut values } = taken;
        let ghost all_keys = bytes_of(keys@);
        let ghost all_values = values@;
        let mut kept_index: StringHashMap<usize> = StringHashMap::new();
        let mut kept_keys: Vec<DHTRecordKey> = Vec::new();
        let mut kept_values: Vec<V> = Vec::new();
        while keys.len() > 0
            invariant
                f == predicate,
                forall|key: &DHTRecordKey, value: &mut V| #[trigger] f.requires((key, value)),
                all_keys.len() == all_values.len(),
                all_keys.no_duplicates(),
                keys@.len() == values@.len() <= all_keys.len(),
                bytes_of(keys@) == all_keys.take(keys@.len() as int),
                values@ == all_values.take(values@.len() as int),
                kept_keys@.len() == kept_values@.len(),
                indexed(kept_index@, bytes_of(kept_keys@)),
                forall|k: Seq<u8>| #[trigger]
                    bytes_of(kept_keys@).contains(k) ==> all_keys.skip(
                        keys@.len() as int,
                    ).contains(k),
                forall|j: int|
                    #![trigger all_keys[j]]
                    keys@.len() <= j < all_keys.len() ==> exists|
                        key: DHTRecordKey,
                        value: &mut V,
                        keep: bool,
                    |
                        {
                            &&& key@ == all_keys[j]
                            &&& *value == all_values[j]
                            &&& #[trigger] f.ensures((&key, value), keep)
                            &&& lookup(
                                spelled(bytes_of(kept_keys@), kept_values@),
                                all_keys[j],
                            ) == if keep {
                                Some(*final(value))
                            } else {
                                None
                            }
                        },
            decreases keys@.len(),
        {
            let ghost n = keys@.len() - 1;
            let ghost before_keys = bytes_of(kept_keys@);
            let ghost before_values = kept_values@;
            let key = keys.pop().unwrap();
            let mut value = values.pop().unwrap();
            assert(key@ == all_keys[n]) by {
                assert(bytes_of(keys@.push(key))[n] == all_keys.take(n + 1)[n]);
            }
            assert(value == all_values[n]);
            assert(bytes_of(keys@) =~= all_keys.take(n));
            assert(!before_keys.contains(all_keys[n])) by {
                if before_keys.contains(all_keys[n]) {
                    let j = all_keys.skip(n + 1).index_of(all_keys[n]);
                    assert(all_keys[n + 1 + j] == all_keys[n]);
                }
            }
            let keep = f(&key, &mut value);
            if keep {
                proof {
                    lemma_indexed(kept_index@, before_keys);
                    lemma_push(before_keys, before_values, key@, value);
                }
                push_entry(&mut kept_index, &mut kept_keys, key);
                kept_values.push(value);
            }
            assert forall|k: Seq<u8>| #[trigger] bytes_of(kept_keys@).contains(k) implies all_keys.skip(
                n,
            ).contains(k) by {
                if before_keys.contains(k) {
                    let j = all_keys.skip(n + 1).index_of(k);
                    assert(all_keys.skip(n)[j + 1] == k);
                } else {
                    assert(all_keys.skip(n)[0] == k);
                }
            }
        }
        *self = KeyMap { index: kept_index, keys: kept_keys, values: kept_values };
        proof {
            lemma_indexed(kept_index@, bytes_of(kept_keys@));
            lemma_spelled(bytes_of(kept_keys@), kept_values@);
            lemma_spelled(all_keys, all_values);
            assert(all_keys.skip(0) =~= all_keys);
            assert forall|k: Seq<u8>| #[trigger] old(self)@.contains_key(k) implies exists|
                key: DHTRecordKey,
                value: &mut V,
                keep: bool,
            |
                {
                    &&& key@ == k
                    &&& *value == old(self)@[k]
                    &&& #[trigger] f.ensures((&key, value), keep)
                    &&& lookup(self@, k) == if keep {
                        Some(*final(value))
                    } else {
                        None
                    }
                } by {
                let j = all_keys.index_of(k);
                assert(all_keys[j] == k);
            }
        }
    }

    /// Gives back what memory the entries do not need, and changes no entry. How much memory that is
    /// depends on the allocator, so the contract says nothing of it.
    pub fn shrink_to_fit(&mut self)
        ensures
            final(self)@ == old(self)@,
    {
        proof {
            use_type_invariant(&*self);
            lemma_indexed(self.index@, self.key_seq());
        }
        let mut taken: KeyMap<V> = KeyMap::new();
        std::mem::swap(&mut taken, self);
        let KeyMap { index: _, mut keys, mut values } = taken;
        shrink_vec(&mut keys);
        shrink_vec(&mut values);
        let index = index_of_keys(&keys);
        *self = KeyMap { index, keys, values };
    }
}

/// What is looked up under a key is the value of that key, and nothing where there is none.
pub proof fn law_lookup_finds_the_value<V>(map: Map<Seq<u8>, V>, k: Seq<u8>)
    ensures
        map.contains_key(k) ==> lookup(map, k) == Some(map[k]),
        !map.contains_key(k) ==> lookup(map, k) == None::<V>,
{
}

/// A list of what a map holds has as many values as the map has keys: every value of the map is in
/// it, and it holds no other.
pub proof fn law_every_value_is_listed<V>(values: Seq<V>, map: Map<Seq<u8>, V>)
    requires
        lists_values(values, map),
    ensures
        map.dom().finite(),
        values.len() == map.dom().len(),
        forall|k: Seq<u8>| #[trigger] map.contains_key(k) ==> values.contains(map[k]),
        forall|i: int| 0 <= i < values.len() ==> map.contains_value(#[trigger] values[i]),
        exists|keys: Seq<Seq<u8>>|
            {
                &&& #[trigger] keys.no_duplicates()
                &&& keys.len() == values.len()
                &&& forall|i: int|
                    0 <= i < keys.len() ==> map.contains_key(#[trigger] keys[i]) && map[keys[i]]
                        == values[i]
            },
{
    let keys = choose|keys: Seq<Seq<u8>>| #[trigger] lists_entries(keys, values, map);
    assert(map.dom() =~= keys.to_set());
    keys.unique_seq_to_set();
    assert(keys.no_duplicates());
    assert forall|i: int| 0 <= i < keys.len() implies map.contains_key(#[trigger] keys[i]) by {
        assert(keys.contains(keys[i]));
    }
    assert forall|k: Seq<u8>| #[trigger] map.contains_key(k) implies values.contains(map[k]) by {
        let i = keys.index_of(k);
        assert(keys[i] == k);
        assert(values[i] == map[k]);
    }
    assert forall|i: int| 0 <= i < values.len() implies map.contains_value(#[trigger] values[i]) by {
        assert(keys.contains(keys[i]));
        assert(map.dom().contains(keys[i]) && map[keys[i]] == values[i]);
    }
}

} // verus!
