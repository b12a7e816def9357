use crate::models::snowflake::SnowflakeId;
use std::collections::hash_map::Entry;
use std::collections::HashMap;
use vstd::prelude::*;
use vstd::std_specs::hash::*;
use vstd::std_specs::iter::IteratorSpec;

verus! {

broadcast use vstd::std_specs::hash::group_hash_axioms;

/// A table of items, each under an identifier of its own: a hash map keyed
/// by the identifier's number.
pub struct IdMap<T> {
    map: HashMap<u64, T>,
}

/// A map keyed by numbers, read as a map keyed by the identifiers that the
/// numbers stand for.
pub open spec fn spec_keyed<T>(raw: Map<u64, T>) -> Map<SnowflakeId, T> {
    Map::new(
        |key: SnowflakeId| raw.contains_key(key.spec_as_u64()),
        |key: SnowflakeId| raw[key.spec_as_u64()],
    )
}

/// Putting an item under a number puts it under the number's identifier.
proof fn lemma_keyed_insert<T>(raw: Map<u64, T>, key: SnowflakeId, item: T)
    ensures
        spec_keyed(raw.insert(key.spec_as_u64(), item)) == spec_keyed(raw).insert(key, item),
{
    assert forall|k: SnowflakeId| #[trigger]
        spec_keyed(raw.insert(key.spec_as_u64(), item)).contains_key(k) == spec_keyed(raw).insert(
            key,
            item,
        ).contains_key(k) by {
        SnowflakeId::lemma_equal_by_value(k, key);
    }
    assert forall|k: SnowflakeId| #[trigger]
        spec_keyed(raw.insert(key.spec_as_u64(), item)).contains_key(k) implies spec_keyed(
        raw.insert(key.spec_as_u64(), item),
    )[k] == spec_keyed(raw).insert(key, item)[k] by {
        SnowflakeId::lemma_equal_by_value(k, key);
    }
    assert(spec_keyed(raw.insert(key.spec_as_u64(), item)) =~= spec_keyed(raw).insert(key, item));
}

/// Taking a number out takes its identifier out.
proof fn lemma_keyed_remove<T>(raw: Map<u64, T>, key: SnowflakeId)
    ensures
        spec_keyed(raw.remove(key.spec_as_u64())) == spec_keyed(raw).remove(key),
{
    assert forall|k: SnowflakeId| #[trigger]
        spec_keyed(raw.remove(key.spec_as_u64())).contains_key(k) == spec_keyed(raw).remove(
            key,
        ).contains_key(k) by {
        SnowflakeId::lemma_equal_by_value(k, key);
    }
    assert(spec_keyed(raw.remove(key.spec_as_u64())) =~= spec_keyed(raw).remove(key));
}

impl<T> IdMap<T> {
    /// The table: for each identifier in use, the item under it.
    pub closed spec fn view(&self) -> Map<SnowflakeId, T> {
        spec_keyed(self.map@)
    }

    /// How many identifiers are in use.
    pub closed spec fn spec_len(&self) -> nat {
        self.map@.len()
    }

    /// A table without entries.
    pub fn new() -> (table: Self)
        ensures
            table@ == Map::<SnowflakeId, T>::empty(),
    {
        let table = IdMap { map: HashMap::new() };
        assert(table@ =~= Map::<SnowflakeId, T>::empty());
        table
    }

    /// Whether an item stands under that identifier.
    pub fn contains(&self, key: &SnowflakeId) -> (found: bool)
        ensures
            found == self@.contains_key(*key),
    {
        let raw = key.as_u64();
        self.map.contains_key(&raw)
    }

    /// The item under that identifier, if there is one.
    pub fn get(&self, key: &SnowflakeId) -> (found: Option<&T>)
        ensures
            match found {
                Some(item) => self@.contains_key(*key) && *item == self@[*key],
                None => !self@.contains_key(*key),
            },
    {
        let raw = key.as_u64();
        self.map.get(&raw)
    }

    /// The item under that identifier, if there is one, to be changed where
    /// it stands: what the caller leaves in it is what the table then holds.
    pub fn get_mut(&mut self, key: &SnowflakeId) -> (found: Option<&mut T>)
        ensures
            match found {
                Some(item) => old(self)@.contains_key(*key) && *item == old(self)@[*key] && final(self)@
                    == old(self)@.insert(*key, *final(item)),
                None => !old(self)@.contains_key(*key) && final(self)@ == old(self)@,
            },
    {
        let raw = key.as_u64();
        proof {
            let before = self.map@;
            assert forall|item: T| #[trigger]
                spec_keyed(before.insert(raw, item)) == spec_keyed(before).insert(*key, item) by {
                lemma_keyed_insert(before, *key, item);
            }
        }
        match self.map.entry(raw) {
            Entry::Occupied(entry) => Some(entry.into_mut()),
            Entry::Vacant(_) => {
                assert(old(self).map@.remove(raw) =~= old(self).map@);
                None
            },
        }
    }

    /// Puts `item` under the identifier unless one stands there already;
    /// the item that stands there after that comes back: the one that was
    /// there first, or else `item`.
    pub fn insert_if_absent(&mut self, key: &SnowflakeId, item: T) -> (live: &mut T)
        ensures
            *live == spec_offer(old(self)@, *key, item)[*key],
            final(self)@ == spec_offer(old(self)@, *key, item).insert(*key, *final(live)),
    {
        let raw = key.as_u64();
        proof {
            let before = self.map@;
            assert forall|kept: T| #[trigger]
                spec_keyed(before.insert(raw, kept)) == spec_keyed(before).insert(*key, kept) by {
                lemma_keyed_insert(before, *key, kept);
            }
            assert forall|kept: T|
                spec_offer(self@, *key, item).insert(*key, kept) == #[trigger] self@.insert(*key, kept) by {
                assert(spec_offer(self@, *key, item).insert(*key, kept) =~= self@.insert(*key, kept));
            }
        }
        self.map.entry(raw).or_insert(item)
    }

    /// The item under that identifier, built by `ctor` where none stands
    /// there yet. Where `ctor` fails nothing is kept, and the next call
    /// builds anew.
    pub fn get_or_create<E, F: FnOnce() -> Result<T, E>>(&mut self, key: &SnowflakeId, ctor: F) -> (live:
        Result<&mut T, E>)
        requires
            call_requires(ctor, ()),
        ensures
            match live {
                Ok(item) => {
                    &&& if old(self)@.contains_key(*key) {
                        *item == old(self)@[*key]
                    } else {
                        call_ensures(ctor, (), Ok::<T, E>(*item))
                    }
                    &&& final(self)@ == old(self)@.insert(*key, *final(item))
                },
                Err(e) => {
                    &&& !old(self)@.contains_key(*key)
                    &&& call_ensures(ctor, (), Err::<T, E>(e))
                    &&& final(self)@ == old(self)@
                },
            },
    {
        let raw = key.as_u64();
        proof {
            let before = self.map@;
            assert forall|item: T| #[trigger]
                spec_keyed(before.insert(raw, item)) == spec_keyed(before).insert(*key, item) by {
                lemma_keyed_insert(before, *key, item);
            }
        }
        match self.map.entry(raw) {
            Entry::Occupied(entry) => Ok(entry.into_mut()),
            Entry::Vacant(entry) => {
                match ctor() {
                    Ok(item) => Ok(entry.insert(item)),
                    Err(e) => {
                        assert(old(self).map@.remove(raw) =~= old(self).map@);
                        Err(e)
                    },
                }
            },
        }
    }

    /// Drops the entry under that identifier and hands back the item that
    /// it held, if any.
    pub fn remove(&mut self, key: &SnowflakeId) -> (removed: Option<T>)
        ensures
            final(self)@ == old(self)@.remove(*key),
            match removed {
                Some(item) => old(self)@.contains_key(*key) && item == old(self)@[*key],
                None => !old(self)@.contains_key(*key),
            },
    {
        let raw = key.as_u64();
        let removed = self.map.remove(&raw);
        proof {
            lemma_keyed_remove(old(self).map@, *key);
        }
        removed
    }

    /// How many identifiers are in use.
    pub fn len(&self) -> (len: usize)
        ensures
            len == self.spec_len(),
    {
        self.map.len()
    }

    /// The identifiers in use, each once.
    pub fn keys(&self) -> (keys: Vec<SnowflakeId>)
        ensures
            keys@.no_duplicates(),
            keys@.to_set() == self@.dom(),
            keys@.len() == self.spec_len(),
    {
        let mut keys: Vec<SnowflakeId> = Vec::new();
        let ghost all = spec_keys_iter(&self.map).remaining();
        for raw in iter: self.map.keys()
            invariant
                iter.seq() == all,
                all == spec_keys_iter(&self.map).remaining(),
                keys@.len() == iter.index(),
                forall|j: int| 0 <= j < keys@.len() ==> (#[trigger] keys@[j]).spec_as_u64() == *all[j],
        {
            keys.push(SnowflakeId::from_u64(*raw));
        }
        proof {
            let numbers = all.unref();
            assert(numbers.len() == all.len());
            assert forall|j: int| 0 <= j < numbers.len() implies #[trigger] numbers[j] == *all[j] by {}
            assert forall|a: int, b: int| 0 <= a < keys@.len() && 0 <= b < keys@.len() && a != b implies keys@[a]
                != keys@[b] by {
                assert(numbers[a] != numbers[b]);
            }
            assert forall|k: SnowflakeId| keys@.to_set().contains(k) == self@.dom().contains(k) by {
                if keys@.to_set().contains(k) {
                    let j = choose|j: int| 0 <= j < keys@.len() && keys@[j] == k;
                    assert(numbers[j] == k.spec_as_u64());
                    assert(numbers.to_set().contains(numbers[j]));
                }
                if self@.dom().contains(k) {
                    assert(numbers.to_set().contains(k.spec_as_u64()));
                    let j = choose|j: int| 0 <= j < numbers.len() && numbers[j] == k.spec_as_u64();
                    SnowflakeId::lemma_equal_by_value(keys@[j], k);
                    assert(keys@[j] == k);
                }
            }
            assert(keys@.to_set() =~= self@.dom());
        }
        keys
    }
}

/// The table after `candidate` was offered for the identifier: it is taken
/// only where nothing stood there yet.
pub open spec fn spec_offer<T>(table: Map<SnowflakeId, T>, key: SnowflakeId, candidate: T) -> Map<
    SnowflakeId,
    T,
> {
    if table.contains_key(key) {
        table
    } else {
        table.insert(key, candidate)
    }
}

} // verus!
