//! Tables keyed by call site, on the Fx hash map.

use vstd::prelude::*;
use rustc_hash::{FxBuildHasher, FxHashMap};

verus! {

/// `rustc_hash::FxBuildHasher`, the hasher of every table here. Nothing is
/// claimed of it.
#[verifier::external_type_specification]
#[verifier::external_body]
pub struct ExFxBuildHasher(FxBuildHasher);

/// `HashMap::get` on an `FxHashMap` with `u64` keys: the value stored under
/// `key`, if there is one.
#[verifier::external_body]
pub(crate) fn fx_get<V>(map: &FxHashMap<u64, V>, key: u64) -> (found: Option<&V>)
    ensures
        found == (if map@.contains_key(key) { Some(&map@[key]) } else { None::<&V> }),
{
    map.get(&key)
}

/// `HashMap::get_mut` on an `FxHashMap` with `u64` keys: a reference to the
/// value stored under `key`, if there is one. What is written through it is
/// what the map holds under `key` afterwards; nothing else changes. A hash map
/// holds finitely many keys.
#[verifier::external_body]
pub(crate) fn fx_get_mut<V>(map: &mut FxHashMap<u64, V>, key: u64) -> (slot: Option<&mut V>)
    ensures
        match slot {
            Some(value) => old(map)@.contains_key(key) && *value == old(map)@[key]
                && final(map)@ == old(map)@.insert(key, *final(value)),
            None => !old(map)@.contains_key(key) && final(map)@ == old(map)@,
        },
        final(map)@.dom().finite(),
{
    map.get_mut(&key)
}

/// `HashMap::insert` on an `FxHashMap` with `u64` keys: afterwards the map
/// holds `value` under `key` and is otherwise unchanged; the value that was
/// there before is returned. A hash map holds finitely many keys.
#[verifier::external_body]
pub(crate) fn fx_insert<V>(map: &mut FxHashMap<u64, V>, key: u64, value: V) -> (before: Option<V>)
    ensures
        final(map)@ == old(map)@.insert(key, value),
        before == (if old(map)@.contains_key(key) { Some(old(map)@[key]) } else { None::<V> }),
        final(map)@.dom().finite(),
{
    map.insert(key, value)
}

/// `HashMap::keys` on an `FxHashMap` with `u64` keys, collected: every key of
/// the map once, in an order that is not specified.
#[verifier::external_body]
pub(crate) fn fx_keys<V>(map: &FxHashMap<u64, V>) -> (keys: Vec<u64>)
    ensures
        keys@.no_duplicates(),
        forall|key: u64| keys@.contains(key) <==> map@.contains_key(key),
{
    map.keys().copied().collect()
}

/// A table from call sites to values of one kind.
pub struct AnyHashMap<V> {
    inner: FxHashMap<u64, V>,
}

impl<V> View for AnyHashMap<V> {
    type V = Map<u64, V>;

    closed spec fn view(&self) -> Map<u64, V> {
        self.inner@
    }
}

impl<V: Clone> Clone for AnyHashMap<V> {
    /// A table that holds what this one holds.
    fn clone(&self) -> (table: Self)
        ensures
            table@ == self@,
    {
        Self { inner: self.inner.clone() }
    }
}

impl<V> AnyHashMap<V> {
    /// The empty table.
    pub fn default() -> (table: Self)
        ensures
            table@ == Map::<u64, V>::empty(),
    {
        Self::new(FxHashMap::default())
    }

    /// The table that holds what `val` holds.
    pub fn new(val: FxHashMap<u64, V>) -> (table: Self)
        ensures
            table@ == val@,
    {
        Self { inner: val }
    }

    /// The map underneath.
    pub fn downcast_ref(&self) -> (map: &FxHashMap<u64, V>)
        ensures
            map@ == self@,
    {
        &self.inner
    }

    /// The value stored for `site`.
    pub fn get(&self, site: u64) -> (found: Option<&V>)
        ensures
            found == (if self@.contains_key(site) { Some(&self@[site]) } else { None::<&V> }),
    {
        fx_get(&self.inner, site)
    }

    /// The slot of `site`, to be changed in place.
    pub fn get_mut(&mut self, site: u64) -> (slot: Option<&mut V>)
        ensures
            match slot {
                Some(value) => old(self)@.contains_key(site) && *value == old(self)@[site]
                    && final(self)@ == old(self)@.insert(site, *final(value)),
                None => !old(self)@.contains_key(site) && final(self)@ == old(self)@,
            },
    {
        fx_get_mut(&mut self.inner, site)
    }

    /// Stores `value` for `site`, in place of what was there.
    pub fn insert(&mut self, site: u64, value: V)
        ensures
            final(self)@ == old(self)@.insert(site, value),
    {
        let _ = fx_insert(&mut self.inner, site, value);
    }

    /// Every site that has a value, once each.
    pub fn sites(&self) -> (sites: Vec<u64>)
        ensures
            sites@.no_duplicates(),
            forall|site: u64| sites@.contains(site) <==> self@.contains_key(site),
    {
        fx_keys(&self.inner)
    }

    /// Forgets every site.
    pub fn clear(&mut self)
        ensures
            final(self)@ == Map::<u64, V>::empty(),
    {
        self.inner.clear();
    }
}

} // verus!
