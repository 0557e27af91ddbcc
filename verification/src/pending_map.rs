//! A store of values that are each taken out once, or dropped when they have
//! waited too long.
//!
//! The store keeps the channel through which the response to an inbound
//! request goes out, from the arrival of the request until the application
//! answers. It does not read a clock: every operation that needs the time is
//! told it.
use vstd::prelude::*;
use std::collections::HashMap;
use crate::time::TimeSpan;

verus! {

broadcast use vstd::std_specs::hash::group_hash_axioms;

/// The seconds between two sweeps of a store.
pub const SWEEP_INTERVAL_SECS: u64 = 10;

/// A value in the store, with the time at which it was put there.
pub struct PendingEntry<V> {
    pub value: V,
    pub created_at: TimeSpan,
}

impl<V> PendingEntry<V> {
    /// Whether the entry has waited for no longer than `ttl` at the time
    /// `now`. An entry that was made after `now` has not waited at all.
    pub open spec fn alive_at(self, now: TimeSpan, ttl: TimeSpan) -> bool {
        now.nanos <= self.created_at.nanos + ttl.nanos
    }

    /// Tests whether the entry has waited for no longer than `ttl` at the
    /// time `now`.
    pub fn is_alive(&self, now: TimeSpan, ttl: TimeSpan) -> (alive: bool)
        ensures
            alive == self.alive_at(now, ttl),
    {
        now.since(self.created_at).nanos <= ttl.nanos
    }
}

/// The entries of `entries` that are alive at the time `now`.
pub open spec fn alive_part<V>(
    entries: Map<u64, PendingEntry<V>>,
    now: TimeSpan,
    ttl: TimeSpan,
) -> Map<u64, PendingEntry<V>> {
    Map::new(|id: u64| entries.contains_key(id) && entries[id].alive_at(now, ttl), |id: u64| entries[id])
}

/// `HashMap::retain`, which keeps the entries for which the test holds and
/// drops the others. The test is whether the entry is alive.
#[verifier::external_body]
fn retain_alive<V>(entries: &mut HashMap<u64, PendingEntry<V>>, now: TimeSpan, ttl: TimeSpan)
    ensures
        final(entries)@ == alive_part(old(entries)@, now, ttl),
{
    entries.retain(|_, entry| entry.is_alive(now, ttl));
}

/// The store.
pub struct PendingMap<V> {
    inner: HashMap<u64, PendingEntry<V>>,
    ttl: TimeSpan,
}

impl<V> View for PendingMap<V> {
    type V = Map<u64, PendingEntry<V>>;

    closed spec fn view(&self) -> Map<u64, PendingEntry<V>> {
        self.inner@
    }
}

impl<V> PendingMap<V> {
    /// The time after which an entry is dropped.
    pub closed spec fn spec_ttl(&self) -> TimeSpan {
        self.ttl
    }

    /// An empty store whose entries last for `ttl`.
    pub fn new(ttl: TimeSpan) -> (map: PendingMap<V>)
        ensures
            map@ == Map::<u64, PendingEntry<V>>::empty(),
            map.spec_ttl() == ttl,
    {
        PendingMap { inner: HashMap::new(), ttl }
    }

    /// The time after which an entry is dropped.
    pub fn ttl(&self) -> (ttl: TimeSpan)
        ensures
            ttl == self.spec_ttl(),
    {
        self.ttl
    }

    /// Puts `value` under `key` at the time `now`, in place of what was there.
    pub fn insert(&mut self, key: u64, value: V, now: TimeSpan)
        ensures
            final(self)@ == old(self)@.insert(key, (PendingEntry { value, created_at: now })),
            final(self).spec_ttl() == old(self).spec_ttl(),
    {
        self.inner.insert(key, PendingEntry { value, created_at: now });
    }

    /// Takes out what is under `key`, if anything is.
    pub fn take(&mut self, key: u64) -> (value: Option<V>)
        ensures
            final(self)@ == old(self)@.remove(key),
            final(self).spec_ttl() == old(self).spec_ttl(),
            value == if old(self)@.contains_key(key) {
                Some(old(self)@[key].value)
            } else {
                None
            },
    {
        match self.inner.remove(&key) {
            Some(entry) => Some(entry.value),
            None => None,
        }
    }

    /// Takes out what is under `key`, and hands it on if it has waited for
    /// no longer than the store's time to live at the time `now`. What has
    /// waited for longer is dropped, whether a sweep has met it or not.
    pub fn take_alive(&mut self, key: u64, now: TimeSpan) -> (value: Option<V>)
        ensures
            final(self)@ == old(self)@.remove(key),
            final(self).spec_ttl() == old(self).spec_ttl(),
            value == if old(self)@.contains_key(key) && old(self)@[key].alive_at(
                now,
                old(self).spec_ttl(),
            ) {
                Some(old(self)@[key].value)
            } else {
                None
            },
    {
        match self.inner.remove(&key) {
            Some(entry) => {
                if entry.is_alive(now, self.ttl) {
                    Some(entry.value)
                } else {
                    None
                }
            },
            None => None,
        }
    }

    /// Whether something is under `key`.
    pub fn contains(&self, key: u64) -> (found: bool)
        ensures
            found == self@.contains_key(key),
    {
        self.inner.contains_key(&key)
    }

    /// The number of entries.
    pub fn len(&self) -> (n: usize)
        ensures
            n == self@.len(),
    {
        self.inner.len()
    }

    /// Whether the store is empty.
    pub fn is_empty(&self) -> (empty: bool)
        ensures
            empty == (self@.len() == 0),
    {
        self.inner.len() == 0
    }

    /// Drops the entries that have waited for longer than the store's time
    /// to live at the time `now`, and keeps the others as they are.
    pub fn sweep(&mut self, now: TimeSpan)
        ensures
            final(self)@ == alive_part(old(self)@, now, old(self).spec_ttl()),
            final(self).spec_ttl() == old(self).spec_ttl(),
    {
        retain_alive(&mut self.inner, now, self.ttl);
    }
}

/// An entry outlives every sweep that comes while its time is not up, and
/// none that comes after: of a store swept at the time `now`, the new store
/// holds `key` exactly if the old one did and the entry was put there no
/// longer than the time to live before `now`.
pub proof fn lemma_sweep_keeps_the_young<V>(
    entries: Map<u64, PendingEntry<V>>,
    key: u64,
    now: TimeSpan,
    ttl: TimeSpan,
)
    ensures
        alive_part(entries, now, ttl).contains_key(key) <==> (entries.contains_key(key)
            && now.nanos <= entries[key].created_at.nanos + ttl.nanos),
        alive_part(entries, now, ttl).contains_key(key) ==> alive_part(entries, now, ttl)[key]
            == entries[key],
{
}

/// A sweep never adds an entry, and a second sweep at the same time drops
/// nothing more.
pub proof fn lemma_sweep_shrinks<V>(entries: Map<u64, PendingEntry<V>>, now: TimeSpan, ttl: TimeSpan)
    ensures
        alive_part(entries, now, ttl).dom().subset_of(entries.dom()),
        alive_part(alive_part(entries, now, ttl), now, ttl) == alive_part(entries, now, ttl),
{
    assert(alive_part(alive_part(entries, now, ttl), now, ttl) =~= alive_part(entries, now, ttl));
}

} // verus!
