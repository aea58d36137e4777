//! A map whose entries expire a fixed time after they were written.

use std::collections::HashMap;
use std::hash::Hash;
use vstd::prelude::*;
use vstd::std_specs::hash::obeys_key_model;
use crate::clock::{instant_now, nanos_since};

verus! {

broadcast use vstd::std_specs::hash::group_hash_axioms;

/// A stored value with the clock reading (nanoseconds since the cache was
/// made) from which on it no longer counts.
struct CacheEntry<V> {
    value: V,
    expires_at: u64,
}

impl<V> CacheEntry<V> {
    /// Whether the entry still counts at clock reading `now`.
    spec fn live_at(&self, now: u64) -> bool {
        now < self.expires_at
    }

    /// Whether the entry still counts at clock reading `now`.
    fn is_live(&self, now: u64) -> (b: bool)
        ensures
            b == self.live_at(now),
    {
        now < self.expires_at
    }
}

/// The expiry reading of an entry written at `now` with time-to-live `ttl`;
/// a sum past the end of the clock's range stays at its largest reading.
pub open spec fn expiry(now: u64, ttl: u64) -> u64 {
    if now + ttl > u64::MAX { u64::MAX } else { (now + ttl) as u64 }
}

/// Calls `HashMap::retain` with a predicate that keeps the entries live at
/// `now`. The standard library documents that `retain` keeps exactly the
/// pairs for which the predicate holds and leaves them unchanged.
#[verifier::external_body]
fn retain_live<K: Eq + Hash, V>(map: &mut HashMap<K, CacheEntry<V>>, now: u64)
    ensures
        final(map)@ == old(map)@.restrict(old(map)@.dom().filter(|k: K| old(map)@[k].live_at(now))),
{
    map.retain(|_, e| e.is_live(now))
}

/// A cache of values by key, each entry counting for `ttl` nanoseconds of
/// the monotonic clock after it was written.
pub struct TtlCache<K, V> {
    inner: HashMap<K, CacheEntry<V>>,
    ttl: u64,
    origin: std::time::Instant,
    latest: u64,
}

impl<K: Eq + Hash, V: Clone> TtlCache<K, V> {
    /// Every stored entry by key: its value and its expiry reading.
    pub closed spec fn entries(&self) -> Map<K, (V, u64)> {
        self.inner@.map_values(|e: CacheEntry<V>| (e.value, e.expires_at))
    }

    /// The time-to-live in nanoseconds.
    pub closed spec fn ttl(&self) -> u64 {
        self.ttl
    }

    /// The latest clock reading the cache has worked at; the clock never
    /// goes back behind it.
    pub closed spec fn clock(&self) -> u64 {
        self.latest
    }

    /// Reads the clock: the nanoseconds since the cache was made, never
    /// behind the latest reading used.
    fn reading(&self) -> (r: u64)
        ensures
            r >= self.clock(),
    {
        let n = nanos_since(&self.origin);
        if n < self.latest {
            self.latest
        } else {
            n
        }
    }

    /// The keys whose entries count at clock reading `now`.
    pub open spec fn live_keys(&self, now: u64) -> Set<K> {
        self.entries().dom().filter(|k: K| now < self.entries()[k].1)
    }

    /// The value a lookup at clock reading `now` finds for `key`.
    pub open spec fn lookup(&self, key: K, now: u64) -> Option<V> {
        if self.entries().contains_key(key) && now < self.entries()[key].1 {
            Some(self.entries()[key].0)
        } else {
            None
        }
    }

    /// An entry written at clock reading `written` is found by a lookup at
    /// any reading from `written` until `ttl` nanoseconds later (short of the
    /// clock's last reading, where a saturated expiry lies), and by none at a
    /// reading `ttl` nanoseconds or more after it.
    pub proof fn lemma_expires_after_ttl(&self, key: K, written: u64, now: u64)
        requires
            self.entries().contains_key(key),
            self.entries()[key].1 == expiry(written, self.ttl()),
            written <= now,
        ensures
            now >= written + self.ttl() ==> self.lookup(key, now) is None,
            now < written + self.ttl() && now < u64::MAX ==> self.lookup(key, now) == Some(self.entries()[key].0),
    {
    }

    /// The key type hashes and compares consistently, and finitely many
    /// entries are stored.
    pub closed spec fn wf(&self) -> bool {
        &&& obeys_key_model::<K>()
        &&& self.entries().dom().finite()
    }

    /// An empty cache whose entries count for `ttl` nanoseconds.
    pub fn new(ttl: u64) -> (c: Self)
        requires
            obeys_key_model::<K>(),
        ensures
            c.wf(),
            c.entries() == Map::<K, (V, u64)>::empty(),
            c.ttl() == ttl,
            c.clock() == 0,
    {
        let c = TtlCache { inner: HashMap::new(), ttl, origin: instant_now(), latest: 0 };
        assert(c.entries() =~= Map::<K, (V, u64)>::empty());
        c
    }

    /// The value stored for `key` if its entry still counts at clock
    /// reading `now`, cloned.
    pub fn get_at(&self, key: &K, now: u64) -> (r: Option<V>)
        requires
            self.wf(),
        ensures
            r is Some <==> self.lookup(*key, now) is Some,
            r matches Some(v) ==> vstd::pervasive::cloned(self.entries()[*key].0, v),
    {
        match self.inner.get(key) {
            Some(entry) => {
                if entry.is_live(now) {
                    Some(entry.value.clone())
                } else {
                    None
                }
            },
            None => None,
        }
    }

    /// The value stored for `key`, cloned, if its entry has not yet expired
    /// on the clock. The clock is read at the call, never behind the latest
    /// reading the cache has worked at: an entry that expired by then is
    /// never found.
    pub fn get(&self, key: &K) -> (r: Option<V>)
        requires
            self.wf(),
        ensures
            exists|now: u64| now >= self.clock() && (r is Some <==> #[trigger] self.lookup(*key, now) is Some),
            self.entries().contains_key(*key) && self.entries()[*key].1 <= self.clock() ==> r is None,
            r matches Some(v) ==> vstd::pervasive::cloned(self.entries()[*key].0, v),
    {
        let now = self.reading();
        self.get_at(key, now)
    }

    /// Stores `value` for `key` at clock reading `now`; the entry counts
    /// until `ttl` nanoseconds later.
    pub fn set_at(&mut self, key: K, value: V, now: u64)
        requires
            old(self).wf(),
        ensures
            final(self).wf(),
            final(self).ttl() == old(self).ttl(),
            final(self).entries() == old(self).entries().insert(key, (value, expiry(now, old(self).ttl()))),
            final(self).entries().len() == old(self).entries().len() + if old(self).entries().contains_key(key) {
                0int
            } else {
                1int
            },
            final(self).clock() == if now > old(self).clock() { now } else { old(self).clock() },
    {
        if now > self.latest {
            self.latest = now;
        }
        let expires_at = now.saturating_add(self.ttl);
        self.inner.insert(key, CacheEntry { value, expires_at });
        assert(self.entries() =~= old(self).entries().insert(key, (value, expiry(now, old(self).ttl()))));
    }

    /// Stores `value` for `key`; the entry counts until `ttl` nanoseconds
    /// after now.
    pub fn set(&mut self, key: K, value: V)
        requires
            old(self).wf(),
        ensures
            final(self).wf(),
            final(self).ttl() == old(self).ttl(),
            exists|now: u64| {
                &&& now >= old(self).clock()
                &&& final(self).clock() == now
                &&& final(self).entries() == old(self).entries().insert(key, (value, #[trigger] expiry(now, old(self).ttl())))
            },
            final(self).entries().len() == old(self).entries().len() + if old(self).entries().contains_key(key) {
                0int
            } else {
                1int
            },
    {
        let now = self.reading();
        self.set_at(key, value, now);
    }

    /// Drops the entry for `key`, if any.
    pub fn invalidate(&mut self, key: &K)
        requires
            old(self).wf(),
        ensures
            final(self).wf(),
            final(self).ttl() == old(self).ttl(),
            final(self).entries() == old(self).entries().remove(*key),
            final(self).clock() == old(self).clock(),
            final(self).entries().len() == old(self).entries().len() - if old(self).entries().contains_key(*key) {
                1int
            } else {
                0int
            },
    {
        self.inner.remove(key);
        assert(self.entries() =~= old(self).entries().remove(*key));
    }

    /// Drops every entry that no longer counts at clock reading `now`.
    pub fn clear_expired_at(&mut self, now: u64)
        requires
            old(self).wf(),
        ensures
            final(self).wf(),
            final(self).ttl() == old(self).ttl(),
            final(self).entries() == old(self).entries().restrict(old(self).live_keys(now)),
            final(self).clock() == if now > old(self).clock() { now } else { old(self).clock() },
    {
        if now > self.latest {
            self.latest = now;
        }
        retain_live(&mut self.inner, now);
        assert(self.entries() =~= old(self).entries().restrict(old(self).live_keys(now)));
        assert(self.entries().dom() =~= self.inner@.dom());
    }

    /// Drops every entry that has expired on the clock.
    pub fn clear_expired(&mut self)
        requires
            old(self).wf(),
        ensures
            final(self).wf(),
            final(self).ttl() == old(self).ttl(),
            exists|now: u64| {
                &&& now >= old(self).clock()
                &&& final(self).clock() == now
                &&& final(self).entries() == old(self).entries().restrict(#[trigger] old(self).live_keys(now))
            },
    {
        let now = self.reading();
        self.clear_expired_at(now);
    }

    /// Drops every entry.
    pub fn clear(&mut self)
        requires
            old(self).wf(),
        ensures
            final(self).wf(),
            final(self).ttl() == old(self).ttl(),
            final(self).entries() == Map::<K, (V, u64)>::empty(),
            final(self).clock() == old(self).clock(),
    {
        self.inner.clear();
        assert(self.entries() =~= Map::<K, (V, u64)>::empty());
    }

    /// The number of stored entries, expired or not.
    pub fn len(&self) -> (n: usize)
        requires
            self.wf(),
        ensures
            n == self.entries().len(),
    {
        assert(self.entries().dom() =~= self.inner@.dom());
        self.inner.len()
    }
}

/// A lookup finds what was last written for a key for `ttl` nanoseconds of
/// the clock after the write, and nothing from then on.
pub proof fn lemma_read_after_write<K: Eq + Hash, V: Clone>(
    before: TtlCache<K, V>,
    after: TtlCache<K, V>,
    key: K,
    value: V,
    written: u64,
    now: u64,
)
    requires
        after.entries() == before.entries().insert(key, (value, expiry(written, before.ttl()))),
    ensures
        now < expiry(written, before.ttl()) ==> after.lookup(key, now) == Some(value),
        now >= expiry(written, before.ttl()) ==> after.lookup(key, now) is None,
{
}

/// Writing one key leaves every lookup of every other key as it was.
pub proof fn lemma_write_keeps_other_keys<K: Eq + Hash, V: Clone>(
    before: TtlCache<K, V>,
    after: TtlCache<K, V>,
    key: K,
    value: V,
    written: u64,
    other: K,
    now: u64,
)
    requires
        after.entries() == before.entries().insert(key, (value, expiry(written, before.ttl()))),
        other != key,
    ensures
        after.lookup(other, now) == before.lookup(other, now),
{
}

/// After a key is invalidated, a lookup of it finds nothing, and lookups of
/// other keys are as they were.
pub proof fn lemma_invalidate_forgets<K: Eq + Hash, V: Clone>(
    before: TtlCache<K, V>,
    after: TtlCache<K, V>,
    key: K,
    other: K,
    now: u64,
)
    requires
        after.entries() == before.entries().remove(key),
    ensures
        after.lookup(key, now) is None,
        other != key ==> after.lookup(other, now) == before.lookup(other, now),
{
}

/// Dropping the entries expired at `now` changes no lookup made at `now` or
/// later.
pub proof fn lemma_clear_expired_keeps_lookups<K: Eq + Hash, V: Clone>(
    before: TtlCache<K, V>,
    after: TtlCache<K, V>,
    now: u64,
    key: K,
    later: u64,
)
    requires
        after.entries() == before.entries().restrict(before.live_keys(now)),
        now <= later,
    ensures
        after.lookup(key, later) == before.lookup(key, later),
{
}

/// After every entry is dropped, no lookup finds anything.
pub proof fn lemma_clear_forgets_all<K: Eq + Hash, V: Clone>(after: TtlCache<K, V>, key: K, now: u64)
    requires
        after.entries() == Map::<K, (V, u64)>::empty(),
    ensures
        after.lookup(key, now) is None,
{
}

} // verus!
