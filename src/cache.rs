//! Reverse-name cache: remembers the outcome of a reverse lookup for each
//! address, failed lookups included, until a fixed time-to-live has passed.
use crate::clock::{clock_origin, millis_since};
use crate::table::{KeepRule, KeyedTable};
use std::time::Instant;
use vstd::prelude::*;

verus! {

/// What the cache holds for one address.
pub struct CacheEntry {
    /// The name found, or `None` when the lookup found none.
    pub value: Option<String>,
    /// Clock reading, in milliseconds, from which the entry no longer counts.
    pub expires_at: u64,
}

/// The answer of the cache for one address.
#[derive(Debug, PartialEq, Eq)]
pub enum CacheLookup {
    /// No live entry: the address has to be looked up.
    Absent,
    /// A live entry, holding the name or `None` for a failed lookup.
    Present(Option<String>),
}

/// `now + ttl`, held at the largest clock reading.
pub open spec fn expiry(now: u64, ttl: u64) -> u64 {
    if now + ttl <= u64::MAX {
        (now + ttl) as u64
    } else {
        u64::MAX
    }
}

/// The entry that an insertion at `now` files.
pub open spec fn fresh_entry(value: Option<String>, now: u64, ttl: u64) -> CacheEntry {
    CacheEntry { value, expires_at: expiry(now, ttl) }
}

/// An entry counts while the clock is strictly before its expiry.
pub open spec fn is_live(e: CacheEntry, now: u64) -> bool {
    now < e.expires_at
}

/// What a lookup of `key` at `now` answers on the entries `m`.
pub open spec fn lookup(m: Map<Seq<char>, CacheEntry>, key: Seq<char>, now: u64) -> CacheLookup {
    if m.contains_key(key) && is_live(m[key], now) {
        CacheLookup::Present(m[key].value)
    } else {
        CacheLookup::Absent
    }
}

/// The entries of `m` that are still live at `now`.
pub open spec fn live_part(m: Map<Seq<char>, CacheEntry>, now: u64) -> Map<Seq<char>, CacheEntry> {
    Map::new(|k: Seq<char>| m.contains_key(k) && is_live(m[k], now), |k: Seq<char>| m[k])
}

/// Keeps the entries that are live at a given clock reading.
struct LiveAt {
    now: u64,
}

impl KeepRule<CacheEntry> for LiveAt {
    closed spec fn keeps(&self, v: &CacheEntry) -> bool {
        is_live(*v, self.now)
    }

    fn test(&self, v: &CacheEntry) -> (r: bool) {
        self.now < v.expires_at
    }
}

fn copy_name(v: &Option<String>) -> (r: Option<String>)
    ensures
        r == *v,
{
    match v {
        Some(s) => Some(s.clone()),
        None => None,
    }
}

/// Cache of reverse lookups, keyed by address text.
pub struct DnsCache {
    entries: KeyedTable<CacheEntry>,
    ttl: u64,
    origin: Instant,
}

impl View for DnsCache {
    type V = Map<Seq<char>, CacheEntry>;

    closed spec fn view(&self) -> Map<Seq<char>, CacheEntry> {
        self.entries@
    }
}

impl DnsCache {
    pub closed spec fn wf(&self) -> bool {
        self.entries.wf()
    }

    /// Time-to-live of every entry, in milliseconds.
    pub closed spec fn ttl(&self) -> u64 {
        self.ttl
    }

    /// An empty cache whose entries live for `ttl_ms` milliseconds.
    pub fn new(ttl_ms: u64) -> (r: Self)
        ensures
            r.wf(),
            r@ == Map::<Seq<char>, CacheEntry>::empty(),
            r.ttl() == ttl_ms,
    {
        DnsCache { entries: KeyedTable::new(), ttl: ttl_ms, origin: clock_origin() }
    }

    /// The answer for `key` at clock reading `now`: the entry's value when an
    /// entry exists and has not expired, otherwise `Absent`.
    pub fn get_at(&self, key: &str, now: u64) -> (r: CacheLookup)
        requires
            self.wf(),
        ensures
            r == lookup(self@, key@, now),
    {
        let k = key.to_owned();
        match self.entries.get(&k) {
            Some(e) => {
                if now < e.expires_at {
                    CacheLookup::Present(copy_name(&e.value))
                } else {
                    CacheLookup::Absent
                }
            },
            None => CacheLookup::Absent,
        }
    }

    /// Files `value` under `key` at clock reading `now`, replacing any entry
    /// there; it expires `ttl` milliseconds later.
    pub fn insert_at(&mut self, key: String, value: Option<String>, now: u64)
        requires
            old(self).wf(),
        ensures
            final(self).wf(),
            final(self).ttl() == old(self).ttl(),
            final(self)@ == old(self)@.insert(key@, fresh_entry(value, now, old(self).ttl())),
    {
        let expires_at = now.saturating_add(self.ttl);
        self.entries.insert(key, CacheEntry { value, expires_at });
    }

    /// Drops every entry that has expired at clock reading `now`.
    pub fn cleanup_at(&mut self, now: u64)
        requires
            old(self).wf(),
        ensures
            final(self).wf(),
            final(self).ttl() == old(self).ttl(),
            final(self)@ == live_part(old(self)@, now),
    {
        let rule = LiveAt { now };
        self.entries.retain(&rule);
        proof {
            assert(self@ =~= live_part(old(self)@, now));
        }
    }

    /// The number of entries held, expired ones not yet dropped included.
    pub fn size(&self) -> (r: usize)
        requires
            self.wf(),
        ensures
            r == self@.len(),
    {
        self.entries.len()
    }

    /// The answer for `key` now.
    pub fn get(&self, key: &str) -> (r: CacheLookup)
        requires
            self.wf(),
        ensures
            exists|now: u64| r == lookup(self@, key@, now),
    {
        let now = millis_since(&self.origin);
        self.get_at(key, now)
    }

    /// Files `value` under `key` now.
    pub fn insert(&mut self, key: String, value: Option<String>)
        requires
            old(self).wf(),
        ensures
            final(self).wf(),
            final(self).ttl() == old(self).ttl(),
            exists|now: u64|
                final(self)@ == old(self)@.insert(key@, fresh_entry(value, now, old(self).ttl())),
    {
        let now = millis_since(&self.origin);
        self.insert_at(key, value, now);
    }

    /// Drops every entry that has expired now.
    pub fn cleanup(&mut self)
        requires
            old(self).wf(),
        ensures
            final(self).wf(),
            final(self).ttl() == old(self).ttl(),
            exists|now: u64| final(self)@ == live_part(old(self)@, now),
    {
        let now = millis_since(&self.origin);
        self.cleanup_at(now);
    }
}

/// An entry filed at `t0` answers with its value at every reading before
/// `t0 + ttl` and is absent from then on, with no sweep needed.
pub proof fn lemma_lookup_after_insert(
    m: Map<Seq<char>, CacheEntry>,
    key: Seq<char>,
    value: Option<String>,
    t0: u64,
    ttl: u64,
    t: u64,
)
    requires
        t0 + ttl <= u64::MAX,
    ensures
        lookup(m.insert(key, fresh_entry(value, t0, ttl)), key, t) == (if t < t0 + ttl {
            CacheLookup::Present(value)
        } else {
            CacheLookup::Absent
        }),
{
}

/// A second insertion under the same key replaces the first one: the value
/// and the expiry are those of the second insertion.
pub proof fn lemma_insert_overwrites(
    m: Map<Seq<char>, CacheEntry>,
    key: Seq<char>,
    v1: Option<String>,
    t1: u64,
    v2: Option<String>,
    t2: u64,
    ttl: u64,
    t: u64,
)
    requires
        t2 + ttl <= u64::MAX,
    ensures
        m.insert(key, fresh_entry(v1, t1, ttl)).insert(key, fresh_entry(v2, t2, ttl)) == m.insert(
            key,
            fresh_entry(v2, t2, ttl),
        ),
        lookup(m.insert(key, fresh_entry(v1, t1, ttl)).insert(key, fresh_entry(v2, t2, ttl)), key, t)
            == (if t < t2 + ttl {
            CacheLookup::Present(v2)
        } else {
            CacheLookup::Absent
        }),
{
    assert(m.insert(key, fresh_entry(v1, t1, ttl)).insert(key, fresh_entry(v2, t2, ttl)) =~= m.insert(
        key,
        fresh_entry(v2, t2, ttl),
    ));
}

/// After a sweep at `now`, the cache holds exactly the entries whose expiry
/// lies after `now`.
pub proof fn lemma_cleanup_size(m: Map<Seq<char>, CacheEntry>, now: u64)
    requires
        m.dom().finite(),
    ensures
        live_part(m, now).dom() == m.dom().filter(|k: Seq<char>| now < m[k].expires_at),
        live_part(m, now).len() == m.dom().filter(|k: Seq<char>| now < m[k].expires_at).len(),
{
    assert(live_part(m, now).dom() =~= m.dom().filter(|k: Seq<char>| now < m[k].expires_at));
}

} // verus!
