use vstd::prelude::*;
use dashmap::DashMap;
use crate::entry::{CacheEntry, CachedRecord, EntryView, RecordView, records_view, duplicate_records, age, min_ttl};
use crate::metrics::CacheMetrics;
use crate::clock::unix_now;

verus! {

#[verifier::external_type_specification]
#[verifier::external_body]
#[verifier::reject_recursive_types(K)]
#[verifier::reject_recursive_types(V)]
#[verifier::reject_recursive_types(S)]
pub struct ExDashMap<K, V, S>(DashMap<K, V, S>);

/// The entries that a concurrent map of cache entries holds, keyed by the
/// text of their keys.
pub uninterp spec fn map_contents(m: DashMap<String, CacheEntry>) -> Map<Seq<char>, EntryView>;

/// The room a concurrent map of cache entries was made with: the capacity
/// it was asked for when it was created.
pub uninterp spec fn map_reserved(m: DashMap<String, CacheEntry>) -> usize;

/// `DashMap::with_capacity`: a map that holds nothing, made with room for
/// `capacity` entries. Up to `MAX_INITIAL_CAPACITY` none of the size
/// computations can overflow and panic, on 32- or 64-bit targets: the
/// capacity rounded up to the shard count (at least 4), then each shard's
/// table sized for its share.
#[verifier::external_body]
fn map_with_capacity(capacity: usize) -> (m: DashMap<String, CacheEntry>)
    requires
        capacity <= MAX_INITIAL_CAPACITY,
    ensures
        map_contents(m).is_empty(),
        map_reserved(m) == capacity,
{
    DashMap::with_capacity(capacity)
}

/// `DashMap::view` with a closure that copies the value: a copy of the entry
/// under `key`, if there is one.
#[verifier::external_body]
fn map_get(m: &DashMap<String, CacheEntry>, key: &str) -> (r: Option<CacheEntry>)
    ensures
        match r {
            Some(e) => map_contents(*m).contains_key(key@) && e@ == map_contents(*m)[key@],
            None => !map_contents(*m).contains_key(key@),
        },
{
    m.view(key, |_k, e| e.duplicate())
}

/// `DashMap::len`: how many entries the map holds.
#[verifier::external_body]
fn map_len(m: &DashMap<String, CacheEntry>) -> (n: usize)
    ensures
        n == map_contents(*m).len(),
{
    m.len()
}

/// `DashMap::capacity`: how many entries fit without reallocating, summed
/// over the shards. Each shard's table reports the entries it holds plus the
/// room left before it grows, so the sum is at least the number of entries.
/// Beyond that it depends on what the allocator gave, and nothing more is
/// claimed of it.
#[verifier::external_body]
fn map_capacity(m: &DashMap<String, CacheEntry>) -> (n: usize)
    ensures
        n >= map_contents(*m).len(),
{
    m.capacity()
}

/// The entries of `c` that have not expired at `now`.
pub open spec fn fresh_part(c: Map<Seq<char>, EntryView>, now: u64) -> Map<Seq<char>, EntryView> {
    c.filter_keys(|k: Seq<char>| !c[k].expired_at(now))
}

/// The key under which the answer to a query for `name` of type `qtype` is
/// cached: the two, joined by a slash.
pub open spec fn key_of(name: Seq<char>, qtype: Seq<char>) -> Seq<char> {
    name + "/"@ + qtype
}

/// The records the cache answers with for `key` at `now`: those of an entry
/// that has not expired; none when there is no such entry.
pub open spec fn cached_answer(c: Map<Seq<char>, EntryView>, key: Seq<char>, now: u64) -> Option<Seq<RecordView>> {
    if c.contains_key(key) && !c[key].expired_at(now) {
        Some(c[key].records)
    } else {
        None
    }
}

/// The entries after a lookup of `key` at `now`: an entry that answered is
/// marked as used; nothing else changes.
pub open spec fn after_lookup(c: Map<Seq<char>, EntryView>, key: Seq<char>, now: u64) -> Map<Seq<char>, EntryView> {
    if cached_answer(c, key, now) is Some {
        c.insert(key, c[key].accessed(now))
    } else {
        c
    }
}

/// The entries after `records` were resolved for `key` at `now`.
pub open spec fn after_store(
    c: Map<Seq<char>, EntryView>,
    key: Seq<char>,
    records: Seq<RecordView>,
    now: u64,
) -> Map<Seq<char>, EntryView> {
    c.insert(key, EntryView::created(records, now))
}

/// What is served when resolving `key` failed: the records of whatever entry
/// the cache still holds for it, expired or not; none when it holds none.
pub open spec fn stale_answer(c: Map<Seq<char>, EntryView>, key: Seq<char>) -> Seq<RecordView> {
    if c.contains_key(key) {
        c[key].records
    } else {
        Seq::empty()
    }
}

/// Read after write: once `records` are stored for `key` at `t0`, a lookup of
/// `key` at `t1` answers with exactly those records while their shortest time
/// to live has not run out since `t0`, and misses after that.
pub proof fn lemma_answer_after_store(
    c: Map<Seq<char>, EntryView>,
    key: Seq<char>,
    records: Seq<RecordView>,
    t0: u64,
    t1: u64,
)
    ensures
        cached_answer(after_store(c, key, records, t0), key, t1) == if age(t1, t0) <= min_ttl(records) {
            Some(records)
        } else {
            None
        },
{
}

/// Read after write, by elapsed time: `d` seconds after `records` were stored
/// for `key`, a lookup of `key` answers with exactly those records when no
/// record's time to live is shorter than `d` (or, with no records, when `d`
/// is at most `DEFAULT_TTL`), and misses otherwise.
pub proof fn lemma_stored_answer_served_while_every_record_lives(
    c: Map<Seq<char>, EntryView>,
    key: Seq<char>,
    records: Seq<RecordView>,
    t0: u64,
    d: nat,
)
    requires
        t0 + d <= u64::MAX,
    ensures
        cached_answer(after_store(c, key, records, t0), key, (t0 + d) as u64) == if (if records.len() == 0 {
            d <= 60
        } else {
            forall|i: int| 0 <= i < records.len() ==> d <= #[trigger] records[i].ttl
        }) {
            Some(records)
        } else {
            None
        },
{
    crate::entry::lemma_created_lives_as_long_as_every_record(records, t0, d);
}

/// A cache key spells out its query: the name, then a slash, then the type,
/// each in full.
pub proof fn lemma_key_spells_query(name: Seq<char>, qtype: Seq<char>)
    ensures
        key_of(name, qtype).len() == name.len() + 1 + qtype.len(),
        key_of(name, qtype).take(name.len() as int) == name,
        key_of(name, qtype)[name.len() as int] == '/',
        key_of(name, qtype).skip(name.len() + 1int) == qtype,
{
    reveal_strlit("/");
    let k = key_of(name, qtype);
    assert(k.take(name.len() as int) =~= name);
    assert(k.skip(name.len() + 1int) =~= qtype);
}

/// Queries for one name with different types have different keys, so one
/// type's answer is never served for another.
pub proof fn lemma_key_distinguishes_types(name: Seq<char>, q1: Seq<char>, q2: Seq<char>)
    requires
        q1 != q2,
    ensures
        key_of(name, q1) != key_of(name, q2),
{
    lemma_key_spells_query(name, q1);
    lemma_key_spells_query(name, q2);
}

/// Storing an answer for one key leaves the answers for every other key as
/// they were.
pub proof fn lemma_store_leaves_other_keys(
    c: Map<Seq<char>, EntryView>,
    key: Seq<char>,
    records: Seq<RecordView>,
    t0: u64,
    other: Seq<char>,
    t: u64,
)
    requires
        other != key,
    ensures
        cached_answer(after_store(c, key, records, t0), other, t) == cached_answer(c, other, t),
{
}

/// A lookup changes no answer: whatever key is asked afterwards, at whatever
/// time, the cache answers as it would have before. In particular a hit does
/// not prolong an entry's life.
pub proof fn lemma_lookup_changes_no_answer(
    c: Map<Seq<char>, EntryView>,
    key: Seq<char>,
    now: u64,
    other: Seq<char>,
    t: u64,
)
    ensures
        cached_answer(after_lookup(c, key, now), other, t) == cached_answer(c, other, t),
        after_lookup(c, key, now).dom() == c.dom(),
{
    assert(after_lookup(c, key, now).dom() =~= c.dom());
}

/// An entry that has expired is not served on a lookup, but when resolving
/// its key then fails, its records are served all the same.
pub proof fn lemma_expired_entry_served_on_failure(c: Map<Seq<char>, EntryView>, key: Seq<char>, now: u64)
    requires
        c.contains_key(key),
        c[key].expired_at(now),
    ensures
        cached_answer(c, key, now) is None,
        stale_answer(after_lookup(c, key, now), key) == c[key].records,
{
}

/// Cleaning up at `now` changes no answer given at `now`, and cleaning up
/// twice at the same time drops nothing more the second time.
pub proof fn lemma_cleanup_keeps_answers(c: Map<Seq<char>, EntryView>, now: u64, key: Seq<char>)
    ensures
        cached_answer(fresh_part(c, now), key, now) == cached_answer(c, key, now),
        fresh_part(fresh_part(c, now), now) == fresh_part(c, now),
{
    assert(fresh_part(fresh_part(c, now), now) =~= fresh_part(c, now));
}

/// After a cleanup at `now`, every entry left answers at `now`.
pub proof fn lemma_cleanup_leaves_only_fresh(c: Map<Seq<char>, EntryView>, now: u64, key: Seq<char>)
    requires
        fresh_part(c, now).contains_key(key),
    ensures
        cached_answer(fresh_part(c, now), key, now) == Some(c[key].records),
{
}

/// The answer cache: resolved records by query, with their lifetimes.
pub struct DnsCache {
    entries: DashMap<String, CacheEntry>,
}

/// The largest room a cache can be made with: beyond it the sizes of the
/// map's tables overflow the machine's address arithmetic.
pub const MAX_INITIAL_CAPACITY: usize = usize::MAX / 1024;

/// The key for a query for `name` of type `qtype`.
pub fn cache_key(name: &str, qtype: &str) -> (k: String)
    ensures
        k@ == key_of(name@, qtype@),
{
    let mut k = name.to_string();
    k.append("/");
    k.append(qtype);
    k
}

/// `DashMap::insert` on the cache's map: `key` now maps to `entry`; every
/// other key is left as it was, and so is the room the map was made with.
/// The cache's invariant (finitely many entries) is taken to hold after the
/// call, as it does of any map.
#[verifier::external_body]
fn map_insert(c: &mut DnsCache, key: String, entry: CacheEntry)
    ensures
        map_contents(final(c).entries) == map_contents(old(c).entries).insert(key@, entry@),
        map_reserved(final(c).entries) == map_reserved(old(c).entries),
{
    c.entries.insert(key, entry);
}

/// `DashMap::retain` on the cache's map, with a closure that keeps the
/// entries not expired at `now`: exactly those stay, and the room the map was
/// made with is left as it was. The cache's invariant (finitely many entries)
/// is taken to hold after the call, as it does of any map.
#[verifier::external_body]
fn map_retain_fresh(c: &mut DnsCache, now: u64)
    ensures
        map_contents(final(c).entries) == fresh_part(map_contents(old(c).entries), now),
        map_reserved(final(c).entries) == map_reserved(old(c).entries),
{
    c.entries.retain(|_k, e| e.is_fresh_at(now));
}

impl DnsCache {
    /// The entries, by key.
    pub closed spec fn contents(&self) -> Map<Seq<char>, EntryView> {
        map_contents(self.entries)
    }

    /// The cache holds finitely many entries.
    #[verifier::type_invariant]
    closed spec fn wf(&self) -> bool {
        self.contents().dom().finite()
    }

    /// The room the cache was made with.
    pub closed spec fn initial_capacity(&self) -> usize {
        map_reserved(self.entries)
    }

    /// An empty cache made with room for `initial_capacity` entries.
    pub fn new(initial_capacity: usize) -> (c: Self)
        requires
            initial_capacity <= MAX_INITIAL_CAPACITY,
        ensures
            c.contents() == Map::<Seq<char>, EntryView>::empty(),
            c.initial_capacity() == initial_capacity,
    {
        let c = DnsCache { entries: map_with_capacity(initial_capacity) };
        c
    }

    /// How many entries the cache holds.
    pub fn len(&self) -> (n: usize)
        ensures
            n == self.contents().len(),
    {
        map_len(&self.entries)
    }

    /// How many entries fit without reallocating: at least as many as the
    /// cache holds.
    pub fn capacity(&self) -> (n: usize)
        ensures
            n >= self.contents().len(),
    {
        map_capacity(&self.entries)
    }

    /// Looks `key` up at `now`. An entry that has not expired answers: it is
    /// marked as used (its lifetime does not change), the hit is counted, and
    /// a copy of its records is returned. Otherwise the miss is counted and
    /// nothing is returned, and the entries are left as they were.
    pub fn lookup_at(&mut self, metrics: &mut CacheMetrics, key: &str, now: u64) -> (r: Option<Vec<CachedRecord>>)
        ensures
            final(self).initial_capacity() == old(self).initial_capacity(),
            final(self).contents() == after_lookup(old(self).contents(), key@, now),
            match r {
                Some(records) => cached_answer(old(self).contents(), key@, now) == Some(records_view(records@)),
                None => cached_answer(old(self).contents(), key@, now) is None,
            },
            cached_answer(old(self).contents(), key@, now) is Some ==> *final(metrics) == (CacheMetrics {
                hits: crate::metrics::bump(old(metrics).hits),
                ..*old(metrics)
            }),
            cached_answer(old(self).contents(), key@, now) is None ==> *final(metrics) == (CacheMetrics {
                misses: crate::metrics::bump(old(metrics).misses),
                ..*old(metrics)
            }),
    {
        match map_get(&self.entries, key) {
            Some(mut entry) => {
                if entry.is_fresh_at(now) {
                    entry.access_at(now);
                    metrics.record_hit();
                    let records = duplicate_records(&entry.records);
                    map_insert(self, key.to_string(), entry);
                    return Some(records);
                }
            },
            None => {},
        }
        metrics.record_miss();
        None
    }

    /// Finishes a query for `key` at `now` after the cache missed.
    /// When resolution gave `records`, they are cached as a new entry saved at
    /// `now` and returned. When it failed (`None`), whatever entry the cache
    /// still holds for `key` is served, expired or not, and the entries are
    /// left as they were; with no entry, the answer is empty.
    pub fn complete_at(&mut self, key: String, resolved: Option<Vec<CachedRecord>>, now: u64) -> (r: Vec<CachedRecord>)
        ensures
            final(self).initial_capacity() == old(self).initial_capacity(),
            match resolved {
                Some(records) => {
                    &&& final(self).contents() == after_store(old(self).contents(), key@, records_view(records@), now)
                    &&& records_view(r@) == records_view(records@)
                },
                None => {
                    &&& final(self).contents() == old(self).contents()
                    &&& records_view(r@) == stale_answer(old(self).contents(), key@)
                },
            },
    {
        match resolved {
            Some(records) => {
                let entry = CacheEntry::new_at(duplicate_records(&records), now);
                map_insert(self, key, entry);
                records
            },
            None => {
                match map_get(&self.entries, key.as_str()) {
                    Some(entry) => entry.records,
                    None => {
                        let empty: Vec<CachedRecord> = Vec::new();
                        assert(records_view(empty@) =~= Seq::<RecordView>::empty());
                        empty
                    },
                }
            },
        }
    }

    /// Drops every entry that has expired at `now` and keeps the others;
    /// returns how many were dropped.
    pub fn cleanup_at(&mut self, now: u64) -> (removed: usize)
        ensures
            final(self).initial_capacity() == old(self).initial_capacity(),
            final(self).contents() == fresh_part(old(self).contents(), now),
            removed == old(self).contents().len() - final(self).contents().len(),
    {
        proof {
            use_type_invariant(&*self);
        }
        let before = map_len(&self.entries);
        map_retain_fresh(self, now);
        let after = map_len(&self.entries);
        proof {
            let c = old(self).contents();
            let p = |k: Seq<char>| !c[k].expired_at(now);
            assert(self.contents().dom() =~= c.dom().filter(p));
            c.dom().lemma_len_filter(p);
        }
        before - after
    }
    /// `lookup_at` at the present time, by the system clock.
    pub fn lookup(&mut self, metrics: &mut CacheMetrics, key: &str) -> (r: Option<Vec<CachedRecord>>)
        ensures
            final(self).initial_capacity() == old(self).initial_capacity(),
            exists|now: u64| {
                &&& final(self).contents() == after_lookup(old(self).contents(), key@, now)
                &&& match r {
                    Some(records) => cached_answer(old(self).contents(), key@, now) == Some(records_view(records@)),
                    None => cached_answer(old(self).contents(), key@, now) is None,
                }
            },
            r is Some ==> *final(metrics) == (CacheMetrics {
                hits: crate::metrics::bump(old(metrics).hits),
                ..*old(metrics)
            }),
            r is None ==> *final(metrics) == (CacheMetrics {
                misses: crate::metrics::bump(old(metrics).misses),
                ..*old(metrics)
            }),
    {
        let now = unix_now();
        self.lookup_at(metrics, key, now)
    }

    /// `complete_at` at the present time, by the system clock.
    pub fn complete(&mut self, key: String, resolved: Option<Vec<CachedRecord>>) -> (r: Vec<CachedRecord>)
        ensures
            final(self).initial_capacity() == old(self).initial_capacity(),
            match resolved {
                Some(records) => {
                    &&& exists|now: u64| final(self).contents() == after_store(old(self).contents(), key@, records_view(records@), now)
                    &&& records_view(r@) == records_view(records@)
                },
                None => {
                    &&& final(self).contents() == old(self).contents()
                    &&& records_view(r@) == stale_answer(old(self).contents(), key@)
                },
            },
    {
        let now = unix_now();
        self.complete_at(key, resolved, now)
    }

    /// `cleanup_at` at the present time, by the system clock.
    pub fn cleanup(&mut self) -> (removed: usize)
        ensures
            final(self).initial_capacity() == old(self).initial_capacity(),
            exists|now: u64| final(self).contents() == fresh_part(old(self).contents(), now),
            removed == old(self).contents().len() - final(self).contents().len(),
    {
        let now = unix_now();
        self.cleanup_at(now)
    }
}

} // verus!
