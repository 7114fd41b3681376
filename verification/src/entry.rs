use vstd::prelude::*;
use crate::clock::unix_now;

verus! {

/// The lifetime given to an answer that holds no record.
pub const DEFAULT_TTL: u32 = 60;

/// One answer record as the cache holds it: its time to live in seconds, and
/// the record itself in wire form, carried unchanged.
#[derive(Clone, Debug, PartialEq, Eq)]
pub struct CachedRecord {
    pub ttl: u32,
    pub data: Vec<u8>,
}

/// What a cached record is: its time to live and its bytes.
pub struct RecordView {
    pub ttl: u32,
    pub data: Seq<u8>,
}

impl View for CachedRecord {
    type V = RecordView;

    open spec fn view(&self) -> RecordView {
        RecordView { ttl: self.ttl, data: self.data@ }
    }
}

/// The views of a list of records.
pub open spec fn records_view(records: Seq<CachedRecord>) -> Seq<RecordView> {
    records.map_values(|r: CachedRecord| r@)
}

/// `t` is the lifetime of an answer made of `records`: the shortest time to
/// live among them, or `DEFAULT_TTL` when there is none.
pub open spec fn is_shortest_ttl(records: Seq<RecordView>, t: u32) -> bool {
    if records.len() == 0 {
        t == DEFAULT_TTL
    } else {
        &&& exists|i: int| 0 <= i < records.len() && #[trigger] records[i].ttl == t
        &&& forall|i: int| 0 <= i < records.len() ==> t <= #[trigger] records[i].ttl
    }
}

/// The lifetime of an answer made of `records`, computed record by record.
pub open spec fn min_ttl(records: Seq<RecordView>) -> u32
    decreases records.len(),
{
    if records.len() == 0 {
        DEFAULT_TTL
    } else if records.len() == 1 {
        records[0].ttl
    } else {
        let m = min_ttl(records.drop_last());
        if records.last().ttl < m {
            records.last().ttl
        } else {
            m
        }
    }
}

/// `min_ttl` is the shortest time to live among the records, or the default
/// when there is none.
pub proof fn lemma_min_ttl_is_shortest(records: Seq<RecordView>)
    ensures
        is_shortest_ttl(records, min_ttl(records)),
    decreases records.len(),
{
    if records.len() > 1 {
        let init = records.drop_last();
        lemma_min_ttl_is_shortest(init);
        let m = min_ttl(init);
        let w = choose|i: int| 0 <= i < init.len() && #[trigger] init[i].ttl == m;
        assert(records[w].ttl == init[w].ttl);
        assert(records[records.len() - 1].ttl == records.last().ttl);
        assert forall|i: int| 0 <= i < records.len() implies min_ttl(records) <= #[trigger] records[i].ttl by {
            if i < records.len() - 1 {
                assert(records[i].ttl == init[i].ttl);
            }
        }
    } else if records.len() == 1 {
        assert(records[0].ttl == min_ttl(records));
    }
}

/// How old an entry saved at `saved_at` is at `now`, in seconds. When the
/// clock reads earlier than `saved_at` the difference wraps around, as
/// unsigned 64-bit subtraction does, and the entry counts as very old.
pub open spec fn age(now: u64, saved_at: u64) -> int {
    if now >= saved_at {
        now - saved_at
    } else {
        now - saved_at + 0x1_0000_0000_0000_0000
    }
}

/// An answer in the cache, with when it was saved and how it has been used.
#[derive(Clone, Debug)]
pub struct CacheEntry {
    pub records: Vec<CachedRecord>,
    pub saved_at: u64,
    pub access_count: u64,
    pub last_access: u64,
    pub shortest_ttl: u32,
}

/// What a cache entry is, in plain values.
pub struct EntryView {
    pub records: Seq<RecordView>,
    pub saved_at: u64,
    pub access_count: u64,
    pub last_access: u64,
    pub shortest_ttl: u32,
}

impl View for CacheEntry {
    type V = EntryView;

    open spec fn view(&self) -> EntryView {
        EntryView {
            records: records_view(self.records@),
            saved_at: self.saved_at,
            access_count: self.access_count,
            last_access: self.last_access,
            shortest_ttl: self.shortest_ttl,
        }
    }
}

impl EntryView {
    /// The entry has outlived its shortest time to live at `now`.
    pub open spec fn expired_at(self, now: u64) -> bool {
        age(now, self.saved_at) > self.shortest_ttl
    }

    /// A fresh entry for `records`, saved and first used at `now`.
    pub open spec fn created(records: Seq<RecordView>, now: u64) -> EntryView {
        EntryView {
            records,
            saved_at: now,
            access_count: 1,
            last_access: now,
            shortest_ttl: min_ttl(records),
        }
    }

    /// The entry after one more use at `now`: the count goes up by one
    /// (wrapping at 2^64), and the last use is `now`.
    pub open spec fn accessed(self, now: u64) -> EntryView {
        EntryView {
            access_count: if self.access_count == u64::MAX { 0 } else { (self.access_count + 1) as u64 },
            last_access: now,
            ..self
        }
    }
}

/// Once expired, an entry stays expired as the clock moves on (until it
/// wraps around 2^64 seconds).
pub proof fn lemma_expiry_is_lasting(e: EntryView, t1: u64, t2: u64)
    requires
        e.saved_at <= t1 <= t2,
        e.expired_at(t1),
    ensures
        e.expired_at(t2),
{
}

/// An entry is never expired at the moment it is created.
pub proof fn lemma_created_is_fresh(records: Seq<RecordView>, now: u64)
    ensures
        !EntryView::created(records, now).expired_at(now),
{
}

/// An entry expires exactly when more seconds than its shortest time to live
/// have passed since it was saved: `d` seconds after `saved_at` it is expired
/// if and only if `d` exceeds that time to live.
pub proof fn lemma_expired_exactly_after_ttl(e: EntryView, d: nat)
    requires
        e.saved_at + d <= u64::MAX,
    ensures
        e.expired_at((e.saved_at + d) as u64) <==> d > e.shortest_ttl,
{
}

/// A new entry for `records` saved at `t` is still fresh `d` seconds later
/// exactly when no record's time to live is shorter than `d`; an entry
/// without records stays fresh for `DEFAULT_TTL` seconds.
pub proof fn lemma_created_lives_as_long_as_every_record(records: Seq<RecordView>, t: u64, d: nat)
    requires
        t + d <= u64::MAX,
    ensures
        !EntryView::created(records, t).expired_at((t + d) as u64) <==> if records.len() == 0 {
            d <= 60
        } else {
            forall|i: int| 0 <= i < records.len() ==> d <= #[trigger] records[i].ttl
        },
{
    lemma_min_ttl_is_shortest(records);
    if records.len() > 0 {
        let m = min_ttl(records);
        if d <= m {
            assert forall|i: int| 0 <= i < records.len() implies d <= #[trigger] records[i].ttl by {}
        } else {
            let w = choose|i: int| 0 <= i < records.len() && #[trigger] records[i].ttl == m;
            assert(!(d <= records[w].ttl));
        }
    }
}

impl CachedRecord {
    /// A copy of this record.
    pub fn duplicate(&self) -> (r: CachedRecord)
        ensures
            r@ == self@,
    {
        let mut data: Vec<u8> = Vec::with_capacity(self.data.len());
        let mut i: usize = 0;
        while i < self.data.len()
            invariant
                i <= self.data@.len(),
                data@ =~= self.data@.take(i as int),
            decreases self.data@.len() - i,
        {
            data.push(self.data[i]);
            i = i + 1;
        }
        assert(data@ =~= self.data@);
        CachedRecord { ttl: self.ttl, data }
    }
}

/// A copy of a list of records.
pub fn duplicate_records(records: &Vec<CachedRecord>) -> (r: Vec<CachedRecord>)
    ensures
        records_view(r@) == records_view(records@),
{
    let mut out: Vec<CachedRecord> = Vec::with_capacity(records.len());
    let mut i: usize = 0;
    while i < records.len()
        invariant
            i <= records@.len(),
            out@.len() == i,
            forall|j: int| 0 <= j < i ==> (#[trigger] out@[j])@ == records@[j]@,
        decreases records@.len() - i,
    {
        out.push(records[i].duplicate());
        i = i + 1;
    }
    assert(records_view(out@) =~= records_view(records@));
    out
}

/// The shortest time to live among `records`, or `DEFAULT_TTL` when there is none.
pub fn shortest_ttl(records: &Vec<CachedRecord>) -> (t: u32)
    ensures
        t == min_ttl(records_view(records@)),
        is_shortest_ttl(records_view(records@), t),
{
    let ghost rv = records_view(records@);
    proof {
        lemma_min_ttl_is_shortest(rv);
    }
    if records.len() == 0 {
        return DEFAULT_TTL;
    }
    let mut best: u32 = records[0].ttl;
    let mut i: usize = 1;
    assert(rv.take(1).len() == 1 && rv.take(1)[0] == rv[0]);
    while i < records.len()
        invariant
            rv == records_view(records@),
            rv.len() == records@.len(),
            1 <= i <= records@.len(),
            best == min_ttl(rv.take(i as int)),
        decreases records@.len() - i,
    {
        assert(rv.take(i + 1).drop_last() =~= rv.take(i as int));
        assert(rv.take(i + 1).last() == rv[i as int]);
        if records[i].ttl < best {
            best = records[i].ttl;
        }
        i = i + 1;
    }
    assert(rv.take(records@.len() as int) =~= rv);
    best
}

impl CacheEntry {
    /// An entry for `records` saved at `now`: used once, at `now`, living as
    /// long as its shortest-lived record.
    pub fn new_at(records: Vec<CachedRecord>, now: u64) -> (e: CacheEntry)
        ensures
            e@ == EntryView::created(records_view(records@), now),
            is_shortest_ttl(records_view(records@), e.shortest_ttl),
    {
        let t = shortest_ttl(&records);
        CacheEntry { records, saved_at: now, access_count: 1, last_access: now, shortest_ttl: t }
    }

    /// An entry for `records` saved now, by the system clock.
    pub fn new(records: Vec<CachedRecord>) -> (e: CacheEntry)
        ensures
            e@ == EntryView::created(records_view(records@), e.saved_at),
            is_shortest_ttl(records_view(records@), e.shortest_ttl),
    {
        let now = unix_now();
        Self::new_at(records, now)
    }

    /// Notes one more use at `now`.
    pub fn access_at(&mut self, now: u64)
        ensures
            final(self)@ == old(self)@.accessed(now),
    {
        self.access_count = self.access_count.wrapping_add(1);
        self.last_access = now;
    }

    /// Notes one more use now, by the system clock.
    pub fn access(&mut self)
        ensures
            final(self)@ == old(self)@.accessed(final(self).last_access),
    {
        let now = unix_now();
        self.access_at(now);
    }

    /// Whether the entry has outlived its shortest time to live at `now`.
    pub fn is_expired_at(&self, now: u64) -> (r: bool)
        ensures
            r == self@.expired_at(now),
    {
        now.wrapping_sub(self.saved_at) > self.shortest_ttl as u64
    }

    /// Whether the entry is still within its shortest time to live at `now`.
    pub fn is_fresh_at(&self, now: u64) -> (r: bool)
        ensures
            r == !self@.expired_at(now),
    {
        !self.is_expired_at(now)
    }

    /// Whether the entry has outlived its shortest time to live now, by the
    /// system clock.
    pub fn is_expired(&self) -> (r: bool)
        ensures
            exists|now: u64| r == self@.expired_at(now),
    {
        let now = unix_now();
        self.is_expired_at(now)
    }

    /// A copy of this entry.
    pub fn duplicate(&self) -> (r: CacheEntry)
        ensures
            r@ == self@,
    {
        CacheEntry {
            records: duplicate_records(&self.records),
            saved_at: self.saved_at,
            access_count: self.access_count,
            last_access: self.last_access,
            shortest_ttl: self.shortest_ttl,
        }
    }
}

} // verus!
