use vstd::prelude::*;

verus! {

/// `x + 1` as a 64-bit counter counts: wrapping to 0 past the largest value.
pub open spec fn bump(x: u64) -> u64 {
    if x == u64::MAX {
        0
    } else {
        (x + 1) as u64
    }
}

/// `x + y` as a 64-bit counter adds: modulo 2^64.
pub open spec fn add_wrapping(x: u64, y: u64) -> u64 {
    if x + y > u64::MAX {
        (x + y - 0x1_0000_0000_0000_0000) as u64
    } else {
        (x + y) as u64
    }
}

/// One thing the metrics are told: a hit, a miss, a response time in
/// milliseconds, or the start of a new reporting period.
pub enum MetricsEvent {
    Hit,
    Miss,
    Response(u64),
    Reset,
}

/// Counts of cache hits and misses and of response times over one reporting
/// period. Each counter wraps around at 2^64.
pub struct CacheMetrics {
    pub hits: u64,
    pub misses: u64,
    pub total_response_time: u64,
    pub response_count: u64,
}

impl CacheMetrics {
    /// Every counter at zero.
    pub open spec fn zero() -> CacheMetrics {
        CacheMetrics { hits: 0, misses: 0, total_response_time: 0, response_count: 0 }
    }

    pub open spec fn is_zero(&self) -> bool {
        &&& self.hits == 0
        &&& self.misses == 0
        &&& self.total_response_time == 0
        &&& self.response_count == 0
    }

    /// The counters after one event.
    pub open spec fn after(self, e: MetricsEvent) -> CacheMetrics {
        match e {
            MetricsEvent::Hit => CacheMetrics { hits: bump(self.hits), ..self },
            MetricsEvent::Miss => CacheMetrics { misses: bump(self.misses), ..self },
            MetricsEvent::Response(ms) => CacheMetrics {
                total_response_time: add_wrapping(self.total_response_time, ms),
                response_count: bump(self.response_count),
                ..self
            },
            MetricsEvent::Reset => CacheMetrics {
                hits: 0,
                misses: 0,
                total_response_time: 0,
                response_count: 0,
            },
        }
    }

    /// Every counter at zero.
    pub fn new() -> (m: Self)
        ensures
            m.is_zero(),
    {
        CacheMetrics { hits: 0, misses: 0, total_response_time: 0, response_count: 0 }
    }

    /// Counts one answer served from the cache.
    pub fn record_hit(&mut self)
        ensures
            *final(self) == (CacheMetrics { hits: bump(old(self).hits), ..*old(self) }),
            *final(self) == old(self).after(MetricsEvent::Hit),
    {
        self.hits = self.hits.wrapping_add(1);
    }

    /// Counts one query the cache could not answer.
    pub fn record_miss(&mut self)
        ensures
            *final(self) == (CacheMetrics { misses: bump(old(self).misses), ..*old(self) }),
            *final(self) == old(self).after(MetricsEvent::Miss),
    {
        self.misses = self.misses.wrapping_add(1);
    }

    /// Adds one response time, in milliseconds.
    pub fn record_response_time(&mut self, duration_ms: u64)
        ensures
            *final(self) == (CacheMetrics {
                total_response_time: add_wrapping(old(self).total_response_time, duration_ms),
                response_count: bump(old(self).response_count),
                ..*old(self)
            }),
            *final(self) == old(self).after(MetricsEvent::Response(duration_ms)),
    {
        self.total_response_time = self.total_response_time.wrapping_add(duration_ms);
        self.response_count = self.response_count.wrapping_add(1);
    }

    /// Starts a new reporting period: every counter back to zero.
    pub fn reset(&mut self)
        ensures
            final(self).is_zero(),
            *final(self) == old(self).after(MetricsEvent::Reset),
    {
        self.hits = 0;
        self.misses = 0;
        self.total_response_time = 0;
        self.response_count = 0;
    }
}

/// The counters after a run of events, in order.
pub open spec fn replay(m: CacheMetrics, events: Seq<MetricsEvent>) -> CacheMetrics
    decreases events.len(),
{
    if events.len() == 0 {
        m
    } else {
        replay(m, events.drop_last()).after(events.last())
    }
}

/// How many hits `events` holds.
pub open spec fn hits_in(events: Seq<MetricsEvent>) -> nat
    decreases events.len(),
{
    if events.len() == 0 {
        0
    } else {
        hits_in(events.drop_last()) + if events.last() is Hit { 1nat } else { 0nat }
    }
}

/// How many misses `events` holds.
pub open spec fn misses_in(events: Seq<MetricsEvent>) -> nat
    decreases events.len(),
{
    if events.len() == 0 {
        0
    } else {
        misses_in(events.drop_last()) + if events.last() is Miss { 1nat } else { 0nat }
    }
}

/// How many response times `events` holds.
pub open spec fn responses_in(events: Seq<MetricsEvent>) -> nat
    decreases events.len(),
{
    if events.len() == 0 {
        0
    } else {
        responses_in(events.drop_last()) + if events.last() is Response { 1nat } else { 0nat }
    }
}

/// The sum of the response times `events` holds, in milliseconds.
pub open spec fn time_in(events: Seq<MetricsEvent>) -> nat
    decreases events.len(),
{
    if events.len() == 0 {
        0
    } else {
        time_in(events.drop_last()) + match events.last() {
            MetricsEvent::Response(ms) => ms as nat,
            _ => 0nat,
        }
    }
}

/// No new reporting period starts within `events`.
pub open spec fn no_reset(events: Seq<MetricsEvent>) -> bool {
    forall|i: int| 0 <= i < events.len() ==> !(#[trigger] events[i] is Reset)
}

/// The counters `m` moved on by what `events` holds, where nothing wraps.
pub open spec fn counted(m: CacheMetrics, events: Seq<MetricsEvent>) -> CacheMetrics {
    CacheMetrics {
        hits: (m.hits + hits_in(events)) as u64,
        misses: (m.misses + misses_in(events)) as u64,
        total_response_time: (m.total_response_time + time_in(events)) as u64,
        response_count: (m.response_count + responses_in(events)) as u64,
    }
}

/// Nothing `events` holds makes a counter of `m` pass its largest value.
pub open spec fn fits(m: CacheMetrics, events: Seq<MetricsEvent>) -> bool {
    &&& m.hits + hits_in(events) <= u64::MAX
    &&& m.misses + misses_in(events) <= u64::MAX
    &&& m.total_response_time + time_in(events) <= u64::MAX
    &&& m.response_count + responses_in(events) <= u64::MAX
}

/// Within one reporting period every event is counted once: each hit and
/// each miss adds one, each response time adds itself and one response, as
/// long as no counter wraps.
pub proof fn lemma_counts_add_up(m: CacheMetrics, events: Seq<MetricsEvent>)
    requires
        no_reset(events),
        fits(m, events),
    ensures
        replay(m, events) == counted(m, events),
    decreases events.len(),
{
    if events.len() > 0 {
        let init = events.drop_last();
        assert(no_reset(init)) by {
            assert forall|i: int| 0 <= i < init.len() implies !(#[trigger] init[i] is Reset) by {
                assert(init[i] == events[i]);
            }
        }
        lemma_counts_add_up(m, init);
        assert(!(events[events.len() - 1] is Reset));
    }
}

/// Running `a` then `b` is running the two one after the other.
pub proof fn lemma_replay_append(m: CacheMetrics, a: Seq<MetricsEvent>, b: Seq<MetricsEvent>)
    ensures
        replay(m, a + b) == replay(replay(m, a), b),
    decreases b.len(),
{
    if b.len() == 0 {
        assert(a + b =~= a);
    } else {
        lemma_replay_append(m, a, b.drop_last());
        assert((a + b).drop_last() =~= a + b.drop_last());
        assert((a + b).last() == b.last());
    }
}

/// Every event is counted in exactly one reporting period: whatever came
/// before the last reset, the counters read the events since it and nothing
/// else (as long as no counter wraps within the period).
pub proof fn lemma_one_period(m: CacheMetrics, before: Seq<MetricsEvent>, period: Seq<MetricsEvent>)
    requires
        no_reset(period),
        fits(CacheMetrics::zero(), period),
    ensures
        replay(m, before.push(MetricsEvent::Reset) + period) == counted(CacheMetrics::zero(), period),
{
    lemma_replay_append(m, before.push(MetricsEvent::Reset), period);
    assert(before.push(MetricsEvent::Reset).drop_last() =~= before);
    assert(replay(m, before.push(MetricsEvent::Reset)) == CacheMetrics::zero());
    lemma_counts_add_up(CacheMetrics::zero(), period);
}

/// `k` hits in a row add `k` to the hit count and leave the other counters
/// as they were, as long as the count does not wrap.
pub proof fn lemma_hits_add_up(m: CacheMetrics, k: nat)
    requires
        m.hits + k <= u64::MAX,
    ensures
        replay(m, Seq::new(k, |i: int| MetricsEvent::Hit)) == (CacheMetrics { hits: (m.hits + k) as u64, ..m }),
    decreases k,
{
    let s = Seq::new(k, |i: int| MetricsEvent::Hit);
    if k > 0 {
        let t = Seq::new((k - 1) as nat, |i: int| MetricsEvent::Hit);
        assert(s.drop_last() =~= t);
        lemma_hits_add_up(m, (k - 1) as nat);
    }
}

/// How many whole mebibytes `entry_count` entries of `entry_size` bytes take.
pub fn memory_usage_mib(entry_count: usize, entry_size: usize) -> (r: usize)
    requires
        entry_count * entry_size <= usize::MAX,
    ensures
        r == entry_count * entry_size / 1024 / 1024,
{
    (entry_count * entry_size) / 1024 / 1024
}

} // verus!
