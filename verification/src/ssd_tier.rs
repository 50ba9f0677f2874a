//! Bookkeeping of the SSD prompt-cache tier: latency histograms, bytes on disk
//! and evictions.

use vstd::prelude::*;

use crate::text::str_eq;

verus! {

/// The inclusive upper bounds of the histogram buckets, in microseconds.
pub const HIST_BUCKETS_US: [u64; 9] = [
    100,
    500,
    1_000,
    5_000,
    10_000,
    50_000,
    100_000,
    500_000,
    1_000_000,
];

/// A latency histogram. Bucket `i` counts the observations of at most
/// `HIST_BUCKETS_US[i]`, so the buckets do not fall from one to the next.
#[derive(Debug, Clone, Copy)]
pub struct SsdHistogram {
    pub buckets: [u64; 9],
    /// Observations above the last bucket. They are part of `count`, which must
    /// not be raised by them a second time.
    pub count_inf_overflow: u64,
    /// The sum of all observations, in microseconds.
    pub sum_us: u64,
    /// The number of observations.
    pub count: u64,
}

/// How many observations are at most `bound`.
pub open spec fn count_upto(obs: Seq<u64>, bound: u64) -> nat
    decreases obs.len(),
{
    if obs.len() == 0 {
        0
    } else {
        count_upto(obs.drop_last(), bound) + if obs.last() <= bound {
            1nat
        } else {
            0nat
        }
    }
}

/// The sum of the observations.
pub open spec fn total(obs: Seq<u64>) -> nat
    decreases obs.len(),
{
    if obs.len() == 0 {
        0
    } else {
        total(obs.drop_last()) + obs.last() as nat
    }
}

impl SsdHistogram {
    /// Whether the histogram is what the observations make of an empty one.
    pub open spec fn records(self, obs: Seq<u64>) -> bool {
        &&& self.count == obs.len()
        &&& self.sum_us == total(obs)
        &&& forall|i: int|
            0 <= i < 9 ==> #[trigger] self.buckets@[i] == count_upto(obs, HIST_BUCKETS_US@[i])
        &&& self.count_inf_overflow == obs.len() - count_upto(obs, 1_000_000)
    }

    /// The buckets do not fall, and every observation is in the last bucket or
    /// above it.
    pub open spec fn wf(self) -> bool {
        &&& forall|i: int, j: int|
            0 <= i <= j < 9 ==> #[trigger] self.buckets@[i] <= #[trigger] self.buckets@[j]
        &&& self.count == self.buckets@[8] + self.count_inf_overflow
    }

    /// What one more observation makes of the histogram: it is counted, summed,
    /// and put into every bucket whose bound it does not exceed, or above all of
    /// them.
    pub open spec fn takes_in(self, dur_us: u64, after: SsdHistogram) -> bool {
        &&& after.count == self.count + 1
        &&& after.sum_us == self.sum_us + dur_us
        &&& forall|i: int|
            0 <= i < 9 ==> #[trigger] after.buckets@[i] == self.buckets@[i] + (if dur_us
                <= HIST_BUCKETS_US@[i] {
                1int
            } else {
                0int
            })
        &&& after.count_inf_overflow == self.count_inf_overflow + (if dur_us > 1_000_000 {
            1int
        } else {
            0int
        })
    }

    /// Takes in one observation, in microseconds.
    pub fn observe(&mut self, dur_us: u64)
        requires
            old(self).wf(),
            old(self).count < u64::MAX,
            old(self).sum_us + dur_us <= u64::MAX,
        ensures
            final(self).wf(),
            old(self).takes_in(dur_us, *final(self)),
            forall|obs: Seq<u64>|
                old(self).records(obs) ==> #[trigger] final(self).records(obs.push(dur_us)),
    {
        let les: [u64; 9] = HIST_BUCKETS_US;
        self.count = self.count + 1;
        self.sum_us = self.sum_us + dur_us;
        let mut any: bool = false;
        let mut i: usize = 0;
        while i < 9
            invariant
                i <= 9,
                les@ == HIST_BUCKETS_US@,
                old(self).wf(),
                old(self).count < u64::MAX,
                self.count == old(self).count + 1,
                self.sum_us == old(self).sum_us + dur_us,
                self.count_inf_overflow == old(self).count_inf_overflow,
                any == (i > 0 && dur_us <= les@[i - 1]),
                forall|j: int|
                    0 <= j < i ==> #[trigger] self.buckets@[j] == old(self).buckets@[j] + (
                    if dur_us <= HIST_BUCKETS_US@[j] {
                        1int
                    } else {
                        0int
                    }),
                forall|j: int| i <= j < 9 ==> #[trigger] self.buckets@[j] == old(self).buckets@[j],
            decreases 9 - i,
        {
            if dur_us <= les[i] {
                assert(old(self).buckets@[i as int] <= old(self).buckets@[8]);
                self.buckets[i] = self.buckets[i] + 1;
                any = true;
            }
            i += 1;
        }
        if !any {
            self.count_inf_overflow = self.count_inf_overflow + 1;
        }
        assert forall|obs: Seq<u64>| old(self).records(obs) implies #[trigger] self.records(
            obs.push(dur_us),
        ) by {
            assert(obs.push(dur_us).drop_last() =~= obs);
        }
    }
}

impl Default for SsdHistogram {
    fn default() -> (r: SsdHistogram)
        ensures
            r.wf(),
            r.records(Seq::<u64>::empty()),
    {
        SsdHistogram { buckets: [0, 0, 0, 0, 0, 0, 0, 0, 0], count_inf_overflow: 0, sum_us: 0, count: 0 }
    }
}

/// A number per namespace.
#[derive(Debug)]
pub struct NamespaceMap {
    entries: Vec<(String, u64)>,
}

impl View for NamespaceMap {
    type V = Map<Seq<char>, u64>;

    closed spec fn view(&self) -> Map<Seq<char>, u64> {
        entries_map(self.entries@)
    }
}

spec fn has_key(entries: Seq<(String, u64)>, key: Seq<char>) -> bool {
    exists|i: int| 0 <= i < entries.len() && #[trigger] entries[i].0@ == key
}

spec fn entries_map(entries: Seq<(String, u64)>) -> Map<Seq<char>, u64> {
    Map::new(
        |key: Seq<char>| has_key(entries, key),
        |key: Seq<char>|
            entries[choose|i: int| 0 <= i < entries.len() && #[trigger] entries[i].0@ == key].1,
    )
}

impl NamespaceMap {
    /// No namespace has two entries.
    pub closed spec fn wf(&self) -> bool {
        forall|i: int, j: int|
            0 <= i < j < self.entries@.len() ==> (#[trigger] self.entries@[i]).0@ != (
            #[trigger] self.entries@[j]).0@
    }

    /// A map without namespaces.
    pub fn new() -> (r: NamespaceMap)
        ensures
            r.wf(),
            r@ == Map::<Seq<char>, u64>::empty(),
    {
        let r = NamespaceMap { entries: Vec::new() };
        assert(r@ =~= Map::<Seq<char>, u64>::empty());
        r
    }

    fn position(&self, namespace: &str) -> (r: Option<usize>)
        requires
            self.wf(),
        ensures
            match r {
                Some(i) => {
                    &&& i < self.entries@.len()
                    &&& self.entries@[i as int].0@ == namespace@
                    &&& self@.contains_key(namespace@)
                    &&& self@[namespace@] == self.entries@[i as int].1
                },
                None => !self@.contains_key(namespace@),
            },
    {
        let mut i: usize = 0;
        while i < self.entries.len()
            invariant
                self.wf(),
                i <= self.entries.len(),
                forall|j: int| 0 <= j < i ==> (#[trigger] self.entries@[j]).0@ != namespace@,
            decreases self.entries.len() - i,
        {
            if str_eq(self.entries[i].0.as_str(), namespace) {
                proof {
                    assert(has_key(self.entries@, namespace@));
                    let k = choose|k: int|
                        0 <= k < self.entries@.len() && #[trigger] self.entries@[k].0@
                            == namespace@;
                    if k < i {
                        assert(self.entries@[k].0@ != self.entries@[i as int].0@);
                    } else if i < k {
                        assert(self.entries@[i as int].0@ != self.entries@[k].0@);
                    }
                }
                return Some(i);
            }
            i += 1;
        }
        None
    }

    /// The number of a namespace.
    pub fn get(&self, namespace: &str) -> (r: Option<u64>)
        requires
            self.wf(),
        ensures
            match r {
                Some(v) => self@.contains_key(namespace@) && self@[namespace@] == v,
                None => !self@.contains_key(namespace@),
            },
    {
        match self.position(namespace) {
            Some(i) => Some(self.entries[i].1),
            None => None,
        }
    }

    /// Sets the number of a namespace.
    pub fn insert(&mut self, namespace: &str, value: u64)
        requires
            old(self).wf(),
        ensures
            final(self).wf(),
            final(self)@ == old(self)@.insert(namespace@, value),
    {
        match self.position(namespace) {
            Some(i) => {
                self.entries[i].1 = value;
            },
            None => {
                let key: String = namespace.to_owned();
                assert(!has_key(self.entries@, namespace@));
                self.entries.push((key, value));
            },
        }
        proof {
            assert forall|k: Seq<char>| #[trigger]
                self@.contains_key(k) == old(self)@.insert(namespace@, value).contains_key(k) by {
                if has_key(old(self).entries@, k) {
                    let j = choose|j: int|
                        0 <= j < old(self).entries@.len() && #[trigger] old(self).entries@[j].0@
                            == k;
                    assert(self.entries@[j].0@ == k);
                }
                if has_key(self.entries@, k) && k != namespace@ {
                    let j = choose|j: int|
                        0 <= j < self.entries@.len() && #[trigger] self.entries@[j].0@ == k;
                    assert(old(self).entries@[j].0@ == k);
                }
                if k == namespace@ {
                    assert(has_key(self.entries@, k)) by {
                        if old(self)@.contains_key(k) {
                            let j = choose|j: int|
                                0 <= j < old(self).entries@.len()
                                    && #[trigger] old(self).entries@[j].0@ == k;
                            assert(self.entries@[j].0@ == k);
                        } else {
                            assert(self.entries@[self.entries@.len() - 1].0@ == k);
                        }
                    }
                }
            }
            assert forall|k: Seq<char>| #[trigger] self@.contains_key(k) implies self@[k] == old(
                self,
            )@.insert(namespace@, value)[k] by {
                let j = choose|j: int|
                    0 <= j < self.entries@.len() && #[trigger] self.entries@[j].0@ == k;
                assert(has_key(self.entries@, k));
                if k != namespace@ {
                    assert(old(self).entries@[j].0@ == k);
                    let o = choose|o: int|
                        0 <= o < old(self).entries@.len() && #[trigger] old(self).entries@[o].0@
                            == k;
                    if o < j {
                        assert(old(self).entries@[o].0@ != old(self).entries@[j].0@);
                    } else if j < o {
                        assert(old(self).entries@[j].0@ != old(self).entries@[o].0@);
                    }
                }
            }
            assert(self@ =~= old(self)@.insert(namespace@, value));
        }
    }

    /// A second map with the same contents.
    pub fn copy(&self) -> (r: NamespaceMap)
        requires
            self.wf(),
        ensures
            r.wf(),
            r@ == self@,
    {
        let mut entries: Vec<(String, u64)> = Vec::new();
        let mut i: usize = 0;
        while i < self.entries.len()
            invariant
                i <= self.entries.len(),
                entries@.len() == i,
                forall|j: int| 0 <= j < i ==> #[trigger] entries@[j] == self.entries@[j],
            decreases self.entries.len() - i,
        {
            entries.push((self.entries[i].0.clone(), self.entries[i].1));
            i += 1;
        }
        assert(entries@ =~= self.entries@);
        NamespaceMap { entries }
    }
}

/// The state of the SSD tier's bookkeeping.
#[derive(Debug)]
pub struct SsdTierAccum {
    pub spill: SsdHistogram,
    pub hydrate: SsdHistogram,
    /// The bytes that each namespace has on disk, as last reported.
    pub bytes_used: NamespaceMap,
    /// The evictions of each namespace so far.
    pub evict_total: NamespaceMap,
}

impl SsdTierAccum {
    pub open spec fn wf(&self) -> bool {
        &&& self.spill.wf()
        &&& self.hydrate.wf()
        &&& self.bytes_used.wf()
        &&& self.evict_total.wf()
    }
}

impl Default for SsdTierAccum {
    fn default() -> (r: SsdTierAccum)
        ensures
            r.wf(),
            r.spill.records(Seq::<u64>::empty()),
            r.hydrate.records(Seq::<u64>::empty()),
            r.bytes_used@ == Map::<Seq<char>, u64>::empty(),
            r.evict_total@ == Map::<Seq<char>, u64>::empty(),
    {
        SsdTierAccum {
            spill: SsdHistogram::default(),
            hydrate: SsdHistogram::default(),
            bytes_used: NamespaceMap::new(),
            evict_total: NamespaceMap::new(),
        }
    }
}

/// The evictions of a namespace so far.
pub open spec fn evictions(m: Map<Seq<char>, u64>, namespace: Seq<char>) -> u64 {
    if m.contains_key(namespace) {
        m[namespace]
    } else {
        0
    }
}

/// The eviction counters after `delta` more evictions in a namespace.
pub open spec fn evicted(m: Map<Seq<char>, u64>, namespace: Seq<char>, delta: u64) -> Map<
    Seq<char>,
    u64,
> {
    m.insert(namespace, (evictions(m, namespace) + delta) as u64)
}

/// Records how long a spill to disk took.
pub fn record_ssd_spill_obs(accum: &mut SsdTierAccum, dur_us: u64)
    requires
        old(accum).wf(),
        old(accum).spill.count < u64::MAX,
        old(accum).spill.sum_us + dur_us <= u64::MAX,
    ensures
        final(accum).wf(),
        forall|obs: Seq<u64>|
            old(accum).spill.records(obs) ==> #[trigger] final(accum).spill.records(
                obs.push(dur_us),
            ),
        old(accum).spill.takes_in(dur_us, final(accum).spill),
        final(accum).hydrate == old(accum).hydrate,
        final(accum).bytes_used == old(accum).bytes_used,
        final(accum).evict_total == old(accum).evict_total,
{
    accum.spill.observe(dur_us);
}

/// Records how long reading a snapshot back from disk took.
pub fn record_ssd_hydrate_obs(accum: &mut SsdTierAccum, dur_us: u64)
    requires
        old(accum).wf(),
        old(accum).hydrate.count < u64::MAX,
        old(accum).hydrate.sum_us + dur_us <= u64::MAX,
    ensures
        final(accum).wf(),
        forall|obs: Seq<u64>|
            old(accum).hydrate.records(obs) ==> #[trigger] final(accum).hydrate.records(
                obs.push(dur_us),
            ),
        old(accum).hydrate.takes_in(dur_us, final(accum).hydrate),
        final(accum).spill == old(accum).spill,
        final(accum).bytes_used == old(accum).bytes_used,
        final(accum).evict_total == old(accum).evict_total,
{
    accum.hydrate.observe(dur_us);
}

/// Notes the bytes that a namespace has on disk now.
pub fn update_ssd_bytes_used(accum: &mut SsdTierAccum, namespace: &str, bytes: u64)
    requires
        old(accum).wf(),
    ensures
        final(accum).wf(),
        final(accum).bytes_used@ == old(accum).bytes_used@.insert(namespace@, bytes),
        final(accum).spill == old(accum).spill,
        final(accum).hydrate == old(accum).hydrate,
        final(accum).evict_total == old(accum).evict_total,
{
    accum.bytes_used.insert(namespace, bytes);
}

/// Adds evictions to the counter of a namespace.
pub fn increment_ssd_evict_total(accum: &mut SsdTierAccum, namespace: &str, delta: u64)
    requires
        old(accum).wf(),
        evictions(old(accum).evict_total@, namespace@) + delta <= u64::MAX,
    ensures
        final(accum).wf(),
        final(accum).evict_total@ == evicted(old(accum).evict_total@, namespace@, delta),
        final(accum).spill == old(accum).spill,
        final(accum).hydrate == old(accum).hydrate,
        final(accum).bytes_used == old(accum).bytes_used,
{
    let so_far: u64 = match accum.evict_total.get(namespace) {
        Some(n) => n,
        None => 0,
    };
    accum.evict_total.insert(namespace, so_far + delta);
}

/// The SSD tier's numbers at one moment.
#[derive(Debug)]
pub struct SsdTierSnapshot {
    pub spill: SsdHistogram,
    pub hydrate: SsdHistogram,
    pub bytes_used: NamespaceMap,
    pub evict_total: NamespaceMap,
}

/// A copy of the SSD tier's numbers.
pub fn snapshot_ssd_tier(accum: &SsdTierAccum) -> (r: SsdTierSnapshot)
    requires
        accum.wf(),
    ensures
        r.spill == accum.spill,
        r.hydrate == accum.hydrate,
        r.bytes_used@ == accum.bytes_used@,
        r.evict_total@ == accum.evict_total@,
        r.bytes_used.wf(),
        r.evict_total.wf(),
{
    SsdTierSnapshot {
        spill: accum.spill,
        hydrate: accum.hydrate,
        bytes_used: accum.bytes_used.copy(),
        evict_total: accum.evict_total.copy(),
    }
}

/// A histogram of some observations has buckets that do not fall, and counts
/// every observation once: in its last bucket or above it.
pub proof fn recorded_histogram_is_cumulative(h: SsdHistogram, obs: Seq<u64>)
    requires
        h.records(obs),
    ensures
        h.wf(),
{
    assert forall|i: int, j: int| 0 <= i <= j < 9 implies #[trigger] h.buckets@[i]
        <= #[trigger] h.buckets@[j] by {
        lemma_count_upto_grows(obs, HIST_BUCKETS_US@[i], HIST_BUCKETS_US@[j]);
    }
}

proof fn lemma_count_upto_grows(obs: Seq<u64>, a: u64, b: u64)
    requires
        a <= b,
    ensures
        count_upto(obs, a) <= count_upto(obs, b) <= obs.len(),
    decreases obs.len(),
{
    if obs.len() > 0 {
        lemma_count_upto_grows(obs.drop_last(), a, b);
    }
}

/// Evictions add up: two reports for a namespace count as one report of their
/// sum, and a report for one namespace leaves every other as it is.
pub proof fn evictions_add_up(
    m: Map<Seq<char>, u64>,
    namespace: Seq<char>,
    other: Seq<char>,
    a: u64,
    b: u64,
)
    requires
        evictions(m, namespace) + a + b <= u64::MAX,
    ensures
        evicted(evicted(m, namespace, a), namespace, b) == evicted(m, namespace, (a + b) as u64),
        other != namespace ==> evictions(evicted(m, namespace, a), other) == evictions(m, other),
{
    assert(evicted(evicted(m, namespace, a), namespace, b) =~= evicted(
        m,
        namespace,
        (a + b) as u64,
    ));
}

/// Whether an observation was taken in: it is counted once, adds its time to the sum, and
/// is in every bucket whose bound it does not exceed; the bounds go from a tenth of a
/// millisecond to a second. One above the last bound is counted apart.
pub open spec fn one_more(before: SsdHistogram, dur_us: u64, after: SsdHistogram) -> bool {
    let bounds = seq![100int, 500, 1000, 5000, 10000, 50000, 100000, 500000, 1000000];
    &&& after.count == before.count + 1
    &&& after.sum_us == before.sum_us + dur_us
    &&& forall|i: int|
        0 <= i < 9 ==> (dur_us <= #[trigger] bounds[i] ==> after.buckets@[i] == before.buckets@[i]
            + 1) && (dur_us > bounds[i] ==> after.buckets@[i] == before.buckets@[i])
    &&& dur_us > 1000000 ==> after.count_inf_overflow == before.count_inf_overflow + 1
    &&& dur_us <= 1000000 ==> after.count_inf_overflow == before.count_inf_overflow
}

proof fn lemma_one_more(before: SsdHistogram, dur_us: u64, after: SsdHistogram)
    requires
        before.takes_in(dur_us, after),
    ensures
        one_more(before, dur_us, after),
{
    let bounds = seq![100int, 500, 1000, 5000, 10000, 50000, 100000, 500000, 1000000];
    assert forall|i: int| 0 <= i < 9 implies (dur_us <= #[trigger] bounds[i] ==> after.buckets@[i]
        == before.buckets@[i] + 1) && (dur_us > bounds[i] ==> after.buckets@[i]
        == before.buckets@[i]) by {
        assert(HIST_BUCKETS_US@[i] == bounds[i]);
        assert(after.buckets@[i] == before.buckets@[i] + (if dur_us <= HIST_BUCKETS_US@[i] {
            1int
        } else {
            0int
        }));
    }
}

/// An observation is counted once, in the buckets that it belongs to.
pub proof fn an_observation_is_counted_once(h: &mut SsdHistogram, dur_us: u64)
    requires
        call_ensures(SsdHistogram::observe, (h, dur_us), ()),
    ensures
        one_more(*old(h), dur_us, *final(h)),
{
    lemma_one_more(*old(h), dur_us, *final(h));
}

/// A spill goes into the histogram of spills and nowhere else.
pub proof fn a_spill_is_a_spill(a: &mut SsdTierAccum, dur_us: u64)
    requires
        call_ensures(record_ssd_spill_obs, (a, dur_us), ()),
    ensures
        one_more(old(a).spill, dur_us, final(a).spill),
        final(a).hydrate == old(a).hydrate,
        final(a).bytes_used@ == old(a).bytes_used@,
        final(a).evict_total@ == old(a).evict_total@,
{
    lemma_one_more(old(a).spill, dur_us, final(a).spill);
}

/// A read goes into the histogram of reads and nowhere else.
pub proof fn a_read_is_a_read(a: &mut SsdTierAccum, dur_us: u64)
    requires
        call_ensures(record_ssd_hydrate_obs, (a, dur_us), ()),
    ensures
        one_more(old(a).hydrate, dur_us, final(a).hydrate),
        final(a).spill == old(a).spill,
        final(a).bytes_used@ == old(a).bytes_used@,
        final(a).evict_total@ == old(a).evict_total@,
{
    lemma_one_more(old(a).hydrate, dur_us, final(a).hydrate);
}

/// The bytes on disk are those that were reported last, namespace by namespace.
pub proof fn the_last_report_of_bytes_counts(
    a: &mut SsdTierAccum,
    namespace: &str,
    bytes: u64,
    other: Seq<char>,
)
    requires
        call_ensures(update_ssd_bytes_used, (a, namespace, bytes), ()),
    ensures
        final(a).bytes_used@.contains_key(namespace@),
        final(a).bytes_used@[namespace@] == bytes,
        other != namespace@ ==> final(a).bytes_used@.contains_key(other) == old(
            a).bytes_used@.contains_key(other),
        other != namespace@ && old(a).bytes_used@.contains_key(other)
            ==> final(a).bytes_used@[other] == old(a).bytes_used@[other],
        final(a).evict_total@ == old(a).evict_total@,
        final(a).spill == old(a).spill,
        final(a).hydrate == old(a).hydrate,
{
}

/// Evictions are added to those of their namespace so far, and to no other.
pub proof fn evictions_are_added_to_their_namespace(
    a: &mut SsdTierAccum,
    namespace: &str,
    delta: u64,
    other: Seq<char>,
)
    requires
        old(a).evict_total@.contains_key(namespace@) ==> old(a).evict_total@[namespace@] + delta
            <= u64::MAX,
        call_ensures(increment_ssd_evict_total, (a, namespace, delta), ()),
    ensures
        final(a).evict_total@.contains_key(namespace@),
        old(a).evict_total@.contains_key(namespace@) ==> final(a).evict_total@[namespace@] == old(
            a).evict_total@[namespace@] + delta,
        !old(a).evict_total@.contains_key(namespace@) ==> final(a).evict_total@[namespace@]
            == delta,
        other != namespace@ ==> final(a).evict_total@.contains_key(other) == old(
            a).evict_total@.contains_key(other),
        other != namespace@ && old(a).evict_total@.contains_key(other)
            ==> final(a).evict_total@[other] == old(a).evict_total@[other],
        final(a).bytes_used@ == old(a).bytes_used@,
        final(a).spill == old(a).spill,
        final(a).hydrate == old(a).hydrate,
{
}

/// What is set for a namespace is read back, and nothing else changes.
pub proof fn a_namespace_reads_back(
    m: &mut NamespaceMap,
    namespace: &str,
    value: u64,
    asked: &str,
    before: Option<u64>,
    after: Option<u64>,
)
    requires
        call_ensures(NamespaceMap::get, (&*old(m), asked), before),
        call_ensures(NamespaceMap::insert, (m, namespace, value), ()),
        call_ensures(NamespaceMap::get, (&*final(m), asked), after),
    ensures
        asked@ == namespace@ ==> after == Some(value),
        asked@ != namespace@ ==> after == before,
{
}

/// A new histogram has counted nothing.
pub proof fn a_new_histogram_is_empty(h: SsdHistogram, i: int)
    requires
        call_ensures(SsdHistogram::default, (), h),
    ensures
        h.count == 0,
        h.sum_us == 0,
        h.count_inf_overflow == 0,
        0 <= i < 9 ==> h.buckets@[i] == 0,
{
    reveal_with_fuel(count_upto, 1);
    if 0 <= i < 9 {
        assert(h.buckets@[i] == count_upto(Seq::<u64>::empty(), HIST_BUCKETS_US@[i]));
    }
}

/// A snapshot shows the numbers as they are.
pub proof fn a_snapshot_shows_the_numbers(a: &SsdTierAccum, r: SsdTierSnapshot)
    requires
        call_ensures(snapshot_ssd_tier, (a,), r),
    ensures
        r.spill == a.spill,
        r.hydrate == a.hydrate,
        r.bytes_used@ == a.bytes_used@,
        r.evict_total@ == a.evict_total@,
{
}

} // verus!
