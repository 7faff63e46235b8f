//! Counters, gauges and latencies.

use crate::clock::now_millis;
use crate::config::ActorObservabilityConfig;
use crate::text::{decimal, lemma_decimal_value, number};
use crate::text_map::{deep_insert, TextMap};
use crate::time::{Duration, NANOS_PER_MILLI};
use vstd::prelude::*;
use vstd::string::*;

verus! {

// ---- histograms --------------------------------------------------------

/// The upper bounds of the buckets of a histogram, in milliseconds; one more
/// bucket lies behind the last.
pub open spec fn bounds() -> Seq<u64> {
    seq![1, 2, 5, 10, 25, 50, 100, 250, 500, 1000, 2500, 5000]
}

fn histogram_bounds() -> (r: Vec<u64>)
    ensures
        r@ == bounds(),
{
    let r: Vec<u64> = vec![1, 2, 5, 10, 25, 50, 100, 250, 500, 1000, 2500, 5000];
    assert(r@ =~= bounds());
    r
}

/// The number of buckets.
pub const BUCKETS: usize = 13;

/// How many values were seen, in all and within each bound.
#[derive(Debug)]
pub struct Histogram {
    pub buckets: Vec<u64>,
    pub count: u64,
    pub sum_ms: u64,
    pub max_ms: u64,
}

/// The model of [`Histogram`].
pub ghost struct HistogramView {
    pub buckets: Seq<u64>,
    pub count: u64,
    pub sum_ms: u64,
    pub max_ms: u64,
}

impl DeepView for Histogram {
    type V = HistogramView;

    open spec fn deep_view(&self) -> HistogramView {
        HistogramView {
            buckets: self.buckets@,
            count: self.count,
            sum_ms: self.sum_ms,
            max_ms: self.max_ms,
        }
    }
}

/// A number as far as `u64` holds it.
pub open spec fn capped(n: nat) -> u64 {
    if n <= u64::MAX {
        n as u64
    } else {
        u64::MAX
    }
}

fn add_capped(a: u64, b: u64) -> (r: u64)
    ensures
        r == capped((a + b) as nat),
{
    match a.checked_add(b) {
        Some(s) => s,
        None => u64::MAX,
    }
}

/// The sum of some counts.
pub open spec fn total(counts: Seq<u64>) -> nat
    decreases counts.len(),
{
    if counts.len() == 0 {
        0
    } else {
        total(counts.drop_last()) + counts.last() as nat
    }
}

/// The first bound at or behind `i` that a value is within.
pub open spec fn bucket_from(value_ms: u64, i: int) -> int
    decreases bounds().len() - i,
{
    if i >= bounds().len() {
        bounds().len() as int
    } else if value_ms <= bounds()[i] {
        i
    } else {
        bucket_from(value_ms, i + 1)
    }
}

/// The bucket of a value.
pub open spec fn bucket_of(value_ms: u64) -> int {
    bucket_from(value_ms, 0)
}

impl HistogramView {
    /// Whether every value that was counted is in a bucket.
    pub open spec fn wf(self) -> bool {
        &&& self.buckets.len() == BUCKETS
        &&& self.count == capped(total(self.buckets))
    }

    /// The histogram after one value more.
    pub open spec fn observed(self, value_ms: u64) -> HistogramView {
        let i = bucket_of(value_ms);
        HistogramView {
            buckets: self.buckets.update(i, capped((self.buckets[i] + 1) as nat)),
            count: capped((self.count + 1) as nat),
            sum_ms: capped((self.sum_ms + value_ms) as nat),
            max_ms: if value_ms > self.max_ms {
                value_ms
            } else {
                self.max_ms
            },
        }
    }
}

/// The histogram of no value.
pub open spec fn no_values() -> HistogramView {
    HistogramView { buckets: Seq::new(BUCKETS as nat, |i: int| 0), count: 0, sum_ms: 0, max_ms: 0 }
}

proof fn lemma_total_zero(n: nat)
    ensures
        total(Seq::new(n, |i: int| 0u64)) == 0,
    decreases n,
{
    if n > 0 {
        lemma_total_zero((n - 1) as nat);
        assert(Seq::new(n, |i: int| 0u64).drop_last() =~= Seq::new((n - 1) as nat, |i: int| 0u64));
    }
}

proof fn lemma_total_update(counts: Seq<u64>, i: int, v: u64)
    requires
        0 <= i < counts.len(),
    ensures
        total(counts.update(i, v)) == total(counts) - counts[i] + v,
    decreases counts.len(),
{
    let after = counts.update(i, v);
    if i == counts.len() - 1 {
        assert(after.drop_last() =~= counts.drop_last());
    } else {
        lemma_total_update(counts.drop_last(), i, v);
        assert(after.drop_last() =~= counts.drop_last().update(i, v));
    }
}

proof fn lemma_total_bounds(counts: Seq<u64>, i: int)
    requires
        0 <= i < counts.len(),
    ensures
        counts[i] <= total(counts),
    decreases counts.len(),
{
    if i < counts.len() - 1 {
        lemma_total_bounds(counts.drop_last(), i);
    }
}

/// A value is in one bucket: it is within the bound of that bucket, and beyond
/// each bound before it.
pub proof fn buckets_part_the_values(value_ms: u64, i: int)
    requires
        0 <= i <= bounds().len(),
    ensures
        i <= bucket_from(value_ms, i) <= bounds().len(),
        bucket_from(value_ms, i) < bounds().len() ==> value_ms <= bounds()[bucket_from(
            value_ms,
            i,
        )],
        forall|j: int| i <= j < bucket_from(value_ms, i) ==> #[trigger] bounds()[j] < value_ms,
    decreases bounds().len() - i,
{
    if i < bounds().len() && value_ms > bounds()[i] {
        buckets_part_the_values(value_ms, i + 1);
    }
}

/// Every value that is counted is counted in a bucket.
pub proof fn observing_keeps_the_count(h: HistogramView, value_ms: u64)
    requires
        h.wf(),
    ensures
        h.observed(value_ms).wf(),
{
    buckets_part_the_values(value_ms, 0);
    let i = bucket_of(value_ms);
    lemma_total_update(h.buckets, i, capped((h.buckets[i] + 1) as nat));
    lemma_total_bounds(h.buckets, i);
}

impl Histogram {
    /// The histogram of no value.
    pub fn with_bucket_count() -> (r: Self)
        ensures
            r.deep_view() == no_values(),
            r.deep_view().wf(),
    {
        let r = Histogram {
            buckets: vec![0, 0, 0, 0, 0, 0, 0, 0, 0, 0, 0, 0, 0],
            count: 0,
            sum_ms: 0,
            max_ms: 0,
        };
        assert(r.buckets@ =~= no_values().buckets);
        proof {
            lemma_total_zero(BUCKETS as nat);
            assert(no_values().buckets =~= Seq::new(BUCKETS as nat, |i: int| 0u64));
        }
        r
    }

    /// Counts one value more.
    pub fn observe(&mut self, value_ms: u64)
        requires
            old(self).deep_view().wf(),
        ensures
            final(self).deep_view() == old(self).deep_view().observed(value_ms),
            final(self).deep_view().wf(),
    {
        let ghost before = self.deep_view();
        self.count = add_capped(self.count, 1);
        self.sum_ms = add_capped(self.sum_ms, value_ms);
        if value_ms > self.max_ms {
            self.max_ms = value_ms;
        }
        let limits = histogram_bounds();
        let mut i: usize = 0;
        while i < limits.len() && value_ms > limits[i]
            invariant
                limits@ == bounds(),
                0 <= i <= limits@.len(),
                bucket_of(value_ms) == bucket_from(value_ms, i as int),
            decreases limits@.len() - i,
        {
            i = i + 1;
        }
        assert(i == bucket_of(value_ms));
        let more: u64 = add_capped(self.buckets[i], 1);
        self.buckets.set(i, more);
        proof {
            observing_keeps_the_count(before, value_ms);
        }
        assert(self.buckets@ =~= before.observed(value_ms).buckets);
    }

    /// The histogram with names for its buckets.
    pub fn snapshot(&self) -> (r: HistogramSnapshot)
        requires
            self.deep_view().wf(),
        ensures
            r.deep_view() == snapshot_of(self.deep_view()),
    {
        let limits = histogram_bounds();
        let mut buckets: TextMap<u64> = TextMap::new();
        let mut i: usize = 0;
        while i < self.buckets.len()
            invariant
                limits@ == bounds(),
                self.buckets@.len() == BUCKETS,
                0 <= i <= self.buckets@.len(),
                buckets@ == named(self.buckets@, i as int),
            decreases self.buckets@.len() - i,
        {
            let name = if i < limits.len() {
                let mut s = "le_".to_owned();
                s.append(number(limits[i]).as_str());
                s.append("ms");
                s
            } else {
                "gt_5000ms".to_owned()
            };
            buckets.insert(name, self.buckets[i]);
            i = i + 1;
        }
        HistogramSnapshot {
            count: self.count,
            sum_ms: self.sum_ms,
            max_ms: self.max_ms,
            buckets,
        }
    }
}

/// The name of a bucket.
pub open spec fn bucket_name(i: int) -> Seq<char> {
    if i < bounds().len() {
        "le_"@ + decimal(bounds()[i] as nat) + "ms"@
    } else {
        "gt_5000ms"@
    }
}

/// The first `n` buckets under their names.
pub open spec fn named(buckets: Seq<u64>, n: int) -> Map<Seq<char>, u64>
    decreases n,
{
    if n <= 0 {
        Map::empty()
    } else {
        named(buckets, n - 1).insert(bucket_name(n - 1), buckets[n - 1])
    }
}

/// A histogram as it is shown.
pub struct HistogramSnapshot {
    pub count: u64,
    pub sum_ms: u64,
    pub max_ms: u64,
    pub buckets: TextMap<u64>,
}

/// The model of [`HistogramSnapshot`].
pub ghost struct SnapshotView {
    pub count: u64,
    pub sum_ms: u64,
    pub max_ms: u64,
    pub buckets: Map<Seq<char>, u64>,
}

impl DeepView for HistogramSnapshot {
    type V = SnapshotView;

    open spec fn deep_view(&self) -> SnapshotView {
        SnapshotView {
            count: self.count,
            sum_ms: self.sum_ms,
            max_ms: self.max_ms,
            buckets: self.buckets@,
        }
    }
}

/// A histogram as it is shown.
pub open spec fn snapshot_of(h: HistogramView) -> SnapshotView {
    SnapshotView {
        count: h.count,
        sum_ms: h.sum_ms,
        max_ms: h.max_ms,
        buckets: named(h.buckets, h.buckets.len() as int),
    }
}

proof fn lemma_names_differ(i: int, j: int)
    requires
        0 <= i < j < BUCKETS,
    ensures
        bucket_name(i) != bucket_name(j),
{
    reveal_strlit("le_");
    reveal_strlit("ms");
    reveal_strlit("gt_5000ms");
    let a = decimal(bounds()[i] as nat);
    lemma_decimal_value(bounds()[i] as nat);
    if j < bounds().len() {
        let b = decimal(bounds()[j] as nat);
        lemma_decimal_value(bounds()[j] as nat);
        assert(bounds()[i] != bounds()[j]);
        if bucket_name(i) == bucket_name(j) {
            assert(a =~= bucket_name(i).subrange(3, bucket_name(i).len() - 2));
            assert(b =~= bucket_name(j).subrange(3, bucket_name(j).len() - 2));
        }
    } else {
        assert(bucket_name(i)[0] == 'l');
        assert(bucket_name(j)[0] == 'g');
    }
}

/// Each bucket is shown under a name of its own.
pub proof fn every_bucket_is_shown(buckets: Seq<u64>, i: int, n: int)
    requires
        buckets.len() == BUCKETS,
        0 <= i < n <= BUCKETS,
    ensures
        named(buckets, n).contains_key(bucket_name(i)),
        named(buckets, n)[bucket_name(i)] == buckets[i],
    decreases n,
{
    if i < n - 1 {
        every_bucket_is_shown(buckets, i, n - 1);
        lemma_names_differ(i, n - 1);
    }
}

// ---- the state ---------------------------------------------------------

/// The metrics and their settings.
pub struct MetricsState {
    pub enabled: bool,
    pub queue_depth_export_interval_secs: u64,
    pub slow_actor_warn_ms: u64,
    pub counters: TextMap<u64>,
    pub gauges: TextMap<i64>,
    pub histograms: TextMap<Histogram>,
}

/// The model of [`MetricsState`].
pub ghost struct MetricsView {
    pub enabled: bool,
    pub queue_depth_export_interval_secs: u64,
    pub slow_actor_warn_ms: u64,
    pub counters: Map<Seq<char>, u64>,
    pub gauges: Map<Seq<char>, i64>,
    pub histograms: Map<Seq<char>, HistogramView>,
}

impl DeepView for MetricsState {
    type V = MetricsView;

    open spec fn deep_view(&self) -> MetricsView {
        MetricsView {
            enabled: self.enabled,
            queue_depth_export_interval_secs: self.queue_depth_export_interval_secs,
            slow_actor_warn_ms: self.slow_actor_warn_ms,
            counters: self.counters@,
            gauges: self.gauges@,
            histograms: self.histograms.deep_view(),
        }
    }
}

impl MetricsView {
    /// Whether no gauge is below zero and every histogram adds up.
    pub open spec fn wf(self) -> bool {
        &&& forall|k: Seq<char>| #[trigger]
            self.gauges.contains_key(k) ==> self.gauges[k] >= 0
        &&& forall|k: Seq<char>| #[trigger]
            self.histograms.contains_key(k) ==> self.histograms[k].wf()
    }

    /// A counter; it starts at zero.
    pub open spec fn counter(self, name: Seq<char>) -> u64 {
        if self.counters.contains_key(name) {
            self.counters[name]
        } else {
            0
        }
    }

    /// A gauge; it starts at zero.
    pub open spec fn gauge(self, name: Seq<char>) -> i64 {
        if self.gauges.contains_key(name) {
            self.gauges[name]
        } else {
            0
        }
    }

    /// A histogram; it starts with no value.
    pub open spec fn histogram(self, name: Seq<char>) -> HistogramView {
        if self.histograms.contains_key(name) {
            self.histograms[name]
        } else {
            no_values()
        }
    }

    /// The metrics after `delta` was added to a counter.
    pub open spec fn counted(self, name: Seq<char>, delta: u64) -> MetricsView {
        if self.enabled {
            MetricsView {
                counters: self.counters.insert(
                    name,
                    capped((self.counter(name) + delta) as nat),
                ),
                ..self
            }
        } else {
            self
        }
    }

    /// The metrics after a gauge was set.
    pub open spec fn with_gauge(self, name: Seq<char>, value: int) -> MetricsView {
        if self.enabled {
            MetricsView { gauges: self.gauges.insert(name, gauge_value(value)), ..self }
        } else {
            self
        }
    }

    /// The metrics after a value was seen.
    pub open spec fn observed(self, name: Seq<char>, value_ms: u64) -> MetricsView {
        if self.enabled {
            MetricsView {
                histograms: self.histograms.insert(
                    name,
                    self.histogram(name).observed(value_ms),
                ),
                ..self
            }
        } else {
            self
        }
    }
}

/// A gauge is never below zero, nor above what `i64` holds.
pub open spec fn gauge_value(value: int) -> i64 {
    if value < 0 {
        0
    } else if value > i64::MAX {
        i64::MAX
    } else {
        value as i64
    }
}

/// The whole milliseconds of a span, to the width of `u64`.
pub open spec fn millis_of(duration: Duration) -> u64 {
    ((duration.nanos / NANOS_PER_MILLI) % 0x1_0000_0000_0000_0000) as u64
}

fn as_millis_u64(duration: Duration) -> (r: u64)
    ensures
        r == millis_of(duration),
{
    let ms: u128 = duration.as_millis();
    (ms % 0x1_0000_0000_0000_0000) as u64
}

impl Default for MetricsState {
    fn default() -> (r: Self)
        ensures
            r.deep_view() == (MetricsView {
                enabled: false,
                queue_depth_export_interval_secs: 5,
                slow_actor_warn_ms: 200,
                counters: Map::empty(),
                gauges: Map::empty(),
                histograms: Map::empty(),
            }),
            r.deep_view().wf(),
    {
        let r = MetricsState {
            enabled: false,
            queue_depth_export_interval_secs: 5,
            slow_actor_warn_ms: 200,
            counters: TextMap::new(),
            gauges: TextMap::new(),
            histograms: TextMap::new(),
        };
        assert(r.histograms.deep_view() =~= Map::empty());
        r
    }
}

/// At least one.
pub open spec fn one_or_more(n: u64) -> u64 {
    if n == 0 {
        1
    } else {
        n
    }
}

fn at_least_one_u64(n: u64) -> (r: u64)
    ensures
        r == one_or_more(n),
{
    if n == 0 {
        1
    } else {
        n
    }
}

/// Takes the settings over; metrics that are enabled start anew.
pub fn configure(state: &mut MetricsState, config: &ActorObservabilityConfig)
    requires
        old(state).deep_view().wf(),
    ensures
        final(state).deep_view() == (MetricsView {
            enabled: config.metrics_enabled,
            queue_depth_export_interval_secs: one_or_more(config.queue_depth_export_interval_secs),
            slow_actor_warn_ms: one_or_more(config.slow_actor_warn_ms),
            counters: if config.metrics_enabled {
                Map::empty()
            } else {
                old(state).deep_view().counters
            },
            gauges: if config.metrics_enabled {
                Map::empty()
            } else {
                old(state).deep_view().gauges
            },
            histograms: if config.metrics_enabled {
                Map::empty()
            } else {
                old(state).deep_view().histograms
            },
        }),
        final(state).deep_view().wf(),
{
    state.enabled = config.metrics_enabled;
    state.queue_depth_export_interval_secs = at_least_one_u64(
        config.queue_depth_export_interval_secs,
    );
    state.slow_actor_warn_ms = at_least_one_u64(config.slow_actor_warn_ms);
    if config.metrics_enabled {
        state.counters = TextMap::new();
        state.gauges = TextMap::new();
        state.histograms = TextMap::new();
        assert(state.histograms.deep_view() =~= Map::empty());
    }
}

/// How many seconds lie between two exports, where metrics are enabled.
pub fn spawn_exporter(state: &MetricsState) -> (r: Option<u64>)
    ensures
        r == (if state.enabled {
            Some(one_or_more(state.queue_depth_export_interval_secs))
        } else {
            None
        }),
{
    if state.enabled {
        Some(at_least_one_u64(state.queue_depth_export_interval_secs))
    } else {
        None
    }
}

/// Adds one to a counter.
pub fn inc_counter(state: &mut MetricsState, name: &str)
    requires
        old(state).deep_view().wf(),
    ensures
        final(state).deep_view() == old(state).deep_view().counted(name@, 1),
        final(state).deep_view().wf(),
{
    add_counter(state, name, 1)
}

/// Adds to a counter.
pub fn add_counter(state: &mut MetricsState, name: &str, delta: u64)
    requires
        old(state).deep_view().wf(),
    ensures
        final(state).deep_view() == old(state).deep_view().counted(name@, delta),
        final(state).deep_view().wf(),
{
    if !state.enabled {
        return;
    }
    let value: u64 = match state.counters.get(name) {
        Some(v) => *v,
        None => 0,
    };
    state.counters.insert(name.to_owned(), add_capped(value, delta));
}

/// Sets a gauge.
pub fn set_gauge(state: &mut MetricsState, name: &str, value: i64)
    requires
        old(state).deep_view().wf(),
    ensures
        final(state).deep_view() == old(state).deep_view().with_gauge(name@, value as int),
        final(state).deep_view().wf(),
{
    if !state.enabled {
        return;
    }
    state.gauges.insert(
        name.to_owned(),
        if value < 0 {
            0
        } else {
            value
        },
    );
}

/// Adds to a gauge.
pub fn add_gauge(state: &mut MetricsState, name: &str, delta: i64)
    requires
        old(state).deep_view().wf(),
    ensures
        final(state).deep_view() == old(state).deep_view().with_gauge(
            name@,
            old(state).deep_view().gauge(name@) + delta,
        ),
        final(state).deep_view().wf(),
{
    if !state.enabled {
        return;
    }
    let value: i64 = match state.gauges.get(name) {
        Some(v) => *v,
        None => 0,
    };
    let next: i64 = match value.checked_add(delta) {
        Some(s) => s,
        None => if delta > 0 {
            i64::MAX
        } else {
            i64::MIN
        },
    };
    state.gauges.insert(
        name.to_owned(),
        if next < 0 {
            0
        } else {
            next
        },
    );
}

/// Sees a value.
pub fn observe_ms(state: &mut MetricsState, name: &str, value_ms: u64)
    requires
        old(state).deep_view().wf(),
    ensures
        final(state).deep_view() == old(state).deep_view().observed(name@, value_ms),
        final(state).deep_view().wf(),
{
    if !state.enabled {
        return;
    }
    let ghost before = state.deep_view();
    let ghost held = state.histograms@;
    let mut histogram = match state.histograms.remove(name) {
        Some(h) => {
            assert(before.histograms.contains_key(name@));
            h
        },
        None => Histogram::with_bucket_count(),
    };
    assert(histogram.deep_view() == before.histogram(name@));
    histogram.observe(value_ms);
    proof {
        deep_insert(held.remove(name@), name@, histogram);
        assert(held.remove(name@).insert(name@, histogram) =~= held.insert(name@, histogram));
        deep_insert(held, name@, histogram);
    }
    state.histograms.insert(name.to_owned(), histogram);
    assert(state.deep_view().histograms =~= before.observed(name@, value_ms).histograms);
}

/// Sees a span of time.
pub fn observe_duration(state: &mut MetricsState, name: &str, duration: Duration)
    requires
        old(state).deep_view().wf(),
    ensures
        final(state).deep_view() == old(state).deep_view().observed(name@, millis_of(duration)),
        final(state).deep_view().wf(),
{
    observe_ms(state, name, as_millis_u64(duration))
}

/// The name of an actor's latency.
pub open spec fn latency_name(actor: Seq<char>) -> Seq<char> {
    "latency.actor."@ + actor + "_ms"@
}

/// Sees how long an actor took. Whether that was too long.
pub fn observe_actor_latency(state: &mut MetricsState, actor: &str, duration: Duration) -> (slow:
    bool)
    requires
        old(state).deep_view().wf(),
    ensures
        final(state).deep_view() == old(state).deep_view().observed(
            latency_name(actor@),
            millis_of(duration),
        ),
        final(state).deep_view().wf(),
        slow == (old(state).deep_view().enabled && millis_of(duration) >= one_or_more(
            old(state).deep_view().slow_actor_warn_ms,
        )),
{
    let latency_ms: u64 = as_millis_u64(duration);
    let mut name = "latency.actor.".to_owned();
    name.append(actor);
    name.append("_ms");
    observe_ms(state, name.as_str(), latency_ms);
    state.enabled && latency_ms >= at_least_one_u64(state.slow_actor_warn_ms)
}

// ---- the snapshot ------------------------------------------------------

/// The metrics as they are exported.
pub struct MetricsSnapshot {
    pub exported_at_ms: i64,
    pub counters: TextMap<u64>,
    pub gauges: TextMap<i64>,
    pub histograms: TextMap<HistogramSnapshot>,
}

fn copy_map<V: Copy>(m: &TextMap<V>) -> (r: TextMap<V>)
    ensures
        r@ == m@,
{
    let keys = m.keys();
    let ghost names = keys.deep_view();
    let mut out: TextMap<V> = TextMap::new();
    let mut i: usize = 0;
    assert(names.take(0).to_set() =~= Set::empty());
    while i < keys.len()
        invariant
            names == keys.deep_view(),
            names.to_set() == m@.dom(),
            0 <= i <= keys@.len(),
            out@ == m@.restrict(names.take(i as int).to_set()),
        decreases keys@.len() - i,
    {
        assert(names[i as int] == keys@[i as int]@);
        assert(names.contains(names[i as int]));
        proof {
            lemma_take_set(names, i as int);
        }
        if let Some(v) = m.get(keys[i].as_str()) {
            out.insert(keys[i].clone(), *v);
        }
        assert(out@ =~= m@.restrict(names.take(i + 1).to_set()));
        i = i + 1;
    }
    assert(names.take(names.len() as int) =~= names);
    assert(out@ =~= m@);
    out
}

proof fn lemma_take_set<A>(s: Seq<A>, i: int)
    requires
        0 <= i < s.len(),
    ensures
        s.take(i + 1).to_set() == s.take(i).to_set().insert(s[i]),
{
    let more = s.take(i + 1);
    let less = s.take(i);
    assert forall|x: A| more.to_set().contains(x) implies less.to_set().insert(s[i]).contains(x) by {
        let j = choose|j: int| 0 <= j < more.len() && more[j] == x;
        if j < i {
            assert(less[j] == x);
        }
    }
    assert forall|x: A| less.to_set().insert(s[i]).contains(x) implies more.to_set().contains(x) by {
        if x == s[i] {
            assert(more[i] == x);
        } else {
            let j = choose|j: int| 0 <= j < less.len() && less[j] == x;
            assert(more[j] == x);
        }
    }
    assert(more.to_set() =~= less.to_set().insert(s[i]));
}

fn shown_histograms(m: &TextMap<Histogram>) -> (r: TextMap<HistogramSnapshot>)
    requires
        forall|k: Seq<char>| #[trigger]
            m.deep_view().contains_key(k) ==> m.deep_view()[k].wf(),
    ensures
        r.deep_view() == m.deep_view().map_values(|h: HistogramView| snapshot_of(h)),
{
    let keys = m.keys();
    let ghost names = keys.deep_view();
    let ghost all = m.deep_view();
    let ghost wanted = all.map_values(|h: HistogramView| snapshot_of(h));
    let mut out: TextMap<HistogramSnapshot> = TextMap::new();
    let mut i: usize = 0;
    assert(names.take(0).to_set() =~= Set::empty());
    assert(out.deep_view() =~= wanted.restrict(names.take(0).to_set()));
    while i < keys.len()
        invariant
            names == keys.deep_view(),
            names.to_set() == m@.dom(),
            all == m.deep_view(),
            wanted == all.map_values(|h: HistogramView| snapshot_of(h)),
            forall|k: Seq<char>| #[trigger] all.contains_key(k) ==> all[k].wf(),
            0 <= i <= keys@.len(),
            out.deep_view() == wanted.restrict(names.take(i as int).to_set()),
        decreases keys@.len() - i,
    {
        let ghost key = names[i as int];
        assert(key == keys@[i as int]@);
        assert(names.contains(key));
        assert(m@.contains_key(key));
        assert(all.contains_key(key));
        proof {
            lemma_take_set(names, i as int);
        }
        if let Some(h) = m.get(keys[i].as_str()) {
            assert(h.deep_view() == all[key]);
            let shown = h.snapshot();
            proof {
                deep_insert(out@, key, shown);
            }
            out.insert(keys[i].clone(), shown);
        }
        assert(out.deep_view() =~= wanted.restrict(names.take(i + 1).to_set()));
        i = i + 1;
    }
    assert(names.take(names.len() as int) =~= names);
    assert(out.deep_view() =~= wanted);
    out
}

/// The metrics at this time, where they are enabled.
pub fn emit_snapshot(state: &MetricsState) -> (r: Option<MetricsSnapshot>)
    requires
        state.deep_view().wf(),
    ensures
        match r {
            Some(s) => {
                &&& state.enabled
                &&& s.exported_at_ms >= 0
                &&& s.counters@ == state.deep_view().counters
                &&& s.gauges@ == state.deep_view().gauges
                &&& s.histograms.deep_view() == state.deep_view().histograms.map_values(
                    |h: HistogramView| snapshot_of(h),
                )
            },
            None => !state.enabled,
        },
{
    if !state.enabled {
        return None;
    }
    assert forall|k: Seq<char>| #[trigger]
        state.histograms.deep_view().contains_key(k) implies state.histograms.deep_view()[k].wf() by {
        assert(state.deep_view().histograms.contains_key(k));
    }
    Some(
        MetricsSnapshot {
            exported_at_ms: now_millis(),
            counters: copy_map(&state.counters),
            gauges: copy_map(&state.gauges),
            histograms: shown_histograms(&state.histograms),
        },
    )
}

// ---- laws --------------------------------------------------------------

/// Metrics that are not enabled never change.
pub proof fn disabled_metrics_stand_still(
    m: MetricsView,
    name: Seq<char>,
    delta: u64,
    value: int,
    value_ms: u64,
)
    requires
        !m.enabled,
    ensures
        m.counted(name, delta) == m,
        m.with_gauge(name, value) == m,
        m.observed(name, value_ms) == m,
{
}

/// What is done to one metric leaves every other one as it was.
pub proof fn metrics_are_independent(
    m: MetricsView,
    name: Seq<char>,
    other: Seq<char>,
    delta: u64,
    value: int,
    value_ms: u64,
)
    requires
        name != other,
    ensures
        m.counted(name, delta).counter(other) == m.counter(other),
        m.with_gauge(name, value).gauge(other) == m.gauge(other),
        m.observed(name, value_ms).histogram(other) == m.histogram(other),
{
}

/// A counter never goes down.
pub proof fn counters_only_grow(m: MetricsView, name: Seq<char>, delta: u64)
    ensures
        m.counted(name, delta).counter(name) >= m.counter(name),
{
}

/// What is counted adds up, as far as `u64` goes, and what a gauge is set to is
/// what it shows, as far as `i64` goes and never below zero.
pub proof fn metrics_show_what_was_counted(m: MetricsView, name: Seq<char>, delta: u64, value: int)
    requires
        m.enabled,
    ensures
        m.counter(name) + delta <= u64::MAX ==> m.counted(name, delta).counter(name) == m.counter(
            name,
        ) + delta,
        m.counter(name) + delta > u64::MAX ==> m.counted(name, delta).counter(name) == u64::MAX,
        0 <= value <= i64::MAX ==> m.with_gauge(name, value).gauge(name) == value,
        value < 0 ==> m.with_gauge(name, value).gauge(name) == 0,
        value > i64::MAX ==> m.with_gauge(name, value).gauge(name) == i64::MAX,
        m.counted(name, delta).gauges == m.gauges && m.counted(name, delta).histograms
            == m.histograms,
        m.with_gauge(name, value).counters == m.counters && m.with_gauge(name, value).histograms
            == m.histograms,
{
}

/// A value that is observed is counted once, in the bucket for it and in no
/// other, adds to the sum, and is the greatest where it is.
pub proof fn values_are_observed_once(m: MetricsView, name: Seq<char>, value_ms: u64, i: int)
    requires
        m.enabled,
        m.histogram(name).buckets.len() == 13,
        0 <= i < 13,
        m.histogram(name).count < u64::MAX,
        m.histogram(name).sum_ms + value_ms <= u64::MAX,
        forall|k: int| 0 <= k < 13 ==> (#[trigger] m.histogram(name).buckets[k]) < u64::MAX,
    ensures
        ({
            let before = m.histogram(name);
            let after = m.observed(name, value_ms).histogram(name);
            let limits = seq![1u64, 2, 5, 10, 25, 50, 100, 250, 500, 1000, 2500, 5000];
            let hit = (i == 12 || value_ms <= limits[i]) && (i == 0 || value_ms > limits[i - 1]);
            &&& after.count == before.count + 1
            &&& after.sum_ms == before.sum_ms + value_ms
            &&& after.max_ms >= value_ms && after.max_ms >= before.max_ms
            &&& after.max_ms == value_ms || after.max_ms == before.max_ms
            &&& after.buckets.len() == 13
            &&& after.buckets[i] == before.buckets[i] + if hit {
                1int
            } else {
                0int
            }
        }),
{
    buckets_part_the_values(value_ms, 0);
    lemma_bounds_grow();
    let b = bucket_of(value_ms);
    let before = m.histogram(name);
    assert(before.buckets[b] < u64::MAX);
    assert(before.buckets[i] < u64::MAX);
    if i > b && b < 12 {
        assert(bounds()[b] <= bounds()[i - 1]);
    }
    if i < b {
        assert(bounds()[i] <= bounds()[b - 1]);
    }
}

proof fn lemma_bounds_grow()
    ensures
        bounds().len() == 12,
        forall|a: int, b: int| 0 <= a <= b < 12 ==> bounds()[a] <= bounds()[b],
{
}

/// A duration is recorded in whole milliseconds.
pub proof fn durations_are_recorded_in_milliseconds(ms: u64, rest: u128)
    requires
        rest < 1_000_000,
    ensures
        millis_of(Duration { nanos: (ms * 1_000_000 + rest) as u128 }) == ms,
{
}

/// Metrics that were never touched read as nothing.
pub proof fn untouched_metrics_read_as_nothing(m: MetricsView, name: Seq<char>, i: int)
    requires
        0 <= i < 13,
    ensures
        !m.counters.contains_key(name) ==> m.counter(name) == 0,
        !m.gauges.contains_key(name) ==> m.gauge(name) == 0,
        !m.histograms.contains_key(name) ==> {
            let h = m.histogram(name);
            &&& h.count == 0 && h.sum_ms == 0 && h.max_ms == 0
            &&& h.buckets.len() == 13 && h.buckets[i] == 0
        },
{
}

/// A bucket is named by the most that goes into it, and the last one by what
/// goes beyond; a snapshot shows the totals as they are.
pub proof fn buckets_are_named_by_their_limit(h: HistogramView, i: int)
    requires
        0 <= i < 13,
    ensures
        ({
            let limits = seq![1u64, 2, 5, 10, 25, 50, 100, 250, 500, 1000, 2500, 5000];
            &&& i < 12 ==> bucket_name(i) == "le_"@ + decimal(limits[i] as nat) + "ms"@
            &&& i == 12 ==> bucket_name(i) == "gt_5000ms"@
        }),
        snapshot_of(h).count == h.count,
        snapshot_of(h).sum_ms == h.sum_ms,
        snapshot_of(h).max_ms == h.max_ms,
{
}

/// The latency of an actor is recorded under its name.
pub proof fn latencies_are_recorded_by_name(actor: Seq<char>)
    ensures
        latency_name(actor) == "latency.actor."@ + actor + "_ms"@,
{
}

/// A setting of zero counts as one, and every other as itself.
pub proof fn settings_are_at_least_one(n: u64)
    ensures
        n > 0 ==> one_or_more(n) == n,
        n == 0 ==> one_or_more(n) == 1,
{
}

/// The totals of two runs of counts add up, and that of one count is that
/// count.
pub proof fn totals_add_up(a: Seq<u64>, b: Seq<u64>, n: u64)
    ensures
        total(a + b) == total(a) + total(b),
        total(seq![n]) == n,
    decreases b.len(),
{
    assert(seq![n].drop_last() =~= Seq::empty());
    assert(total(seq![n].drop_last()) == 0);
    if b.len() > 0 {
        assert((a + b).drop_last() =~= a + b.drop_last());
        totals_add_up(a, b.drop_last(), n);
    } else {
        assert(a + b =~= a);
    }
}

/// A snapshot shows the buckets that there are under their names, and nothing
/// else.
pub proof fn only_buckets_are_shown(buckets: Seq<u64>, n: int, name: Seq<char>)
    requires
        0 <= n,
        named(buckets, n).contains_key(name),
    ensures
        exists|i: int| 0 <= i < n && name == #[trigger] bucket_name(i),
    decreases n,
{
    if n > 0 && name != bucket_name(n - 1) {
        only_buckets_are_shown(buckets, n - 1, name);
        let i = choose|i: int| 0 <= i < n - 1 && name == #[trigger] bucket_name(i);
        assert(name == bucket_name(i));
    }
}

} // verus!
