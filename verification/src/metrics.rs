//! Metrics collection for service resolution timing, scope counts and custom counters,
//! and health status scoring.
use vstd::prelude::*;
use std::sync::Arc;
use std::time::SystemTime;
use crate::key::{Key, KeyId};
use crate::keymap::{KeyMap, lemma_value_at, entries_after_insert};
use crate::textmap::{TextMap, lemma_text_value_at, text_entries_after_insert};
use crate::time::Duration;
use crate::sorting::{sort_durations, sort_by_duration_desc, sorted_asc, sorted_desc_by_duration};
use crate::text::{push_str, push_decimal, push_seconds, decimal, seconds_text, to_string};
use crate::support::arc_clone;

verus! {

#[verifier::external_type_specification]
#[verifier::external_body]
pub struct ExSystemTime(SystemTime);

/// `SystemTime::now()` from std: the wall-clock time; nothing is claimed.
#[verifier::external_body]
fn system_now() -> SystemTime {
    SystemTime::now()
}

/// How many recent resolution times are kept for percentiles.
pub open spec fn recent_window() -> nat {
    100
}

/// Timing statistics of one service.
#[derive(Debug, Clone)]
pub struct TimingStats {
    /// Total number of resolutions
    pub count: u64,
    /// Minimum resolution time
    pub min_duration: Duration,
    /// Maximum resolution time
    pub max_duration: Duration,
    /// Total accumulated time
    pub total_duration: Duration,
    /// Recent resolution times (for percentiles)
    pub recent_times: Vec<Duration>,
}

/// The recent times after recording `d`: the oldest is dropped once the window is full.
pub open spec fn recent_after(recent: Seq<Duration>, d: Duration) -> Seq<Duration> {
    if recent.len() >= recent_window() {
        recent.drop_first().push(d)
    } else {
        recent.push(d)
    }
}

/// The position of the 95th percentile among `len` sorted times.
pub open spec fn p95_index(len: nat) -> int {
    let i = (len * 95) / 100;
    if i < len - 1 {
        i as int
    } else {
        len - 1
    }
}

/// Whether the average of stats with this count can be computed (the count is divided as a
/// 32-bit number, which must not be zero for a non-zero count).
pub open spec fn average_defined(count: u64) -> bool {
    count == 0 || (count as u32) != 0
}

impl TimingStats {
    /// Empty statistics: no resolutions, the largest minimum and zero maximum.
    pub fn new() -> (s: TimingStats)
        ensures
            s.count == 0,
            s.min_duration.total_nanos() == Duration::max_nanos(),
            s.max_duration.total_nanos() == 0,
            s.total_duration.total_nanos() == 0,
            s.recent_times@ == Seq::<Duration>::empty(),
    {
        TimingStats {
            count: 0,
            min_duration: Duration::max_value(),
            max_duration: Duration::zero(),
            total_duration: Duration::zero(),
            recent_times: Vec::new(),
        }
    }

    /// A copy of the statistics.
    pub fn duplicate(&self) -> (r: TimingStats)
        ensures
            r.count == self.count,
            r.min_duration == self.min_duration,
            r.max_duration == self.max_duration,
            r.total_duration == self.total_duration,
            r.recent_times@ == self.recent_times@,
    {
        TimingStats {
            count: self.count,
            min_duration: self.min_duration,
            max_duration: self.max_duration,
            total_duration: self.total_duration,
            recent_times: self.recent_times.clone(),
        }
    }

    /// Add a new timing measurement.
    pub fn record(&mut self, duration: Duration)
        requires
            old(self).count < u64::MAX,
            old(self).total_duration.total_nanos() + duration.total_nanos() <= Duration::max_nanos(),
        ensures
            final(self).count == old(self).count + 1,
            final(self).min_duration.total_nanos() == if duration.total_nanos()
                < old(self).min_duration.total_nanos() {
                duration.total_nanos()
            } else {
                old(self).min_duration.total_nanos()
            },
            final(self).max_duration.total_nanos() == if duration.total_nanos()
                > old(self).max_duration.total_nanos() {
                duration.total_nanos()
            } else {
                old(self).max_duration.total_nanos()
            },
            final(self).total_duration.total_nanos() == old(self).total_duration.total_nanos()
                + duration.total_nanos(),
            final(self).recent_times@ == recent_after(old(self).recent_times@, duration),
    {
        self.count = self.count + 1;
        self.min_duration = self.min_duration.min_of(duration);
        self.max_duration = self.max_duration.max_of(duration);
        self.total_duration = self.total_duration.saturating_add(duration);
        if self.recent_times.len() >= 100 {
            self.recent_times.remove(0);
        }
        self.recent_times.push(duration);
        proof {
            if old(self).recent_times@.len() >= 100 {
                assert(old(self).recent_times@.remove(0) =~= old(self).recent_times@.drop_first());
            }
        }
    }

    /// Calculate average resolution time: zero with no resolutions, otherwise the total
    /// divided by the count taken as a 32-bit number.
    pub fn average_duration(&self) -> (d: Duration)
        requires
            average_defined(self.count),
        ensures
            self.count == 0 ==> d.total_nanos() == 0,
            self.count != 0 ==> d.total_nanos() == self.total_duration.total_nanos() / ((
            self.count as u32) as int),
            d == average_of(*self),
    {
        if self.count == 0 {
            Duration::zero()
        } else {
            self.total_duration.div_u32(self.count as u32)
        }
    }

    /// Calculate the 95th percentile of the recent resolution times: zero with none,
    /// otherwise the time at position `len * 95 / 100` (at most the last) in sorted order.
    pub fn p95_duration(&self) -> (d: Duration)
        ensures
            self.recent_times@.len() == 0 ==> d.total_nanos() == 0,
            self.recent_times@.len() > 0 ==> exists|sorted: Seq<Duration>|
                #![trigger sorted_asc(sorted)]
                sorted_asc(sorted) && sorted.to_multiset() == self.recent_times@.to_multiset()
                    && sorted.len() == self.recent_times@.len() && d == sorted[p95_index(
                    self.recent_times@.len(),
                )],
    {
        if self.recent_times.len() == 0 {
            return Duration::zero();
        }
        let sorted = sort_durations(&self.recent_times);
        let len = sorted.len();
        let wide: u128 = len as u128 * 95 / 100;
        assert(wide <= len) by (nonlinear_arith)
            requires wide == len as u128 * 95 / 100;
        let index = wide as usize;
        let last = len - 1;
        let i = if index < last { index } else { last };
        sorted[i]
    }
}

/// Overall system metrics.
#[derive(Debug, Clone, Copy)]
pub struct SystemMetrics {
    /// Start time of the metrics collection
    pub start_time: SystemTime,
    /// Total services resolved
    pub total_resolutions: u64,
    /// Total scopes created
    pub scopes_created: u64,
    /// Total services disposed
    pub services_disposed: u64,
    /// Current active scopes
    pub active_scopes: u64,
    /// Memory usage estimates
    pub estimated_memory_kb: u64,
}

/// Central metrics collector.
pub struct MetricsCollector {
    resolution_times: KeyMap<TimingStats>,
    system_metrics: SystemMetrics,
    counters: TextMap<u64>,
}

/// Timing statistics of the service after recording `d` (starting from empty statistics
/// for a service seen for the first time).
pub open spec fn stats_after_record(prev: Option<TimingStats>, d: Duration) -> (int, int, int, int, Seq<Duration>) {
    match prev {
        Some(s) => (
            s.count + 1,
            if d.total_nanos() < s.min_duration.total_nanos() { d.total_nanos() } else { s.min_duration.total_nanos() },
            if d.total_nanos() > s.max_duration.total_nanos() { d.total_nanos() } else { s.max_duration.total_nanos() },
            s.total_duration.total_nanos() + d.total_nanos(),
            recent_after(s.recent_times@, d),
        ),
        None => (1, d.total_nanos(), d.total_nanos(), d.total_nanos(), seq![d]),
    }
}

/// The counts, minimum, maximum, total and recent times of a statistics record.
pub open spec fn stats_summary(s: TimingStats) -> (int, int, int, int, Seq<Duration>) {
    (s.count as int, s.min_duration.total_nanos(), s.max_duration.total_nanos(), s.total_duration.total_nanos(), s.recent_times@)
}

/// One timing line pair of the Prometheus export.
pub open spec fn prometheus_stats_lines(k: Key, s: TimingStats) -> Seq<char> {
    "ferrous_di_resolution_duration_seconds_sum{service=\""@ + k.spec_display_name()@ + "\"} "@
        + seconds_text(s.total_duration.total_nanos() as nat / 1_000_000_000, s.total_duration.total_nanos() as nat % 1_000_000_000)
        + "\nferrous_di_resolution_duration_seconds_count{service=\""@ + k.spec_display_name()@ + "\"} "@
        + decimal(s.count as nat) + "\n"@
}

/// The timing lines of every service, in order.
pub open spec fn prometheus_all_stats(es: Seq<(Key, TimingStats)>) -> Seq<char>
    decreases es.len(),
{
    if es.len() == 0 {
        Seq::empty()
    } else {
        prometheus_all_stats(es.drop_last()) + prometheus_stats_lines(es.last().0, es.last().1)
    }
}

/// The block of one custom counter in the Prometheus export.
pub open spec fn prometheus_counter_block(name: Seq<char>, value: u64) -> Seq<char> {
    "# HELP ferrous_di_"@ + name + " Custom counter\n# TYPE ferrous_di_"@ + name + " counter\nferrous_di_"@
        + name + " "@ + decimal(value as nat) + "\n\n"@
}

/// The blocks of every counter, in order.
pub open spec fn prometheus_all_counters(es: Seq<(String, u64)>) -> Seq<char>
    decreases es.len(),
{
    if es.len() == 0 {
        Seq::empty()
    } else {
        prometheus_all_counters(es.drop_last()) + prometheus_counter_block(es.last().0@, es.last().1)
    }
}

/// The whole Prometheus export of a collector.
pub open spec fn prometheus_text(total_resolutions: u64, active_scopes: u64, stats: Seq<(Key, TimingStats)>, counters: Seq<(String, u64)>) -> Seq<char> {
    "# HELP ferrous_di_total_resolutions Total number of service resolutions\n# TYPE ferrous_di_total_resolutions counter\nferrous_di_total_resolutions "@
        + decimal(total_resolutions as nat) + "\n\n"@
        + "# HELP ferrous_di_active_scopes Current number of active scopes\n# TYPE ferrous_di_active_scopes gauge\nferrous_di_active_scopes "@
        + decimal(active_scopes as nat) + "\n\n"@
        + "# HELP ferrous_di_resolution_duration_seconds Time spent resolving services\n# TYPE ferrous_di_resolution_duration_seconds histogram\n"@
        + prometheus_all_stats(stats) + "\n"@ + prometheus_all_counters(counters)
}

impl MetricsCollector {
    /// Per-service timing statistics, by key identity.
    pub closed spec fn timings(&self) -> Map<KeyId, TimingStats> {
        self.resolution_times.view()
    }

    /// Per-service timing statistics in order of first resolution.
    pub closed spec fn timing_entries(&self) -> Seq<(Key, TimingStats)> {
        self.resolution_times.entries()
    }

    /// The system-wide metrics.
    pub closed spec fn system(&self) -> SystemMetrics {
        self.system_metrics
    }

    /// The custom counters, by name.
    pub closed spec fn counter_values(&self) -> Map<Seq<char>, u64> {
        self.counters.view()
    }

    /// The custom counters in order of first increment.
    pub closed spec fn counter_entries(&self) -> Seq<(String, u64)> {
        self.counters.entries()
    }

    /// Internal consistency.
    pub closed spec fn wf(&self) -> bool {
        self.resolution_times.wf() && self.counters.wf()
    }

    /// Create a new metrics collector with everything at zero.
    pub fn new() -> (m: MetricsCollector)
        ensures
            m.wf(),
            m.timings() == Map::<KeyId, TimingStats>::empty(),
            m.timing_entries().len() == 0,
            m.counter_values() == Map::<Seq<char>, u64>::empty(),
            m.counter_entries().len() == 0,
            m.system().total_resolutions == 0,
            m.system().scopes_created == 0,
            m.system().services_disposed == 0,
            m.system().active_scopes == 0,
            m.system().estimated_memory_kb == 0,
    {
        MetricsCollector {
            resolution_times: KeyMap::new(),
            system_metrics: SystemMetrics {
                start_time: system_now(),
                total_resolutions: 0,
                scopes_created: 0,
                services_disposed: 0,
                active_scopes: 0,
                estimated_memory_kb: 0,
            },
            counters: TextMap::new(),
        }
    }

    /// Record a service resolution timing: the service's statistics record the time and
    /// the total resolution count grows by one.
    pub fn record_resolution(&mut self, key: &Key, duration: Duration)
        requires
            old(self).wf(),
            old(self).system().total_resolutions < u64::MAX,
            old(self).timings().contains_key(key.id()) ==> {
                &&& old(self).timings()[key.id()].count < u64::MAX
                &&& old(self).timings()[key.id()].total_duration.total_nanos() + duration.total_nanos()
                    <= Duration::max_nanos()
            },
        ensures
            final(self).wf(),
            final(self).timings().dom() == old(self).timings().dom().insert(key.id()),
            stats_summary(final(self).timings()[key.id()]) == stats_after_record(
                if old(self).timings().contains_key(key.id()) {
                    Some(old(self).timings()[key.id()])
                } else {
                    None
                },
                duration,
            ),
            forall|id: KeyId| id != key.id() && #[trigger] old(self).timings().contains_key(id) ==> final(self).timings()[id] == old(self).timings()[id],
            final(self).timing_entries() == entries_after_insert(old(self).timing_entries(), *key, final(self).timings()[key.id()]),
            final(self).system() == (SystemMetrics { total_resolutions: (old(self).system().total_resolutions + 1) as u64, ..old(self).system() }),
            final(self).counter_values() == old(self).counter_values(),
            final(self).counter_entries() == old(self).counter_entries(),
    {
        let mut stats = match self.resolution_times.get(key) {
            Some(s) => s.duplicate(),
            None => TimingStats::new(),
        };
        proof {
            use_type_invariant(&duration);
            duration.lemma_bounds();
        }
        stats.record(duration);
        proof {
            if !old(self).timings().contains_key(key.id()) {
                assert(stats.recent_times@ =~= seq![duration]);
            }
        }
        self.resolution_times.insert(*key, stats);
        self.system_metrics.total_resolutions = self.system_metrics.total_resolutions + 1;
        proof {
            assert(self.timings().dom() =~= old(self).timings().dom().insert(key.id()));
        }
    }

    /// Record scope creation.
    pub fn record_scope_created(&mut self)
        requires
            old(self).system().scopes_created < u64::MAX,
            old(self).system().active_scopes < u64::MAX,
        ensures
            final(self).system() == (SystemMetrics {
                scopes_created: (old(self).system().scopes_created + 1) as u64,
                active_scopes: (old(self).system().active_scopes + 1) as u64,
                ..old(self).system()
            }),
            final(self).timings() == old(self).timings(),
            final(self).timing_entries() == old(self).timing_entries(),
            final(self).counter_values() == old(self).counter_values(),
            final(self).counter_entries() == old(self).counter_entries(),
            final(self).wf() == old(self).wf(),
    {
        self.system_metrics.scopes_created = self.system_metrics.scopes_created + 1;
        self.system_metrics.active_scopes = self.system_metrics.active_scopes + 1;
    }

    /// Record scope disposal: the active count decreases, but not below zero.
    pub fn record_scope_disposed(&mut self)
        ensures
            final(self).system() == (SystemMetrics {
                active_scopes: if old(self).system().active_scopes > 0 {
                    (old(self).system().active_scopes - 1) as u64
                } else {
                    0
                },
                ..old(self).system()
            }),
            final(self).timings() == old(self).timings(),
            final(self).timing_entries() == old(self).timing_entries(),
            final(self).counter_values() == old(self).counter_values(),
            final(self).counter_entries() == old(self).counter_entries(),
            final(self).wf() == old(self).wf(),
    {
        if self.system_metrics.active_scopes > 0 {
            self.system_metrics.active_scopes = self.system_metrics.active_scopes - 1;
        }
    }

    /// Record service disposal.
    pub fn record_service_disposed(&mut self)
        requires
            old(self).system().services_disposed < u64::MAX,
        ensures
            final(self).system() == (SystemMetrics {
                services_disposed: (old(self).system().services_disposed + 1) as u64,
                ..old(self).system()
            }),
            final(self).timings() == old(self).timings(),
            final(self).timing_entries() == old(self).timing_entries(),
            final(self).counter_values() == old(self).counter_values(),
            final(self).counter_entries() == old(self).counter_entries(),
            final(self).wf() == old(self).wf(),
    {
        self.system_metrics.services_disposed = self.system_metrics.services_disposed + 1;
    }

    /// Increment a named counter (a counter not seen before starts at one).
    pub fn increment_counter(&mut self, name: &str)
        requires
            old(self).wf(),
            old(self).counter_values().contains_key(name@) ==> old(self).counter_values()[name@] < u64::MAX,
        ensures
            final(self).wf(),
            final(self).counter_values() == old(self).counter_values().insert(
                name@,
                if old(self).counter_values().contains_key(name@) {
                    (old(self).counter_values()[name@] + 1) as u64
                } else {
                    1
                },
            ),
            exists|k: String| k@ == name@ && #[trigger] text_entries_after_insert(
                old(self).counter_entries(),
                k,
                final(self).counter_values()[name@],
            ) == final(self).counter_entries(),
            final(self).timings() == old(self).timings(),
            final(self).timing_entries() == old(self).timing_entries(),
            final(self).system() == old(self).system(),
    {
        let next: u64 = match self.counters.get(name) {
            Some(v) => *v + 1,
            None => 1,
        };
        let k = to_string(name);
        let ghost kg = k;
        self.counters.insert(k, next);
        assert(text_entries_after_insert(old(self).counter_entries(), kg, self.counter_values()[name@])
            == self.counter_entries());
    }

    /// Get timing stats for a specific service.
    pub fn get_timing_stats(&self, key: &Key) -> (r: Option<TimingStats>)
        requires
            self.wf(),
        ensures
            r is None <==> !self.timings().contains_key(key.id()),
            r matches Some(s) ==> stats_summary(s) == stats_summary(self.timings()[key.id()]),
    {
        match self.resolution_times.get(key) {
            Some(s) => Some(s.duplicate()),
            None => None,
        }
    }

    /// Get system-wide metrics.
    pub fn get_system_metrics(&self) -> (r: SystemMetrics)
        ensures
            r == self.system(),
    {
        self.system_metrics
    }

    /// Get all counters.
    pub fn get_counters(&self) -> (r: TextMap<u64>)
        ensures
            r.view() == self.counter_values(),
            r.entries() == self.counter_entries(),
    {
        self.counters.copy_map()
    }

    /// The services with the highest average resolution time, slowest first, at most
    /// `limit` of them.
    pub fn get_slowest_services(&self, limit: usize) -> (r: Vec<(Key, Duration)>)
        requires
            self.wf(),
            forall|i: int| 0 <= i < self.timing_entries().len() ==> average_defined(#[trigger] self.timing_entries()[i].1.count),
        ensures
            r@.len() == if limit < self.timing_entries().len() { limit as int } else { self.timing_entries().len() as int },
            sorted_desc_by_duration(r@),
            exists|all: Seq<(Key, Duration)>| #![trigger sorted_desc_by_duration(all)]
                sorted_desc_by_duration(all)
                && all.len() == self.timing_entries().len()
                && all.to_multiset() == Seq::new(self.timing_entries().len(), |i: int| (
                    self.timing_entries()[i].0,
                    average_of(self.timing_entries()[i].1),
                )).to_multiset()
                && r@ == all.take(r@.len() as int),
    {
        let n = self.resolution_times.len();
        let ghost avgs = Seq::new(self.timing_entries().len(), |i: int| (
            self.timing_entries()[i].0,
            average_of(self.timing_entries()[i].1),
        ));
        let mut services: Vec<(Key, Duration)> = Vec::new();
        let mut i: usize = 0;
        while i < n
            invariant
                n == self.timing_entries().len(),
                0 <= i <= n,
                forall|j: int| 0 <= j < self.timing_entries().len() ==> average_defined(#[trigger] self.timing_entries()[j].1.count),
                avgs == Seq::new(self.timing_entries().len(), |i: int| (
                    self.timing_entries()[i].0,
                    average_of(self.timing_entries()[i].1),
                )),
                services@ == avgs.take(i as int),
            decreases n - i,
        {
            let (k, s) = self.resolution_times.entry_at(i);
            let avg = s.average_duration();
            services.push((*k, avg));
            proof {
                assert(average_defined(self.timing_entries()[i as int].1.count));
                assert(services@ =~= avgs.take(i + 1));
            }
            i = i + 1;
        }
        proof {
            assert(avgs.take(n as int) =~= avgs);
        }
        let mut sorted = sort_by_duration_desc(&services);
        let ghost all = sorted@;
        if limit < sorted.len() {
            sorted.truncate(limit);
        }
        proof {
            assert(sorted@ =~= all.take(sorted@.len() as int));
        }
        sorted
    }

    /// Export metrics in Prometheus text format.
    #[verifier::rlimit(40)]
    pub fn export_prometheus(&self) -> (r: String)
        ensures
            r@ == prometheus_text(
                self.system().total_resolutions,
                self.system().active_scopes,
                self.timing_entries(),
                self.counter_entries(),
            ),
    {
        let mut out = String::new();
        push_str(&mut out, "# HELP ferrous_di_total_resolutions Total number of service resolutions\n# TYPE ferrous_di_total_resolutions counter\nferrous_di_total_resolutions ");
        push_decimal(&mut out, self.system_metrics.total_resolutions);
        push_str(&mut out, "\n\n");
        push_str(&mut out, "# HELP ferrous_di_active_scopes Current number of active scopes\n# TYPE ferrous_di_active_scopes gauge\nferrous_di_active_scopes ");
        push_decimal(&mut out, self.system_metrics.active_scopes);
        push_str(&mut out, "\n\n");
        push_str(&mut out, "# HELP ferrous_di_resolution_duration_seconds Time spent resolving services\n# TYPE ferrous_di_resolution_duration_seconds histogram\n");
        let ghost head = out@;
        let n = self.resolution_times.len();
        let mut i: usize = 0;
        while i < n
            invariant
                n == self.timing_entries().len(),
                0 <= i <= n,
                out@ == head + prometheus_all_stats(self.timing_entries().take(i as int)),
            decreases n - i,
        {
            let (k, s) = self.resolution_times.entry_at(i);
            let name = k.display_name();
            push_str(&mut out, "ferrous_di_resolution_duration_seconds_sum{service=\"");
            push_str(&mut out, name);
            push_str(&mut out, "\"} ");
            let secs = s.total_duration.as_secs();
            let sub = s.total_duration.subsec_nanos();
            push_seconds(&mut out, secs, sub);
            push_str(&mut out, "\nferrous_di_resolution_duration_seconds_count{service=\"");
            push_str(&mut out, name);
            push_str(&mut out, "\"} ");
            push_decimal(&mut out, s.count);
            push_str(&mut out, "\n");
            proof {
                let es = self.timing_entries();
                assert(es.take(i + 1).drop_last() =~= es.take(i as int));
                assert(es.take(i + 1).last() == es[i as int]);
                assert(es[i as int] == (*k, *s));
            }
            i = i + 1;
        }
        proof {
            assert(self.timing_entries().take(n as int) =~= self.timing_entries());
        }
        push_str(&mut out, "\n");
        let ghost mid = out@;
        let m = self.counters.len();
        let mut j: usize = 0;
        while j < m
            invariant
                m == self.counter_entries().len(),
                0 <= j <= m,
                out@ == mid + prometheus_all_counters(self.counter_entries().take(j as int)),
            decreases m - j,
        {
            let (name, value) = self.counters.entry_at(j);
            push_str(&mut out, "# HELP ferrous_di_");
            push_str(&mut out, name.as_str());
            push_str(&mut out, " Custom counter\n# TYPE ferrous_di_");
            push_str(&mut out, name.as_str());
            push_str(&mut out, " counter\nferrous_di_");
            push_str(&mut out, name.as_str());
            push_str(&mut out, " ");
            push_decimal(&mut out, *value);
            push_str(&mut out, "\n\n");
            proof {
                let es = self.counter_entries();
                assert(es.take(j + 1).drop_last() =~= es.take(j as int));
                assert(es.take(j + 1).last() == es[j as int]);
            }
            j = j + 1;
        }
        proof {
            assert(self.counter_entries().take(m as int) =~= self.counter_entries());
        }
        out
    }
}

/// The average resolution time of a statistics record, as `average_duration` computes it.
pub open spec fn average_of(s: TimingStats) -> Duration {
    if s.count == 0 {
        Duration::of_nanos(0)
    } else {
        Duration::of_nanos(s.total_duration.total_nanos() / ((s.count as u32) as int))
    }
}


/// The health of the container or of one of its parts.
#[derive(Debug, Clone, PartialEq)]
pub enum HealthStatus {
    Healthy,
    Degraded(String),
    Unhealthy(String),
}

/// The numeric score (0-100) of a status.
pub open spec fn status_score(s: HealthStatus) -> nat {
    match s {
        HealthStatus::Healthy => 100,
        HealthStatus::Degraded(_) => 50,
        HealthStatus::Unhealthy(_) => 0,
    }
}

/// Sum of the scores of named results.
pub open spec fn total_score(es: Seq<(String, HealthStatus)>) -> nat
    decreases es.len(),
{
    if es.len() == 0 {
        0
    } else {
        total_score(es.drop_last()) + status_score(es.last().1)
    }
}

/// Overall score of named results: 100 with none, else the integer mean of the scores.
pub open spec fn average_score(es: Seq<(String, HealthStatus)>) -> nat {
    if es.len() == 0 {
        100
    } else {
        total_score(es) / es.len()
    }
}

impl HealthStatus {
    /// Check if the status indicates health.
    pub fn is_healthy(&self) -> (r: bool)
        ensures
            r == (*self is Healthy),
    {
        match self {
            HealthStatus::Healthy => true,
            _ => false,
        }
    }

    /// Get a numeric score (0-100) for the health status.
    pub fn score(&self) -> (r: u8)
        ensures
            r == status_score(*self),
    {
        match self {
            HealthStatus::Healthy => 100,
            HealthStatus::Degraded(_) => 50,
            HealthStatus::Unhealthy(_) => 0,
        }
    }
}

/// What the memory check reports for an estimated memory use: degraded above one million
/// KB, otherwise healthy.
pub open spec fn memory_status_is(estimated_memory_kb: u64, s: HealthStatus) -> bool {
    if estimated_memory_kb > 1_000_000 {
        s matches HealthStatus::Degraded(m) && m@ == "High memory usage"@
    } else {
        s is Healthy
    }
}

/// What the scope check reports for a number of active scopes: degraded above 1000,
/// otherwise healthy.
pub open spec fn scope_status_is(active_scopes: u64, s: HealthStatus) -> bool {
    if active_scopes > 1000 {
        s matches HealthStatus::Degraded(m) && m@ == "High number of active scopes"@
    } else {
        s is Healthy
    }
}

/// The status the memory check gives (the critical level above two million KB is tested
/// after the degraded one and so is never reported).
fn memory_usage_status(estimated_memory_kb: u64) -> (s: HealthStatus)
    ensures
        memory_status_is(estimated_memory_kb, s),
{
    if estimated_memory_kb > 1_000_000 {
        HealthStatus::Degraded(to_string("High memory usage"))
    } else if estimated_memory_kb > 2_000_000 {
        HealthStatus::Unhealthy(to_string("Critical memory usage"))
    } else {
        HealthStatus::Healthy
    }
}

/// The status the scope check gives (the critical level above 5000 is tested after the
/// degraded one and so is never reported).
fn scope_count_status(active_scopes: u64) -> (s: HealthStatus)
    ensures
        scope_status_is(active_scopes, s),
{
    if active_scopes > 1000 {
        HealthStatus::Degraded(to_string("High number of active scopes"))
    } else if active_scopes > 5000 {
        HealthStatus::Unhealthy(to_string("Critical number of active scopes"))
    } else {
        HealthStatus::Healthy
    }
}

/// A registered health check: one of the two built-in checks on the metrics, or a
/// function of the user's.
pub enum HealthCheck<F> {
    MemoryUsage,
    ScopeCount,
    Custom(F),
}

/// Whether `s` is a status that check `c` can report, given the system metrics.
pub open spec fn check_reports<F: Fn() -> HealthStatus>(c: HealthCheck<F>, system: SystemMetrics, s: HealthStatus) -> bool {
    match c {
        HealthCheck::MemoryUsage => memory_status_is(system.estimated_memory_kb, s),
        HealthCheck::ScopeCount => scope_status_is(system.active_scopes, s),
        HealthCheck::Custom(f) => f.ensures((), s),
    }
}

/// Whether a check can be run: a user check must accept being called with no arguments.
pub open spec fn check_runnable<F: Fn() -> HealthStatus>(c: HealthCheck<F>) -> bool {
    match c {
        HealthCheck::Custom(f) => f.requires(()),
        _ => true,
    }
}

/// Health check system for monitoring service container health.
pub struct HealthChecker<F> {
    checks: TextMap<HealthCheck<F>>,
    metrics: Arc<MetricsCollector>,
}

/// The overall score of named results, as `overall_health_score` computes it.
pub fn health_score_of(results: &TextMap<HealthStatus>) -> (r: u8)
    requires
        results.entries().len() * 100 <= u32::MAX,
    ensures
        r == average_score(results.entries()),
{
    let n = results.len();
    if n == 0 {
        return 100;
    }
    let ghost es = results.entries();
    let mut total: u32 = 0;
    let mut i: usize = 0;
    while i < n
        invariant
            n == es.len(),
            es == results.entries(),
            n * 100 <= u32::MAX,
            0 <= i <= n,
            total == total_score(es.take(i as int)),
            total <= 100 * i,
        decreases n - i,
    {
        let (_, status) = results.entry_at(i);
        let sc = status.score();
        proof {
            assert(es.take(i + 1).drop_last() =~= es.take(i as int));
            assert(es.take(i + 1).last() == es[i as int]);
        }
        total = total + sc as u32;
        i = i + 1;
    }
    proof {
        assert(es.take(n as int) =~= es);
    }
    let avg = total / (n as u32);
    assert(avg <= 100) by (nonlinear_arith)
        requires avg == total / (n as u32), total <= 100 * n, n >= 1, n * 100 <= u32::MAX;
    avg as u8
}

impl<F: Fn() -> HealthStatus> HealthChecker<F> {
    /// The registered checks with their names, in order of registration.
    pub closed spec fn checks(&self) -> Seq<(String, HealthCheck<F>)> {
        self.checks.entries()
    }

    /// The names of the registered checks, in order of registration.
    pub open spec fn check_names(&self) -> Seq<Seq<char>> {
        self.checks().map_values(|e: (String, HealthCheck<F>)| e.0@)
    }

    /// The metrics the built-in checks read.
    pub closed spec fn metrics(&self) -> MetricsCollector {
        *self.metrics
    }

    /// Internal consistency: no name is registered twice and every user check can be run.
    pub closed spec fn wf(&self) -> bool {
        &&& self.checks.wf()
        &&& forall|i: int| 0 <= i < self.checks.entries().len() ==> check_runnable(#[trigger] self.checks.entries()[i].1)
    }

    /// Create a new health checker with the default memory and scope checks registered.
    pub fn new(metrics: Arc<MetricsCollector>) -> (c: HealthChecker<F>)
        ensures
            c.wf(),
            c.check_names() == seq!["memory_usage"@, "scope_count"@],
            c.checks()[0].1 is MemoryUsage,
            c.checks()[1].1 is ScopeCount,
            c.metrics() == *metrics,
    {
        let mut c = HealthChecker { checks: TextMap::new(), metrics };
        c.register_default_checks();
        c
    }

    /// Registers the built-in checks: memory usage, then the number of active scopes.
    fn register_default_checks(&mut self)
        requires
            old(self).checks.wf(),
            old(self).checks.entries().len() == 0,
        ensures
            final(self).wf(),
            final(self).check_names() == seq!["memory_usage"@, "scope_count"@],
            final(self).checks()[0].1 is MemoryUsage,
            final(self).checks()[1].1 is ScopeCount,
            final(self).metrics() == old(self).metrics(),
    {
        self.checks.insert(to_string("memory_usage"), HealthCheck::MemoryUsage);
        proof {
            reveal_strlit("memory_usage");
            reveal_strlit("scope_count");
            assert("memory_usage"@.len() != "scope_count"@.len());
            assert(self.checks.entries()[0].0@ == "memory_usage"@);
        }
        self.checks.insert(to_string("scope_count"), HealthCheck::ScopeCount);
        proof {
            assert(self.check_names() =~= seq!["memory_usage"@, "scope_count"@]);
        }
    }

    /// Register a health check function under a name; a check already registered under the
    /// name is replaced and keeps its place.
    pub fn register_check(&mut self, name: String, check: F)
        requires
            old(self).wf(),
            check.requires(()),
        ensures
            final(self).wf(),
            final(self).metrics() == old(self).metrics(),
            old(self).check_names().contains(name@) ==> final(self).check_names() == old(self).check_names(),
            !old(self).check_names().contains(name@) ==> final(self).check_names() == old(self).check_names().push(name@),
            forall|i: int| 0 <= i < final(self).checks().len() ==> (#[trigger] final(self).checks()[i]).0@ == name@
                ==> final(self).checks()[i].1 == HealthCheck::Custom(check),
            forall|i: int| 0 <= i < old(self).checks().len() ==> (#[trigger] old(self).checks()[i]).0@ != name@
                ==> final(self).checks()[i] == old(self).checks()[i],
    {
        let ghost old_names = self.check_names();
        let ghost before = self.checks.entries();
        match self.checks.index_of(name.as_str()) {
            Some(i) => {
                self.checks.replace_at(i, HealthCheck::Custom(check));
                proof {
                    assert(self.check_names() =~= old_names);
                    assert(old_names[i as int] == name@);
                    assert forall|j: int| 0 <= j < self.checks().len() && (#[trigger] self.checks()[j]).0@ == name@
                        implies self.checks()[j].1 == HealthCheck::Custom(check) by {
                        if j != i {
                            assert(before[j].0@ == before[i as int].0@);
                        }
                    }
                }
            },
            None => {
                proof {
                    if old_names.contains(name@) {
                        let j = choose|j: int| 0 <= j < old_names.len() && old_names[j] == name@;
                        assert(before[j].0@ == name@);
                        assert(old(self).checks.view().contains_key(name@));
                    }
                }
                let ghost name_v = name@;
                self.checks.insert(name, HealthCheck::Custom(check));
                proof {
                    assert(self.check_names() =~= old_names.push(name_v));
                }
            },
        }
    }

    /// Run all health checks: one result per registered check, under its name, in order.
    #[verifier::spinoff_prover]
    pub fn check_health(&self) -> (r: TextMap<HealthStatus>)
        requires
            self.wf(),
        ensures
            r.wf(),
            r.entries().len() == self.checks().len(),
            forall|i: int| 0 <= i < self.checks().len() ==> #[trigger] r.entries()[i].0@ == self.checks()[i].0@
                && check_reports(self.checks()[i].1, self.metrics().system(), r.entries()[i].1),
    {
        let n = self.checks.len();
        let mut results: TextMap<HealthStatus> = TextMap::new();
        let mut i: usize = 0;
        while i < n
            invariant
                n == self.checks().len(),
                self.wf(),
                0 <= i <= n,
                results.wf(),
                results.entries().len() == i,
                forall|j: int| 0 <= j < i ==> #[trigger] results.entries()[j].0@ == self.checks()[j].0@
                    && check_reports(self.checks()[j].1, self.metrics().system(), results.entries()[j].1),
            decreases n - i,
        {
            let (name, check) = self.checks.entry_at(i);
            let status = match check {
                HealthCheck::MemoryUsage => memory_usage_status(self.metrics.get_system_metrics().estimated_memory_kb),
                HealthCheck::ScopeCount => scope_count_status(self.metrics.get_system_metrics().active_scopes),
                HealthCheck::Custom(f) => {
                    proof {
                        assert(check_runnable(self.checks.entries()[i as int].1));
                    }
                    f()
                },
            };
            let key = name.clone();
            proof {
                if results.view().contains_key(key@) {
                    let j = choose|j: int| 0 <= j < results.entries().len() && #[trigger] results.entries()[j].0@ == key@;
                    assert(self.checks()[j].0@ == self.checks.entries()[j].0@);
                }
            }
            let ghost before = results.entries();
            results.insert(key, status);
            proof {
                assert forall|j: int| 0 <= j < i + 1 implies #[trigger] results.entries()[j].0@ == self.checks()[j].0@
                    && check_reports(self.checks()[j].1, self.metrics().system(), results.entries()[j].1) by {
                    if j < i {
                        assert(results.entries()[j] == before[j]);
                    }
                }
            }
            i = i + 1;
        }
        results
    }

    /// Get overall system health score (0-100): 100 when no check is registered, otherwise
    /// the integer mean of the scores of the check results.
    pub fn overall_health_score(&self) -> (r: u8)
        requires
            self.wf(),
            self.checks().len() * 100 <= u32::MAX,
        ensures
            exists|results: Seq<(String, HealthStatus)>| #![trigger average_score(results)]
                results.len() == self.checks().len()
                && (forall|i: int| 0 <= i < self.checks().len() ==> #[trigger] results[i].0@ == self.checks()[i].0@
                    && check_reports(self.checks()[i].1, self.metrics().system(), results[i].1))
                && r == average_score(results),
    {
        let results = self.check_health();
        health_score_of(&results)
    }
}

} // verus!
