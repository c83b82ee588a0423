//! Aspect-oriented interception of service calls: advice run before and after a call, a
//! logging aspect, per-service performance records, and the weaver that runs the advice
//! of all applicable aspects around an operation.
use vstd::prelude::*;
use std::sync::Arc;
use std::time::Instant;
use crate::error::{DiError, DiResult, error_message};
use crate::key::{Key, KeyId};
use crate::keymap::{KeyMap, lemma_value_at};
use crate::support::{arc_clone, instant_now, nanos_since, write_stdout_line};
use crate::text::{push_str, push_decimal_wide, digit_str, decimal, digit_char, IntoText, to_string};
use crate::textmap::{TextMap, lemma_text_value_at};
use crate::time::Duration;

verus! {

/// The context of one intercepted call.
pub struct AspectContext {
    /// Key of the target service
    pub target_key: Key,
    /// Method name being called (if applicable)
    pub method_name: Option<String>,
    /// Start time of the call
    pub start_time: Instant,
    /// Call depth (for nested calls)
    pub depth: usize,
}

impl AspectContext {
    /// A context for a call on the service with the given key, started now.
    pub fn new(target_key: Key) -> (c: AspectContext)
        ensures
            c.target_key == target_key,
            c.method_name is None,
            c.depth == 0,
    {
        AspectContext { target_key, method_name: None, start_time: instant_now(), depth: 0 }
    }

    /// The context with the given method name.
    pub fn with_method<M: IntoText>(self, method_name: M) -> (c: AspectContext)
        ensures
            c.target_key == self.target_key,
            c.method_name matches Some(m) && m@ == method_name.text(),
            c.depth == self.depth,
            c.start_time == self.start_time,
    {
        AspectContext {
            target_key: self.target_key,
            method_name: Some(method_name.into_text()),
            start_time: self.start_time,
            depth: self.depth,
        }
    }

    /// Time since the call started (read from the clock).
    pub fn elapsed(&self) -> Duration {
        Duration::from_nanos_u128(nanos_since(&self.start_time))
    }
}

/// Advice run around service calls. Every piece of advice succeeds by default.
pub trait Aspect: Send + Sync {
    /// Called before the target method is executed.
    fn before(&self, context: &AspectContext) -> (r: DiResult<()>)
        default_ensures
            r is Ok,
    {
        Ok(())
    }

    /// Called after the target method completes successfully.
    fn after_success(&self, context: &AspectContext) -> (r: DiResult<()>)
        default_ensures
            r is Ok,
    {
        Ok(())
    }

    /// Called when the target method fails.
    fn after_error(&self, context: &AspectContext, error: &DiError) -> (r: DiResult<()>)
        default_ensures
            r is Ok,
    {
        Ok(())
    }

    /// Called after the target method, whatever its outcome.
    fn after(&self, context: &AspectContext) -> (r: DiResult<()>)
        default_ensures
            r is Ok,
    {
        Ok(())
    }
}

/// An aspect that may run the call itself; by default it just proceeds.
pub trait AroundAspect: Aspect {
    /// Runs the call, possibly with work before and after.
    fn around<T, P: FnOnce() -> DiResult<T>>(&self, context: &mut AspectContext, proceed: P) -> (r: DiResult<T>)
        requires
            proceed.requires(()),
        default_ensures
            proceed.ensures((), r),
            *final(context) == *old(context),
    {
        proceed()
    }
}

/// Log levels.
#[derive(Debug, Clone, Copy, PartialEq, Eq, Structural)]
pub enum LogLevel {
    Debug,
    Info,
    Warn,
    Error,
}

/// A destination of log messages.
pub trait Logger: Send + Sync {
    fn debug(&self, message: &str);
    fn info(&self, message: &str);
    fn warn(&self, message: &str);
    fn error(&self, message: &str);
}

/// Logger that writes `[LEVEL] message` lines to standard output.
#[derive(Debug)]
pub struct ConsoleLogger;

/// The console line of a message at a level tag.
fn console_line(tag: &str, message: &str) -> (r: String)
    ensures
        r@ == "["@ + tag@ + "] "@ + message@,
{
    let mut s = String::new();
    push_str(&mut s, "[");
    push_str(&mut s, tag);
    push_str(&mut s, "] ");
    push_str(&mut s, message);
    s
}

impl Logger for ConsoleLogger {
    fn debug(&self, message: &str) {
        write_stdout_line(console_line("DEBUG", message).as_str());
    }

    fn info(&self, message: &str) {
        write_stdout_line(console_line("INFO", message).as_str());
    }

    fn warn(&self, message: &str) {
        write_stdout_line(console_line("WARN", message).as_str());
    }

    fn error(&self, message: &str) {
        write_stdout_line(console_line("ERROR", message).as_str());
    }
}

/// Hundredths of a millisecond in `nanos` nanoseconds, rounded to the nearest (ties to
/// even).
pub open spec fn rounded_hundredths(nanos: nat) -> nat {
    let q = nanos / 10_000;
    let rem = nanos % 10_000;
    if rem > 5_000 || (rem == 5_000 && q % 2 == 1) {
        q + 1
    } else {
        q
    }
}

/// Milliseconds with two decimals.
pub open spec fn millis_text(nanos: nat) -> Seq<char> {
    let h = rounded_hundredths(nanos);
    decimal(h / 100) + "."@ + seq![digit_char((h / 10) % 10)] + seq![digit_char(h % 10)]
}

/// Appends a span in milliseconds with two decimals.
pub fn push_millis(s: &mut String, d: Duration)
    ensures
        final(s)@ == old(s)@ + millis_text(d.total_nanos() as nat),
{
    let n = d.as_nanos();
    let q = n / 10_000;
    let rem = n % 10_000;
    let h: u128 = if rem > 5_000 || (rem == 5_000 && q % 2 == 1) { q + 1 } else { q };
    let whole = h / 100;
    let tens = ((h / 10) % 10) as u64;
    let ones = (h % 10) as u64;
    push_decimal_wide(s, whole);
    push_str(s, ".");
    push_str(s, digit_str(tens));
    push_str(s, digit_str(ones));
}

/// Logs method calls at a configured level.
pub struct LoggingAspect<L: ?Sized> {
    logger: Arc<L>,
    level: LogLevel,
    log_details: bool,
}

/// The method name a context reports: its own, or `resolve`.
pub open spec fn method_or_resolve(m: Option<String>) -> Seq<char> {
    match m {
        Some(s) => s@,
        None => "resolve"@,
    }
}

/// The text of the message logged after a successful call that took `d`.
pub open spec fn success_text(c: AspectContext, d: Duration) -> Seq<char> {
    "✓ Completed "@ + c.target_key.spec_display_name()@ + "."@ + method_or_resolve(c.method_name) + " in "@
        + millis_text(d.total_nanos() as nat) + "ms"@
}

/// The text of the message logged after a failed call that took `d`.
pub open spec fn failure_text(c: AspectContext, d: Duration, error: DiError) -> Seq<char> {
    "✗ Failed "@ + c.target_key.spec_display_name()@ + "."@ + method_or_resolve(c.method_name) + " in "@
        + millis_text(d.total_nanos() as nat) + "ms: "@ + error_message(error)
}

/// `logger` was handed `m` by the method of `level`: that method's call on it can have
/// returned.
pub open spec fn logged_at<L: ?Sized + Logger>(logger: &L, level: LogLevel, m: &str) -> bool {
    match level {
        LogLevel::Debug => call_ensures(L::debug, (logger, m), ()),
        LogLevel::Info => call_ensures(L::info, (logger, m), ()),
        LogLevel::Warn => call_ensures(L::warn, (logger, m), ()),
        LogLevel::Error => call_ensures(L::error, (logger, m), ()),
    }
}

/// The message logged before a call.
pub open spec fn before_message(c: AspectContext) -> Seq<char> {
    "→ Executing "@ + c.target_key.spec_display_name()@ + "."@ + method_or_resolve(c.method_name)
}

impl LoggingAspect<ConsoleLogger> {
    /// Logs to the console at the info level.
    pub fn new() -> (a: LoggingAspect<ConsoleLogger>)
        ensures
            a.spec_level() == LogLevel::Info,
            !a.spec_details(),
    {
        Self::with_logger(Arc::new(ConsoleLogger), LogLevel::Info)
    }
}

impl<L: ?Sized + Logger> LoggingAspect<L> {
    /// The level of the messages before and after successful calls.
    pub closed spec fn spec_level(&self) -> LogLevel {
        self.level
    }

    /// Whether details are logged.
    pub closed spec fn spec_details(&self) -> bool {
        self.log_details
    }

    /// The logger.
    pub closed spec fn spec_logger(&self) -> Arc<L> {
        self.logger
    }

    /// Logs to the given logger at the given level.
    pub fn with_logger(logger: Arc<L>, level: LogLevel) -> (a: LoggingAspect<L>)
        ensures
            a.spec_level() == level,
            !a.spec_details(),
            a.spec_logger() == logger,
    {
        LoggingAspect { logger, level, log_details: false }
    }

    /// Also logs details.
    pub fn with_details(self) -> (a: LoggingAspect<L>)
        ensures
            a.spec_level() == self.spec_level(),
            a.spec_details(),
            a.spec_logger() == self.spec_logger(),
    {
        LoggingAspect { logger: self.logger, level: self.level, log_details: true }
    }

    /// Sends a message to the logger at the configured level.
    fn log(&self, message: &str)
        ensures
            logged_at(&*self.spec_logger(), self.spec_level(), message),
    {
        match self.level {
            LogLevel::Debug => self.logger.debug(message),
            LogLevel::Info => self.logger.info(message),
            LogLevel::Warn => self.logger.warn(message),
            LogLevel::Error => self.logger.error(message),
        }
    }

    /// The head of every message: the service name, a dot and the method name.
    fn call_name(context: &AspectContext) -> (r: String)
        ensures
            r@ == context.target_key.spec_display_name()@ + "."@ + method_or_resolve(context.method_name),
    {
        let mut s = String::new();
        push_str(&mut s, context.target_key.display_name());
        push_str(&mut s, ".");
        match &context.method_name {
            Some(m) => push_str(&mut s, m.as_str()),
            None => push_str(&mut s, "resolve"),
        }
        s
    }

    /// The message logged after a successful call that took `d`.
    pub fn success_message(context: &AspectContext, d: Duration) -> (r: String)
        ensures
            r@ == "✓ Completed "@ + context.target_key.spec_display_name()@ + "."@ + method_or_resolve(
                context.method_name,
            ) + " in "@ + millis_text(d.total_nanos() as nat) + "ms"@,
    {
        let mut s = String::new();
        push_str(&mut s, "✓ Completed ");
        push_str(&mut s, Self::call_name(context).as_str());
        push_str(&mut s, " in ");
        push_millis(&mut s, d);
        push_str(&mut s, "ms");
        s
    }

    /// The message logged after a failed call that took `d`.
    pub fn failure_message(context: &AspectContext, d: Duration, error: &DiError) -> (r: String)
        ensures
            r@ == "✗ Failed "@ + context.target_key.spec_display_name()@ + "."@ + method_or_resolve(
                context.method_name,
            ) + " in "@ + millis_text(d.total_nanos() as nat) + "ms: "@ + error_message(*error),
    {
        let mut s = String::new();
        push_str(&mut s, "✗ Failed ");
        push_str(&mut s, Self::call_name(context).as_str());
        push_str(&mut s, " in ");
        push_millis(&mut s, d);
        push_str(&mut s, "ms: ");
        push_str(&mut s, error.message().as_str());
        s
    }
}

impl<L: ?Sized + Logger> Aspect for LoggingAspect<L> {
    fn before(&self, context: &AspectContext) -> (r: DiResult<()>)
        ensures
            r is Ok,
            exists|m: &str| m@ == before_message(*context) && #[trigger] logged_at(
                &*self.spec_logger(),
                self.spec_level(),
                m,
            ),
    {
        let mut message = String::new();
        push_str(&mut message, "→ Executing ");
        push_str(&mut message, Self::call_name(context).as_str());
        self.log(message.as_str());
        assert(message@ == before_message(*context));
        Ok(())
    }

    fn after_success(&self, context: &AspectContext) -> (r: DiResult<()>)
        ensures
            r is Ok,
            exists|d: Duration, m: &str| m@ == #[trigger] success_text(*context, d) && #[trigger] logged_at(
                &*self.spec_logger(),
                self.spec_level(),
                m,
            ),
    {
        let d = context.elapsed();
        let message = Self::success_message(context, d);
        let m = message.as_str();
        self.log(m);
        assert(m@ == success_text(*context, d));
        assert(logged_at(&*self.spec_logger(), self.spec_level(), m));
        Ok(())
    }

    fn after_error(&self, context: &AspectContext, error: &DiError) -> (r: DiResult<()>)
        ensures
            r is Ok,
            exists|d: Duration, m: &str| m@ == #[trigger] failure_text(*context, d, *error) && #[trigger] logged_at(
                &*self.spec_logger(),
                LogLevel::Error,
                m,
            ),
    {
        let d = context.elapsed();
        let message = Self::failure_message(context, d, error);
        let m = message.as_str();
        self.logger.error(m);
        assert(m@ == failure_text(*context, d, *error));
        assert(logged_at(&*self.spec_logger(), LogLevel::Error, m));
        Ok(())
    }
}

/// Per-service call statistics.
#[derive(Debug, Clone, Copy)]
pub struct PerformanceStats {
    pub call_count: u64,
    pub total_time: Duration,
    pub average_time: Duration,
}

/// One recorded call.
#[derive(Debug)]
pub struct PerformanceRecord {
    pub service_key: String,
    pub method_name: String,
    pub duration: Duration,
    pub timestamp: Instant,
}

/// How many of the slowest calls are kept.
pub open spec fn slow_call_window() -> nat {
    100
}

/// Slowest first.
pub open spec fn slowest_first(s: Seq<PerformanceRecord>) -> bool {
    forall|i: int, j: int|
        0 <= i < j < s.len() ==> #[trigger] s[i].duration.total_nanos() >= #[trigger] s[j].duration.total_nanos()
}

/// Whether a call of duration `d` goes at position `p` among calls listed slowest first:
/// after every call at least as slow, before every faster one.
pub open spec fn insert_position(s: Seq<PerformanceRecord>, d: Duration, p: int) -> bool {
    &&& 0 <= p <= s.len()
    &&& forall|i: int| 0 <= i < p ==> #[trigger] s[i].duration.total_nanos() >= d.total_nanos()
    &&& forall|i: int| p <= i < s.len() ==> #[trigger] s[i].duration.total_nanos() < d.total_nanos()
}

/// Call counts, total times and the slowest calls, by service name.
pub struct PerformanceMetrics {
    call_counts: TextMap<u64>,
    total_times: TextMap<Duration>,
    slowest_calls: Vec<PerformanceRecord>,
}

impl PerformanceMetrics {
    /// Calls per service name.
    pub closed spec fn counts(&self) -> Map<Seq<char>, u64> {
        self.call_counts.view()
    }

    /// Total time per service name.
    pub closed spec fn totals(&self) -> Map<Seq<char>, Duration> {
        self.total_times.view()
    }

    /// The slowest calls, slowest first.
    pub closed spec fn slowest(&self) -> Seq<PerformanceRecord> {
        self.slowest_calls@
    }

    /// Internal consistency: both tables are maps, and the slow calls are ordered.
    pub closed spec fn wf(&self) -> bool {
        &&& self.call_counts.wf()
        &&& self.total_times.wf()
        &&& slowest_first(self.slowest_calls@)
        &&& self.slowest_calls@.len() <= slow_call_window()
    }

    /// No calls recorded.
    pub fn new() -> (m: PerformanceMetrics)
        ensures
            m.wf(),
            m.counts() == Map::<Seq<char>, u64>::empty(),
            m.totals() == Map::<Seq<char>, Duration>::empty(),
            m.slowest().len() == 0,
    {
        PerformanceMetrics { call_counts: TextMap::new(), total_times: TextMap::new(), slowest_calls: Vec::new() }
    }

    /// Records a call on a service: its count grows by one, its total by the duration, and
    /// the call joins the slowest calls after every call at least as slow, keeping the
    /// hundred slowest.
    pub fn record(&mut self, service_key: &str, method_name: &str, duration: Duration, timestamp: Instant)
        requires
            old(self).wf(),
            old(self).counts().contains_key(service_key@) ==> old(self).counts()[service_key@] < u64::MAX,
            old(self).totals().contains_key(service_key@) ==> old(self).totals()[service_key@].total_nanos()
                + duration.total_nanos() <= Duration::max_nanos(),
        ensures
            final(self).wf(),
            final(self).counts() == old(self).counts().insert(
                service_key@,
                if old(self).counts().contains_key(service_key@) {
                    (old(self).counts()[service_key@] + 1) as u64
                } else {
                    1
                },
            ),
            final(self).totals().dom() == old(self).totals().dom().insert(service_key@),
            final(self).totals()[service_key@].total_nanos() == duration.total_nanos() + if old(self).totals().contains_key(service_key@) {
                old(self).totals()[service_key@].total_nanos()
            } else {
                0
            },
            forall|k: Seq<char>| k != service_key@ && #[trigger] old(self).totals().contains_key(k)
                ==> final(self).totals()[k] == old(self).totals()[k],
            exists|p: int| #[trigger] insert_position(old(self).slowest(), duration, p) && {
                &&& (p < slow_call_window() ==> final(self).slowest()[p].duration == duration
                    && final(self).slowest()[p].service_key@ == service_key@
                    && final(self).slowest()[p].method_name@ == method_name@)
                &&& final(self).slowest().len() == if old(self).slowest().len() + 1 > slow_call_window() {
                    slow_call_window()
                } else {
                    old(self).slowest().len() + 1
                }
                &&& forall|i: int| 0 <= i < final(self).slowest().len() && i != p ==> #[trigger] final(self).slowest()[i]
                    == old(self).slowest()[if i < p { i } else { i - 1 }]
            },
    {
        let next_count: u64 = match self.call_counts.get(service_key) {
            Some(c) => *c + 1,
            None => 1,
        };
        self.call_counts.insert(to_string(service_key), next_count);
        let next_total = match self.total_times.get(service_key) {
            Some(t) => t.saturating_add(duration),
            None => duration,
        };
        proof {
            use_type_invariant(&duration);
            duration.lemma_bounds();
        }
        self.total_times.insert(to_string(service_key), next_total);
        let mut p: usize = 0;
        while p < self.slowest_calls.len() && duration.le(&self.slowest_calls[p].duration)
            invariant
                0 <= p <= self.slowest_calls@.len(),
                self.slowest_calls@ == old(self).slowest(),
                forall|i: int| 0 <= i < p ==> #[trigger] self.slowest_calls@[i].duration.total_nanos() >= duration.total_nanos(),
            decreases self.slowest_calls@.len() - p,
        {
            p = p + 1;
        }
        let ghost before = self.slowest_calls@;
        proof {
            assert forall|i: int| p <= i < before.len() implies #[trigger] before[i].duration.total_nanos() < duration.total_nanos() by {
                assert(before[p as int].duration.total_nanos() < duration.total_nanos());
                assert(slowest_first(before));
                if i > p {
                    assert(before[p as int].duration.total_nanos() >= before[i].duration.total_nanos());
                }
            }
        }
        let record = PerformanceRecord {
            service_key: to_string(service_key),
            method_name: to_string(method_name),
            duration,
            timestamp,
        };
        self.slowest_calls.insert(p, record);
        let ghost inserted = self.slowest_calls@;
        proof {
            assert(inserted == before.insert(p as int, inserted[p as int]));
            assert forall|a: int, b: int| 0 <= a < b < inserted.len() implies #[trigger] inserted[a].duration.total_nanos()
                >= #[trigger] inserted[b].duration.total_nanos() by {
                if b < p {
                    assert(inserted[a] == before[a] && inserted[b] == before[b]);
                } else if b == p {
                    assert(inserted[a] == before[a]);
                } else if a == p {
                    assert(inserted[b] == before[b - 1]);
                } else if a < p {
                    assert(inserted[a] == before[a] && inserted[b] == before[b - 1]);
                } else {
                    assert(inserted[a] == before[a - 1] && inserted[b] == before[b - 1]);
                }
            }
        }
        if self.slowest_calls.len() > 100 {
            self.slowest_calls.truncate(100);
        }
        proof {
            assert(self.slowest_calls@ =~= inserted.take(self.slowest_calls@.len() as int));
            assert forall|i: int| 0 <= i < self.slowest_calls@.len() && i != p implies #[trigger] self.slowest_calls@[i]
                == before[if i < p { i } else { i - 1 }] by {
                assert(self.slowest_calls@[i] == inserted[i]);
            }
            if p < 100 {
                assert(self.slowest_calls@[p as int] == inserted[p as int]);
            }
            assert(insert_position(before, duration, p as int));
        }
    }

    /// Per-service statistics: calls, total time, and the average (the total divided by the
    /// count taken as a 32-bit number; zero for a count of zero).
    pub fn stats(&self) -> (r: TextMap<PerformanceStats>)
        requires
            self.wf(),
            forall|k: Seq<char>| #[trigger] self.counts().contains_key(k) ==> self.counts()[k] == 0
                || (self.counts()[k] as u32) != 0,
        ensures
            r.wf(),
            r.view().dom() == self.counts().dom(),
            forall|k: Seq<char>| #[trigger] r.view().contains_key(k) ==> {
                let s = r.view()[k];
                let c = self.counts()[k];
                let total = if self.totals().contains_key(k) { self.totals()[k].total_nanos() } else { 0 };
                &&& s.call_count == c
                &&& s.total_time.total_nanos() == total
                &&& s.average_time.total_nanos() == if c > 0 { total / ((c as u32) as int) } else { 0 }
            },
    {
        let mut out: TextMap<PerformanceStats> = TextMap::new();
        let n = self.call_counts.len();
        let ghost es = self.call_counts.entries();
        let mut i: usize = 0;
        while i < n
            invariant
                n == es.len(),
                es == self.call_counts.entries(),
                self.wf(),
                forall|k: Seq<char>| #[trigger] self.counts().contains_key(k) ==> self.counts()[k] == 0
                    || (self.counts()[k] as u32) != 0,
                0 <= i <= n,
                out.wf(),
                forall|k: Seq<char>| #[trigger] out.view().contains_key(k) <==> exists|j: int| 0 <= j < i && #[trigger] es[j].0@ == k,
                forall|k: Seq<char>| #[trigger] out.view().contains_key(k) ==> {
                    let s = out.view()[k];
                    let c = self.counts()[k];
                    let total = if self.totals().contains_key(k) { self.totals()[k].total_nanos() } else { 0 };
                    &&& s.call_count == c
                    &&& s.total_time.total_nanos() == total
                    &&& s.average_time.total_nanos() == if c > 0 { total / ((c as u32) as int) } else { 0 }
                },
            decreases n - i,
        {
            let (name, count) = self.call_counts.entry_at(i);
            proof {
                lemma_text_value_at(es, i as int);
            }
            let total = match self.total_times.get(name.as_str()) {
                Some(t) => *t,
                None => Duration::zero(),
            };
            let average = if *count > 0 {
                assert(self.counts().contains_key(name@));
                total.div_u32(*count as u32)
            } else {
                Duration::zero()
            };
            let stat = PerformanceStats { call_count: *count, total_time: total, average_time: average };
            out.insert(name.clone(), stat);
            i = i + 1;
        }
        proof {
            assert forall|k: Seq<char>| #[trigger] out.view().contains_key(k) <==> self.counts().contains_key(k) by {
                if self.counts().contains_key(k) {
                    let j = choose|j: int| 0 <= j < es.len() && #[trigger] es[j].0@ == k;
                }
            }
            assert(out.view().dom() =~= self.counts().dom());
        }
        out
    }
}

/// Where a call woven with aspects stands: running the `before` advice of aspect `i`, the
/// operation, the `after_success` or `after` advice of aspect `j` (last aspect first), or
/// finished, with success or with the first failure.
pub enum ChainState {
    Before(usize),
    Operation,
    AfterSuccess(usize),
    After(usize),
    Succeeded,
    Failed(DiError),
}

/// The first state of a call woven with `n` aspects.
pub open spec fn chain_start(n: nat) -> ChainState {
    if n == 0 {
        ChainState::Operation
    } else {
        ChainState::Before(0)
    }
}

/// The state after the step of `s` gave `outcome`: a failure ends the chain with that
/// failure; a success moves on: through every `before` in order, then the operation, then,
/// from the last aspect to the first, its `after_success` and its `after`.
pub open spec fn chain_next(n: nat, s: ChainState, outcome: DiResult<()>) -> ChainState {
    match outcome {
        Err(e) => match s {
            ChainState::Succeeded => s,
            ChainState::Failed(_) => s,
            _ => ChainState::Failed(e),
        },
        Ok(_) => match s {
            ChainState::Before(i) => if i + 1 >= n {
                ChainState::Operation
            } else {
                ChainState::Before((i + 1) as usize)
            },
            ChainState::Operation => if n == 0 {
                ChainState::Succeeded
            } else {
                ChainState::AfterSuccess((n - 1) as usize)
            },
            ChainState::AfterSuccess(j) => ChainState::After(j),
            ChainState::After(j) => if j == 0 {
                ChainState::Succeeded
            } else {
                ChainState::AfterSuccess((j - 1) as usize)
            },
            _ => s,
        },
    }
}

/// The state reached from the start through the steps' `outcomes`, in order.
pub open spec fn chain_run(n: nat, outcomes: Seq<DiResult<()>>) -> ChainState
    decreases outcomes.len(),
{
    if outcomes.len() == 0 {
        chain_start(n)
    } else {
        chain_next(n, chain_run(n, outcomes.drop_last()), outcomes.last())
    }
}

/// Whether the chain is finished.
pub open spec fn chain_done(s: ChainState) -> bool {
    s is Succeeded || s is Failed
}

/// The next state of a call woven with `n` aspects, once the step of `s` gave `outcome`.
pub fn chain_step(n: usize, s: ChainState, outcome: DiResult<()>) -> (r: ChainState)
    ensures
        r == chain_next(n as nat, s, outcome),
{
    match outcome {
        Err(e) => match s {
            ChainState::Succeeded => ChainState::Succeeded,
            ChainState::Failed(f) => ChainState::Failed(f),
            _ => ChainState::Failed(e),
        },
        Ok(()) => match s {
            ChainState::Before(i) => if i >= n || n - i <= 1 {
                ChainState::Operation
            } else {
                ChainState::Before(i + 1)
            },
            ChainState::Operation => if n == 0 {
                ChainState::Succeeded
            } else {
                ChainState::AfterSuccess(n - 1)
            },
            ChainState::AfterSuccess(j) => ChainState::After(j),
            ChainState::After(j) => if j == 0 {
                ChainState::Succeeded
            } else {
                ChainState::AfterSuccess(j - 1)
            },
            ChainState::Succeeded => ChainState::Succeeded,
            ChainState::Failed(f) => ChainState::Failed(f),
        },
    }
}

/// The state after `k` successful steps of a call woven with `n` aspects: the `before`
/// advice in order, the operation, then `after_success` and `after` from the last aspect to
/// the first.
pub open spec fn state_after_successes(n: nat, k: nat) -> ChainState {
    if k < n {
        ChainState::Before(k as usize)
    } else if k == n {
        ChainState::Operation
    } else if k < 3 * n + 1 {
        let m = (k - n - 1) as nat;
        if m % 2 == 0 {
            ChainState::AfterSuccess((n - 1 - m / 2) as usize)
        } else {
            ChainState::After((n - 1 - m / 2) as usize)
        }
    } else {
        ChainState::Succeeded
    }
}

/// Steps that all succeeded.
pub open spec fn all_ok(outcomes: Seq<DiResult<()>>) -> bool {
    forall|i: int| 0 <= i < outcomes.len() ==> #[trigger] outcomes[i] is Ok
}

/// After `k` successful steps, at most `3n + 1`, the chain is at `state_after_successes`.
pub proof fn lemma_successes(n: nat, outcomes: Seq<DiResult<()>>)
    requires
        n <= usize::MAX,
        all_ok(outcomes),
        outcomes.len() <= 3 * n + 1,
    ensures
        chain_run(n, outcomes) == state_after_successes(n, outcomes.len()),
    decreases outcomes.len(),
{
    if outcomes.len() > 0 {
        let pre = outcomes.drop_last();
        assert(all_ok(pre)) by {
            assert forall|i: int| 0 <= i < pre.len() implies #[trigger] pre[i] is Ok by {
                assert(pre[i] == outcomes[i]);
            }
        }
        assert(outcomes.last() is Ok) by {
            assert(outcomes[outcomes.len() - 1] is Ok);
        }
        lemma_successes(n, pre);
        let k = pre.len();
        assert(k + 1 == outcomes.len());
        if k > n {
            let m = (k - n - 1) as nat;
            let m2 = (k + 1 - n - 1) as nat;
            assert(m2 == m + 1);
            assert(m2 / 2 == (if m % 2 == 0 { m / 2 } else { m / 2 + 1 }));
            assert(m2 % 2 == (if m % 2 == 0 { 1nat } else { 0nat }));
        }
    }
}

/// Every advice and the operation succeeding, the chain ends with success after exactly
/// `3n + 1` steps: the `n` befores, the operation, and `2n` afters.
pub proof fn law_all_advice_succeeds(n: nat, outcomes: Seq<DiResult<()>>)
    requires
        n <= usize::MAX,
        all_ok(outcomes),
        outcomes.len() == 3 * n + 1,
    ensures
        chain_run(n, outcomes) is Succeeded,
        forall|k: nat| k < outcomes.len() ==> !chain_done(#[trigger] chain_run(n, outcomes.take(k as int))),
{
    lemma_successes(n, outcomes);
    assert forall|k: nat| k < outcomes.len() implies !chain_done(#[trigger] chain_run(n, outcomes.take(k as int))) by {
        let t = outcomes.take(k as int);
        assert(all_ok(t)) by {
            assert forall|i: int| 0 <= i < t.len() implies #[trigger] t[i] is Ok by {
                assert(t[i] == outcomes[i]);
            }
        }
        lemma_successes(n, t);
    }
}

/// The first failing step ends the chain with its failure, and the chain then stays
/// finished with that failure whatever comes after.
pub proof fn law_first_failure_returned(n: nat, outcomes: Seq<DiResult<()>>, k: nat, e: DiError)
    requires
        n <= usize::MAX,
        k < 3 * n + 1,
        k < outcomes.len(),
        all_ok(outcomes.take(k as int)),
        outcomes[k as int] == Err::<(), DiError>(e),
    ensures
        chain_run(n, outcomes.take(k as int + 1)) == ChainState::Failed(e),
        chain_run(n, outcomes) == ChainState::Failed(e),
    decreases outcomes.len(),
{
    if outcomes.len() > k + 1 {
        let pre = outcomes.drop_last();
        assert(pre.take(k as int) =~= outcomes.take(k as int));
        assert(pre[k as int] == outcomes[k as int]);
        law_first_failure_returned(n, pre, k, e);
        assert(pre.take(k as int + 1) =~= outcomes.take(k as int + 1));
    } else {
        let t = outcomes.take(k as int);
        lemma_successes(n, t);
        assert(outcomes.take(k as int + 1).drop_last() =~= t);
        assert(outcomes =~= outcomes.take(k as int + 1));
    }
}

/// A call woven with `n` aspects whose steps gave `outcomes` returned `r`: the chain is
/// finished; a success is the operation's result with every step successful, a failure is
/// the failure that ended the chain.
pub open spec fn woven_outcome<T, O: FnOnce() -> DiResult<T>>(n: nat, outcomes: Seq<DiResult<()>>, operation: O, r: DiResult<T>) -> bool {
    &&& chain_done(chain_run(n, outcomes))
    &&& r is Ok ==> chain_run(n, outcomes) is Succeeded && operation.ensures((), r)
    &&& r matches Err(e) ==> chain_run(n, outcomes) == ChainState::Failed(e)
}

/// What the step of a woven call at `s` can have given as `outcome`, with the context
/// `ctx` handed to the advice: for an advice step, a possible return of that advice of the
/// aspect the chain points to; for the operation, a failure is one the operation can give.
pub open spec fn step_fits<A: ?Sized + Aspect, T, O: FnOnce() -> DiResult<T>>(
    aspects: Seq<Arc<A>>,
    ctx: AspectContext,
    s: ChainState,
    outcome: DiResult<()>,
    operation: O,
) -> bool {
    match s {
        ChainState::Before(i) => call_ensures(A::before, (&*aspects[i as int], &ctx), outcome),
        ChainState::Operation => outcome matches Err(e) ==> operation.ensures((), Err::<T, DiError>(e)),
        ChainState::AfterSuccess(j) => call_ensures(A::after_success, (&*aspects[j as int], &ctx), outcome),
        ChainState::After(j) => call_ensures(A::after, (&*aspects[j as int], &ctx), outcome),
        _ => true,
    }
}

/// Every step outcome of a woven call is what its step can have given.
pub open spec fn advice_fits<A: ?Sized + Aspect, T, O: FnOnce() -> DiResult<T>>(
    aspects: Seq<Arc<A>>,
    ctx: AspectContext,
    outcomes: Seq<DiResult<()>>,
    operation: O,
) -> bool {
    forall|k: int|
        0 <= k < outcomes.len() ==> #[trigger] step_fits(
            aspects,
            ctx,
            chain_run(aspects.len(), outcomes.take(k)),
            outcomes[k],
            operation,
        )
}

/// After the failure `e`, every aspect's `after_error` and `after` were called, with the
/// results `errors[i]` and `afters[i]` for aspect `i`.
pub open spec fn unwound<A: ?Sized + Aspect>(
    aspects: Seq<Arc<A>>,
    ctx: AspectContext,
    e: DiError,
    errors: Seq<DiResult<()>>,
    afters: Seq<DiResult<()>>,
) -> bool {
    &&& errors.len() == aspects.len()
    &&& afters.len() == aspects.len()
    &&& forall|i: int|
        0 <= i < aspects.len() ==> call_ensures(A::after_error, (&*aspects[i], &ctx, &e), #[trigger] errors[i])
            && call_ensures(A::after, (&*aspects[i], &ctx), afters[i])
}

/// A call woven with `aspects` and context `ctx` returned `r`: the steps gave `outcomes`,
/// each what its advice or the operation can have given, and the result is the chain's.
pub open spec fn woven_call<A: ?Sized + Aspect, T, O: FnOnce() -> DiResult<T>>(
    aspects: Seq<Arc<A>>,
    ctx: AspectContext,
    outcomes: Seq<DiResult<()>>,
    operation: O,
    r: DiResult<T>,
) -> bool {
    &&& aspects.len() <= usize::MAX
    &&& advice_fits(aspects, ctx, outcomes, operation)
    &&& woven_outcome(aspects.len(), outcomes, operation, r)
}

/// A step outcome that fits added to a trace that fits gives a trace that fits.
proof fn lemma_fits_push<A: ?Sized + Aspect, T, O: FnOnce() -> DiResult<T>>(
    aspects: Seq<Arc<A>>,
    ctx: AspectContext,
    outcomes: Seq<DiResult<()>>,
    o: DiResult<()>,
    operation: O,
)
    requires
        advice_fits(aspects, ctx, outcomes, operation),
        step_fits(aspects, ctx, chain_run(aspects.len(), outcomes), o, operation),
    ensures
        advice_fits(aspects, ctx, outcomes.push(o), operation),
{
    let t = outcomes.push(o);
    assert forall|k: int| 0 <= k < t.len() implies #[trigger] step_fits(
        aspects,
        ctx,
        chain_run(aspects.len(), t.take(k)),
        t[k],
        operation,
    ) by {
        if k < outcomes.len() {
            assert(t.take(k) =~= outcomes.take(k));
            assert(t[k] == outcomes[k]);
            assert(step_fits(aspects, ctx, chain_run(aspects.len(), outcomes.take(k)), outcomes[k], operation));
        } else {
            assert(t.take(k) =~= outcomes);
        }
    }
}

/// When every advice of the aspects and the operation can only succeed, a woven call gives
/// back the operation's result: no step fails, so the chain ends with success.
pub proof fn law_succeeding_advice_returns_operation<A: ?Sized + Aspect, T, O: FnOnce() -> DiResult<T>>(
    aspects: Seq<Arc<A>>,
    ctx: AspectContext,
    outcomes: Seq<DiResult<()>>,
    operation: O,
    r: DiResult<T>,
)
    requires
        woven_call(aspects, ctx, outcomes, operation, r),
        forall|i: int, out: DiResult<()>|
            0 <= i < aspects.len() && #[trigger] call_ensures(A::before, (&*aspects[i], &ctx), out) ==> out is Ok,
        forall|i: int, out: DiResult<()>|
            0 <= i < aspects.len() && #[trigger] call_ensures(A::after_success, (&*aspects[i], &ctx), out) ==> out is Ok,
        forall|i: int, out: DiResult<()>|
            0 <= i < aspects.len() && #[trigger] call_ensures(A::after, (&*aspects[i], &ctx), out) ==> out is Ok,
        forall|rr: DiResult<T>| #[trigger] operation.ensures((), rr) ==> rr is Ok,
    ensures
        r is Ok,
        operation.ensures((), r),
{
    let n = aspects.len();
    assert forall|k: int| 0 <= k <= outcomes.len() implies !(#[trigger] chain_run(n, outcomes.take(k)) is Failed) by {
        lemma_no_failure(aspects, ctx, outcomes, operation, k);
    }
    assert(outcomes.take(outcomes.len() as int) =~= outcomes);
    assert(!(chain_run(n, outcomes.take(outcomes.len() as int)) is Failed));
}

/// Under the hypotheses of `law_succeeding_advice_returns_operation`, no prefix of the
/// steps ends in failure.
proof fn lemma_no_failure<A: ?Sized + Aspect, T, O: FnOnce() -> DiResult<T>>(
    aspects: Seq<Arc<A>>,
    ctx: AspectContext,
    outcomes: Seq<DiResult<()>>,
    operation: O,
    k: int,
)
    requires
        0 <= k <= outcomes.len(),
        aspects.len() <= usize::MAX,
        advice_fits(aspects, ctx, outcomes, operation),
        forall|i: int, out: DiResult<()>|
            0 <= i < aspects.len() && #[trigger] call_ensures(A::before, (&*aspects[i], &ctx), out) ==> out is Ok,
        forall|i: int, out: DiResult<()>|
            0 <= i < aspects.len() && #[trigger] call_ensures(A::after_success, (&*aspects[i], &ctx), out) ==> out is Ok,
        forall|i: int, out: DiResult<()>|
            0 <= i < aspects.len() && #[trigger] call_ensures(A::after, (&*aspects[i], &ctx), out) ==> out is Ok,
        forall|rr: DiResult<T>| #[trigger] operation.ensures((), rr) ==> rr is Ok,
    ensures
        !(chain_run(aspects.len(), outcomes.take(k)) is Failed),
        chain_run(aspects.len(), outcomes.take(k)) is Before ==> chain_run(aspects.len(), outcomes.take(k))->Before_0 < aspects.len(),
        chain_run(aspects.len(), outcomes.take(k)) is AfterSuccess ==> chain_run(aspects.len(), outcomes.take(k))->AfterSuccess_0 < aspects.len(),
        chain_run(aspects.len(), outcomes.take(k)) is After ==> chain_run(aspects.len(), outcomes.take(k))->After_0 < aspects.len(),
    decreases k,
{
    let n = aspects.len();
    if k > 0 {
        lemma_no_failure(aspects, ctx, outcomes, operation, k - 1);
        let s = chain_run(n, outcomes.take(k - 1));
        let o = outcomes[k - 1];
        assert(outcomes.take(k).drop_last() =~= outcomes.take(k - 1));
        assert(outcomes.take(k).last() == o);
        assert(step_fits(aspects, ctx, s, o, operation));
        match s {
            ChainState::Operation => {
                if o is Err {
                    assert(operation.ensures((), Err::<T, DiError>(o->Err_0)));
                }
            },
            _ => {},
        }
    }
}

/// Whether the chain is about to run a `before` advice.
fn at_before(s: &ChainState) -> (r: bool)
    ensures
        r == (*s is Before),
{
    match s {
        ChainState::Before(_) => true,
        _ => false,
    }
}

/// Whether the chain is about to run an `after_success` or an `after` advice.
fn at_after(s: &ChainState) -> (r: bool)
    ensures
        r == (*s is AfterSuccess || *s is After),
{
    match s {
        ChainState::AfterSuccess(_) => true,
        ChainState::After(_) => true,
        _ => false,
    }
}

/// Applies aspects around service calls.
pub struct AspectWeaver<A: ?Sized> {
    global_aspects: Vec<Arc<A>>,
    service_aspects: KeyMap<Vec<Arc<A>>>,
}

impl<A: ?Sized + Aspect> AspectWeaver<A> {
    /// The aspects applied to every call, in order.
    pub closed spec fn globals(&self) -> Seq<Arc<A>> {
        self.global_aspects@
    }

    /// The aspects applied to calls of one service, in order.
    pub closed spec fn for_service(&self, id: KeyId) -> Seq<Arc<A>> {
        if self.service_aspects.view().contains_key(id) {
            self.service_aspects.view()[id]@
        } else {
            Seq::empty()
        }
    }

    /// Internal consistency.
    pub closed spec fn wf(&self) -> bool {
        self.service_aspects.wf()
    }

    /// A weaver without aspects.
    pub fn new() -> (w: AspectWeaver<A>)
        ensures
            w.wf(),
            w.globals().len() == 0,
            forall|id: KeyId| #[trigger] w.for_service(id).len() == 0,
    {
        AspectWeaver { global_aspects: Vec::new(), service_aspects: KeyMap::new() }
    }

    /// Adds an aspect applied to every call.
    pub fn add_global_aspect(&mut self, aspect: Arc<A>)
        ensures
            final(self).wf() == old(self).wf(),
            final(self).globals() == old(self).globals().push(aspect),
            forall|id: KeyId| #[trigger] final(self).for_service(id) == old(self).for_service(id),
    {
        self.global_aspects.push(aspect);
    }

    /// Adds an aspect applied to calls of one service, after those already added for it.
    pub fn add_service_aspect(&mut self, key: Key, aspect: Arc<A>)
        requires
            old(self).wf(),
        ensures
            final(self).wf(),
            final(self).globals() == old(self).globals(),
            final(self).for_service(key.id()) == old(self).for_service(key.id()).push(aspect),
            forall|id: KeyId| id != key.id() ==> #[trigger] final(self).for_service(id) == old(self).for_service(id),
    {
        let mut list: Vec<Arc<A>> = Vec::new();
        match self.service_aspects.get(&key) {
            Some(existing) => {
                let mut i: usize = 0;
                while i < existing.len()
                    invariant
                        0 <= i <= existing@.len(),
                        list@ == existing@.take(i as int),
                    decreases existing@.len() - i,
                {
                    list.push(arc_clone(&existing[i]));
                    proof {
                        assert(list@ =~= existing@.take(i + 1));
                    }
                    i = i + 1;
                }
                proof {
                    assert(existing@.take(existing@.len() as int) =~= existing@);
                }
            },
            None => {},
        }
        list.push(aspect);
        self.service_aspects.insert(key, list);
    }

    /// The aspects that apply to calls of a service: the global ones, then the service's.
    fn applicable(&self, key: &Key) -> (r: Vec<Arc<A>>)
        requires
            self.wf(),
        ensures
            r@ == self.globals() + self.for_service(key.id()),
    {
        let mut aspects: Vec<Arc<A>> = Vec::new();
        let mut i: usize = 0;
        while i < self.global_aspects.len()
            invariant
                0 <= i <= self.global_aspects@.len(),
                aspects@ == self.global_aspects@.take(i as int),
            decreases self.global_aspects@.len() - i,
        {
            aspects.push(arc_clone(&self.global_aspects[i]));
            proof {
                assert(aspects@ =~= self.global_aspects@.take(i + 1));
            }
            i = i + 1;
        }
        proof {
            assert(self.global_aspects@.take(self.global_aspects@.len() as int) =~= self.global_aspects@);
        }
        match self.service_aspects.get(key) {
            Some(extra) => {
                let ghost base = aspects@;
                let mut j: usize = 0;
                while j < extra.len()
                    invariant
                        0 <= j <= extra@.len(),
                        aspects@ == base + extra@.take(j as int),
                    decreases extra@.len() - j,
                {
                    aspects.push(arc_clone(&extra[j]));
                    proof {
                        assert(aspects@ =~= base + extra@.take(j + 1));
                    }
                    j = j + 1;
                }
                proof {
                    assert(extra@.take(extra@.len() as int) =~= extra@);
                }
            },
            None => {
                assert(aspects@ =~= self.globals() + Seq::<Arc<A>>::empty());
            },
        }
        aspects
    }

    /// Runs the operation with the advice of the applicable aspects (the global ones, then
    /// the service's), following `chain_step`: every `before` in order, stopping at the first
    /// failure; then the operation, once; then `after_success` and `after` from the last
    /// aspect to the first. The result is the operation's value when every step succeeded
    /// and the first failure otherwise. After a failure every aspect's `after_error` and
    /// `after` run, from the last aspect to the first, their own failures ignored. Every
    /// advice gets the call's context: the key, no method name, depth zero.
    pub fn weave_call<T, O: FnOnce() -> DiResult<T>>(&self, key: &Key, operation: O) -> (r: DiResult<T>)
        requires
            self.wf(),
            operation.requires(()),
        ensures
            exists|ctx: AspectContext, outcomes: Seq<DiResult<()>>| {
                &&& ctx.target_key == *key
                &&& ctx.method_name is None
                &&& ctx.depth == 0
                &&& #[trigger] woven_call(self.globals() + self.for_service(key.id()), ctx, outcomes, operation, r)
                &&& r matches Err(e) ==> exists|errors: Seq<DiResult<()>>, afters: Seq<DiResult<()>>|
                    #[trigger] unwound(self.globals() + self.for_service(key.id()), ctx, e, errors, afters)
            },
            (self.globals() + self.for_service(key.id())).len() == 0 ==> operation.ensures((), r),
    {
        let context = AspectContext::new(*key);
        let aspects = self.applicable(key);
        Self::execute_with_error_handling(&context, &aspects, operation)
    }

    /// The advice chain; on a failure, every aspect's `after_error` and `after` run from the
    /// last aspect to the first (their own failures ignored) and the failure is returned.
    fn execute_with_error_handling<T, O: FnOnce() -> DiResult<T>>(
        context: &AspectContext,
        aspects: &Vec<Arc<A>>,
        operation: O,
    ) -> (r: DiResult<T>)
        requires
            operation.requires(()),
        ensures
            exists|outcomes: Seq<DiResult<()>>| #[trigger] woven_call(aspects@, *context, outcomes, operation, r),
            r matches Err(e) ==> exists|errors: Seq<DiResult<()>>, afters: Seq<DiResult<()>>|
                #[trigger] unwound(aspects@, *context, e, errors, afters),
            aspects@.len() == 0 ==> operation.ensures((), r),
    {
        match Self::execute_with_aspects(context, aspects, operation) {
            Ok(result) => Ok(result),
            Err(error) => {
                let n = aspects.len();
                let ghost mut errors: Seq<DiResult<()>> = Seq::new(n as nat, |i: int| Ok(()));
                let ghost mut afters: Seq<DiResult<()>> = Seq::new(n as nat, |i: int| Ok(()));
                let mut i: usize = n;
                while i > 0
                    invariant
                        0 <= i <= n,
                        n == aspects@.len(),
                        errors.len() == n,
                        afters.len() == n,
                        forall|j: int|
                            i <= j < n ==> call_ensures(A::after_error, (&*aspects@[j], context, &error), #[trigger] errors[j])
                                && call_ensures(A::after, (&*aspects@[j], context), afters[j]),
                    decreases i,
                {
                    i = i - 1;
                    let e1 = aspects[i].after_error(context, &error);
                    let e2 = aspects[i].after(context);
                    proof {
                        errors = errors.update(i as int, e1);
                        afters = afters.update(i as int, e2);
                    }
                }
                assert(unwound(aspects@, *context, error, errors, afters));
                Err(error)
            },
        }
    }

    /// The advice chain without the failure handling, each step decided by `chain_step`.
    fn execute_with_aspects<T, O: FnOnce() -> DiResult<T>>(context: &AspectContext, aspects: &Vec<Arc<A>>, operation: O) -> (r: DiResult<T>)
        requires
            operation.requires(()),
        ensures
            exists|outcomes: Seq<DiResult<()>>| #[trigger] woven_call(aspects@, *context, outcomes, operation, r),
            aspects@.len() == 0 ==> operation.ensures((), r),
    {
        let n = aspects.len();
        let ghost nn = n as nat;
        let ghost op_g = operation;
        let ghost mut outcomes: Seq<DiResult<()>> = Seq::empty();
        let mut state = if n == 0 {
            ChainState::Operation
        } else {
            ChainState::Before(0)
        };
        while at_before(&state)
            invariant
                n == aspects@.len(),
                nn == n,
                state == chain_run(nn, outcomes),
                advice_fits(aspects@, *context, outcomes, op_g),
                state is Before ==> state->Before_0 < n,
                state is Before || state is Operation || state is Failed,
                n == 0 ==> state is Operation,
            decreases (if state is Before { n - state->Before_0 } else { 0 }),
        {
            let i = match state {
                ChainState::Before(i) => i,
                _ => 0,
            };
            let outcome = aspects[i].before(context);
            let ghost o = outcome;
            proof {
                lemma_fits_push(aspects@, *context, outcomes, o, op_g);
            }
            state = chain_step(n, state, outcome);
            proof {
                assert((outcomes.push(o)).drop_last() =~= outcomes);
                outcomes = outcomes.push(o);
            }
        }
        match state {
            ChainState::Failed(e) => {
                let r: DiResult<T> = Err(e);
                assert(woven_call(aspects@, *context, outcomes, op_g, r));
                return r;
            },
            _ => {},
        }
        let outcome = operation();
        let ghost g = outcome;
        let (step, value) = match outcome {
            Ok(v) => (Ok(()), Some(v)),
            Err(e) => (Err(e), None),
        };
        let ghost so = step;
        proof {
            lemma_fits_push(aspects@, *context, outcomes, so, op_g);
        }
        state = chain_step(n, state, step);
        assert(value is None ==> g is Err && state == ChainState::Failed(g->Err_0));
        assert(n == 0 && value is Some ==> state is Succeeded);
        proof {
            assert((outcomes.push(so)).drop_last() =~= outcomes);
            outcomes = outcomes.push(so);
        }
        let result = match value {
            Some(v) => v,
            None => {
                let r: DiResult<T> = match state {
                    ChainState::Failed(e) => Err(e),
                    _ => Err(DiError::NotFound("operation")),
                };
                assert(woven_call(aspects@, *context, outcomes, op_g, r));
                return r;
            },
        };
        proof {
            assert(g == Ok::<T, DiError>(result));
        }
        while at_after(&state)
            invariant
                n == aspects@.len(),
                nn == n,
                state == chain_run(nn, outcomes),
                advice_fits(aspects@, *context, outcomes, op_g),
                state is AfterSuccess ==> state->AfterSuccess_0 < n,
                state is After ==> state->After_0 < n,
                state is AfterSuccess || state is After || state is Succeeded || state is Failed,
                n == 0 ==> state is Succeeded,
            decreases (if state is AfterSuccess {
                2 * state->AfterSuccess_0 + 2
            } else if state is After {
                2 * state->After_0 + 1
            } else {
                0
            }),
        {
            let outcome = match state {
                ChainState::AfterSuccess(j) => aspects[j].after_success(context),
                ChainState::After(j) => aspects[j].after(context),
                _ => Ok(()),
            };
            let ghost o = outcome;
            proof {
                lemma_fits_push(aspects@, *context, outcomes, o, op_g);
            }
            state = chain_step(n, state, outcome);
            proof {
                assert((outcomes.push(o)).drop_last() =~= outcomes);
                outcomes = outcomes.push(o);
            }
        }
        match state {
            ChainState::Failed(e) => {
                let r: DiResult<T> = Err(e);
                assert(woven_call(aspects@, *context, outcomes, op_g, r));
                r
            },
            _ => {
                let r: DiResult<T> = Ok(result);
                assert(r == g);
                assert(woven_call(aspects@, *context, outcomes, op_g, r));
                r
            },
        }
    }
}

} // verus!
