//! Built-in decorators: logging, counting and timing of service access.
use vstd::prelude::*;
use std::sync::Arc;
use std::sync::atomic::{AtomicU64, Ordering};
use crate::observer_text::{nanos_of, average_or_zero, mean_nanos};
use crate::support::{instant_now, nanos_since, write_stdout_line};
use crate::text::push_str;
use crate::decoration::ServiceDecorator;
use crate::time::Duration;

verus! {

/// Logs each access to a service.
pub struct LoggingDecorator {
    service_name: &'static str,
}

impl LoggingDecorator {
    /// The name of the logged service.
    pub closed spec fn spec_service_name(&self) -> &'static str {
        self.service_name
    }

    /// A decorator that logs accesses to the named service.
    pub fn new(service_name: &'static str) -> (d: LoggingDecorator)
        ensures
            d.spec_service_name() == service_name,
    {
        LoggingDecorator { service_name }
    }
}

impl<T: Send + Sync + 'static, R: ?Sized> ServiceDecorator<T, R> for LoggingDecorator {
    /// Logs `Accessing service: <name>` and hands the service back unchanged.
    fn decorate(&self, original: Arc<T>, resolver: &R) -> (r: Arc<T>)
        ensures
            r == original,
    {
        let mut line = String::new();
        push_str(&mut line, "Accessing service: ");
        push_str(&mut line, self.service_name);
        write_stdout_line(line.as_str());
        original
    }
}

/// Counts accesses to a service.
pub struct CountingDecorator {
    count: AtomicU64,
}

impl CountingDecorator {
    /// A counter at zero.
    pub fn new() -> CountingDecorator {
        CountingDecorator { count: AtomicU64::new(0) }
    }

    /// The number of accesses counted.
    pub fn count(&self) -> u64 {
        self.count.load(Ordering::Relaxed)
    }
}

impl<T: Send + Sync + 'static, R: ?Sized> ServiceDecorator<T, R> for CountingDecorator {
    /// Counts one access and hands the service back unchanged.
    fn decorate(&self, original: Arc<T>, resolver: &R) -> (r: Arc<T>)
        ensures
            r == original,
    {
        self.count.fetch_add(1, Ordering::Relaxed);
        original
    }
}

/// Times accesses to a service.
pub struct TimingDecorator {
    service_name: &'static str,
    total_time: AtomicU64,
    count: AtomicU64,
}

impl TimingDecorator {
    /// The name of the timed service.
    pub closed spec fn spec_service_name(&self) -> &'static str {
        self.service_name
    }

    /// A timer at zero for the named service.
    pub fn new(service_name: &'static str) -> (d: TimingDecorator)
        ensures
            d.spec_service_name() == service_name,
    {
        TimingDecorator { service_name, total_time: AtomicU64::new(0), count: AtomicU64::new(0) }
    }

    /// The average time per access (zero before the first access).
    pub fn average_time(&self) -> (r: Duration)
        ensures
            exists|count: u64, total: u64| r.total_nanos() == #[trigger] mean_nanos(count, total),
    {
        let total = self.total_time.load(Ordering::Relaxed);
        let count = self.count.load(Ordering::Relaxed);
        let r = average_or_zero(count, total);
        assert(r.total_nanos() == mean_nanos(count, total));
        r
    }

    /// The total time of all accesses.
    pub fn total_time(&self) -> (r: Duration)
        ensures
            r.total_nanos() <= u64::MAX,
    {
        Duration::from_nanos(self.total_time.load(Ordering::Relaxed))
    }

    /// The number of accesses timed.
    pub fn access_count(&self) -> u64 {
        self.count.load(Ordering::Relaxed)
    }
}

impl<T: Send + Sync + 'static, R: ?Sized> ServiceDecorator<T, R> for TimingDecorator {
    /// Times the access, adds it to the totals, logs it and hands the service back
    /// unchanged.
    fn decorate(&self, original: Arc<T>, resolver: &R) -> (r: Arc<T>)
        ensures
            r == original,
    {
        let start = instant_now();
        let result = original;
        let elapsed = Duration::from_nanos_u128(nanos_since(&start));
        self.total_time.fetch_add(nanos_of(elapsed), Ordering::Relaxed);
        self.count.fetch_add(1, Ordering::Relaxed);
        let mut line = String::new();
        push_str(&mut line, "Service ");
        push_str(&mut line, self.service_name);
        push_str(&mut line, " resolved in ");
        push_str(&mut line, elapsed.debug_text().as_str());
        write_stdout_line(line.as_str());
        result
    }
}

} // verus!
