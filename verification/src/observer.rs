//! Diagnostic observers of resolution events, with run correlation for workflow engines.
use vstd::prelude::*;
use std::sync::Arc;
use std::sync::atomic::{AtomicU64, Ordering};
use crate::key::Key;
use crate::scope_local::WorkflowContext;
use crate::support::{write_stdout_line, write_stderr_line, instant_debug};
use crate::text::{push_str, to_string, IntoText};
use crate::textmap::TextMap;
use crate::time::Duration;
use crate::observer_text::{
    correlation_text, context_line, prefixed_line, bracket, nanos_of, average_nanos, mean_nanos, spec_correlation,
};

verus! {

/// Context information for correlated observation of workflow executions.
pub struct ObservationContext {
    /// Unique identifier for the current workflow run
    pub run_id: Option<String>,
    /// Name of the workflow being executed
    pub workflow_name: Option<String>,
    /// Current node/step being executed
    pub node_id: Option<String>,
    /// Additional metadata for the execution context
    pub metadata: TextMap<String>,
}

/// The bracketed run, workflow and node labels of a context, each with the ones before it,
/// and a trailing space; `[no-context] ` without a run id.
pub open spec fn context_label_text(c: ObservationContext) -> Seq<char> {
    match (c.run_id, c.workflow_name, c.node_id) {
        (Some(run), Some(workflow), Some(node)) => "[run:"@ + run@ + "] [workflow:"@ + workflow@
            + "] [node:"@ + node@ + "] "@,
        (Some(run), Some(workflow), None) => "[run:"@ + run@ + "] [workflow:"@ + workflow@ + "] "@,
        (Some(run), None, _) => "[run:"@ + run@ + "] "@,
        _ => "[no-context] "@,
    }
}

/// The view of an optional string.
pub open spec fn opt_view(o: Option<String>) -> Option<Seq<char>> {
    match o {
        Some(s) => Some(s@),
        None => None,
    }
}

impl ObservationContext {
    /// Creates a new empty observation context.
    pub fn new() -> (c: ObservationContext)
        ensures
            c.run_id is None,
            c.workflow_name is None,
            c.node_id is None,
            c.metadata.wf(),
            c.metadata.view() == Map::<Seq<char>, String>::empty(),
    {
        let metadata: TextMap<String> = TextMap::new();
        ObservationContext { run_id: None, workflow_name: None, node_id: None, metadata }
    }

    /// Creates an observation context with a run ID.
    pub fn with_run_id<R: IntoText>(run_id: R) -> (c: ObservationContext)
        ensures
            opt_view(c.run_id) == Some(run_id.text()),
            c.workflow_name is None,
            c.node_id is None,
            c.metadata.wf(),
            c.metadata.view() == Map::<Seq<char>, String>::empty(),
    {
        let metadata: TextMap<String> = TextMap::new();
        ObservationContext { run_id: Some(run_id.into_text()), workflow_name: None, node_id: None, metadata }
    }

    /// Creates a full workflow context.
    pub fn workflow<R: IntoText, W: IntoText, N: IntoText>(run_id: R, workflow_name: W, node_id: Option<N>) -> (c: ObservationContext)
        ensures
            opt_view(c.run_id) == Some(run_id.text()),
            opt_view(c.workflow_name) == Some(workflow_name.text()),
            opt_view(c.node_id) == match node_id {
                Some(n) => Some(n.text()),
                None => None,
            },
            c.metadata.wf(),
            c.metadata.view() == Map::<Seq<char>, String>::empty(),
    {
        let node = match node_id {
            Some(n) => Some(n.into_text()),
            None => None,
        };
        let metadata: TextMap<String> = TextMap::new();
        ObservationContext {
            run_id: Some(run_id.into_text()),
            workflow_name: Some(workflow_name.into_text()),
            node_id: node,
            metadata,
        }
    }

    /// Adds metadata to the context (a key already present gets the new value).
    pub fn with_metadata<K: IntoText, V: IntoText>(self, key: K, value: V) -> (c: ObservationContext)
        requires
            self.metadata.wf(),
        ensures
            c.metadata.wf(),
            c.metadata.view().dom() == self.metadata.view().dom().insert(key.text()),
            c.metadata.view()[key.text()]@ == value.text(),
            forall|k: Seq<char>| k != key.text() && #[trigger] self.metadata.view().contains_key(k)
                ==> c.metadata.view()[k] == self.metadata.view()[k],
            opt_view(c.run_id) == opt_view(self.run_id),
            opt_view(c.workflow_name) == opt_view(self.workflow_name),
            opt_view(c.node_id) == opt_view(self.node_id),
    {
        let mut c = self;
        let k = key.into_text();
        let v = value.into_text();
        c.metadata.insert(k, v);
        c
    }

    /// Gets a correlation string for logging/tracing: `run:workflow:node`, `run:workflow`,
    /// the run id alone, or `no-context` without a run id.
    pub fn correlation_id(&self) -> (r: String)
        ensures
            r@ == spec_correlation(opt_view(self.run_id), opt_view(self.workflow_name), opt_view(self.node_id)),
    {
        correlation_text(&self.run_id, &self.workflow_name, &self.node_id)
    }
}

impl Default for ObservationContext {
    fn default() -> (c: ObservationContext)
        ensures
            c.run_id is None,
            c.workflow_name is None,
            c.node_id is None,
            c.metadata.wf(),
            c.metadata.view() == Map::<Seq<char>, String>::empty(),
    {
        Self::new()
    }
}

/// Observer of resolution events.
///
/// The methods with a context call the plain ones and, by default, log the run and
/// workflow names when both are known.
pub trait DiObserver: Send + Sync {
    /// Called when starting to resolve a service.
    fn resolving(&self, key: &Key);

    /// Called when a service is successfully resolved.
    fn resolved(&self, key: &Key, duration: Duration);

    /// Called when a factory function panics during resolution.
    fn factory_panic(&self, key: &Key, message: &str);

    /// Called when starting to resolve a service with workflow context.
    fn resolving_with_context(&self, key: &Key, context: &ObservationContext) {
        self.resolving(key);
        match (&context.run_id, &context.workflow_name) {
            (Some(run_id), Some(workflow_name)) => {
                let mut tail = String::new();
                push_str(&mut tail, "Starting resolution: ");
                push_str(&mut tail, key.display_name());
                write_stdout_line(context_line(run_id.as_str(), workflow_name.as_str(), tail.as_str()).as_str());
            },
            _ => {},
        }
    }

    /// Called when a service is successfully resolved with workflow context.
    fn resolved_with_context(&self, key: &Key, duration: Duration, context: &ObservationContext) {
        self.resolved(key, duration);
        match (&context.run_id, &context.workflow_name) {
            (Some(run_id), Some(workflow_name)) => {
                let mut tail = String::new();
                push_str(&mut tail, "Completed resolution: ");
                push_str(&mut tail, key.display_name());
                push_str(&mut tail, " in ");
                push_str(&mut tail, duration.debug_text().as_str());
                write_stdout_line(context_line(run_id.as_str(), workflow_name.as_str(), tail.as_str()).as_str());
            },
            _ => {},
        }
    }

    /// Called when a factory function panics during resolution with workflow context.
    fn factory_panic_with_context(&self, key: &Key, message: &str, context: &ObservationContext) {
        self.factory_panic(key, message);
        match (&context.run_id, &context.workflow_name) {
            (Some(run_id), Some(workflow_name)) => {
                let mut tail = String::new();
                push_str(&mut tail, "FACTORY PANIC in ");
                push_str(&mut tail, key.display_name());
                push_str(&mut tail, ": ");
                push_str(&mut tail, message);
                write_stderr_line(context_line(run_id.as_str(), workflow_name.as_str(), tail.as_str()).as_str());
            },
            _ => {},
        }
    }
}

/// The registered observers, notified in order of registration.
pub struct Observers<O: ?Sized> {
    observers: Vec<Arc<O>>,
}

impl<O: ?Sized + DiObserver> Observers<O> {
    /// The registered observers, in order.
    pub closed spec fn registered(&self) -> Seq<Arc<O>> {
        self.observers@
    }

    /// Creates a new empty observer collection.
    pub fn new() -> (o: Observers<O>)
        ensures
            o.registered().len() == 0,
    {
        Observers { observers: Vec::new() }
    }

    /// Adds an observer to the collection.
    pub fn add(&mut self, observer: Arc<O>)
        ensures
            final(self).registered() == old(self).registered().push(observer),
    {
        self.observers.push(observer);
    }

    /// Returns true if any observers are registered.
    pub fn has_observers(&self) -> (r: bool)
        ensures
            r == (self.registered().len() > 0),
    {
        self.observers.len() > 0
    }

    /// Notifies all observers that a factory function panicked.
    pub fn factory_panic(&self, key: &Key, message: &str) {
        let mut i: usize = 0;
        while i < self.observers.len()
            invariant
                0 <= i <= self.observers@.len(),
            decreases self.observers@.len() - i,
        {
            self.observers[i].factory_panic(key, message);
            i = i + 1;
        }
    }

    /// Notifies all observers that resolution is starting with workflow context.
    pub fn resolving_with_context(&self, key: &Key, context: &ObservationContext) {
        let mut i: usize = 0;
        while i < self.observers.len()
            invariant
                0 <= i <= self.observers@.len(),
            decreases self.observers@.len() - i,
        {
            self.observers[i].resolving_with_context(key, context);
            i = i + 1;
        }
    }

    /// Notifies all observers that resolution completed successfully with workflow context.
    pub fn resolved_with_context(&self, key: &Key, duration: Duration, context: &ObservationContext) {
        let mut i: usize = 0;
        while i < self.observers.len()
            invariant
                0 <= i <= self.observers@.len(),
            decreases self.observers@.len() - i,
        {
            self.observers[i].resolved_with_context(key, duration, context);
            i = i + 1;
        }
    }

    /// Notifies all observers that a factory function panicked with workflow context.
    pub fn factory_panic_with_context(&self, key: &Key, message: &str, context: &ObservationContext) {
        let mut i: usize = 0;
        while i < self.observers.len()
            invariant
                0 <= i <= self.observers@.len(),
            decreases self.observers@.len() - i,
        {
            self.observers[i].factory_panic_with_context(key, message, context);
            i = i + 1;
        }
    }
}

/// Built-in observer that logs events to stdout (panics to stderr).
pub struct LoggingObserver {
    prefix: String,
}

impl LoggingObserver {
    /// The prefix of every logged line.
    pub closed spec fn spec_prefix(&self) -> Seq<char> {
        self.prefix@
    }

    /// Creates a new logging observer with the prefix `[ferrous-di]`.
    pub fn new() -> (o: LoggingObserver)
        ensures
            o.spec_prefix() == "[ferrous-di]"@,
    {
        LoggingObserver { prefix: to_string("[ferrous-di]") }
    }

    /// Creates a new logging observer with a custom prefix.
    pub fn with_prefix<P: IntoText>(prefix: P) -> (o: LoggingObserver)
        ensures
            o.spec_prefix() == prefix.text(),
    {
        LoggingObserver { prefix: prefix.into_text() }
    }
}

impl Default for LoggingObserver {
    fn default() -> (o: LoggingObserver)
        ensures
            o.spec_prefix() == "[ferrous-di]"@,
    {
        Self::new()
    }
}

impl DiObserver for LoggingObserver {
    fn resolving(&self, key: &Key) {
        let mut tail = String::new();
        push_str(&mut tail, "Resolving: ");
        push_str(&mut tail, key.display_name());
        write_stdout_line(prefixed_line(self.prefix.as_str(), None, tail.as_str()).as_str());
    }

    fn resolved(&self, key: &Key, duration: Duration) {
        let mut tail = String::new();
        push_str(&mut tail, "Resolved: ");
        push_str(&mut tail, key.display_name());
        push_str(&mut tail, " in ");
        push_str(&mut tail, duration.debug_text().as_str());
        write_stdout_line(prefixed_line(self.prefix.as_str(), None, tail.as_str()).as_str());
    }

    fn factory_panic(&self, key: &Key, message: &str) {
        let mut tail = String::new();
        push_str(&mut tail, "FACTORY PANIC in ");
        push_str(&mut tail, key.display_name());
        push_str(&mut tail, ": ");
        push_str(&mut tail, message);
        write_stderr_line(prefixed_line(self.prefix.as_str(), None, tail.as_str()).as_str());
    }

    fn resolving_with_context(&self, key: &Key, context: &ObservationContext) {
        let correlation = context.correlation_id();
        let mut tail = String::new();
        push_str(&mut tail, "Resolving: ");
        push_str(&mut tail, key.display_name());
        write_stdout_line(prefixed_line(self.prefix.as_str(), Some(correlation.as_str()), tail.as_str()).as_str());
    }

    fn resolved_with_context(&self, key: &Key, duration: Duration, context: &ObservationContext) {
        let correlation = context.correlation_id();
        let mut tail = String::new();
        push_str(&mut tail, "Resolved: ");
        push_str(&mut tail, key.display_name());
        push_str(&mut tail, " in ");
        push_str(&mut tail, duration.debug_text().as_str());
        write_stdout_line(prefixed_line(self.prefix.as_str(), Some(correlation.as_str()), tail.as_str()).as_str());
    }

    fn factory_panic_with_context(&self, key: &Key, message: &str, context: &ObservationContext) {
        let correlation = context.correlation_id();
        let mut tail = String::new();
        push_str(&mut tail, "FACTORY PANIC in ");
        push_str(&mut tail, key.display_name());
        push_str(&mut tail, ": ");
        push_str(&mut tail, message);
        write_stderr_line(prefixed_line(self.prefix.as_str(), Some(correlation.as_str()), tail.as_str()).as_str());
    }
}

/// Workflow-aware observer that focuses on correlation and performance tracking.
pub struct WorkflowObserver {
    name: String,
    track_performance: bool,
}

impl WorkflowObserver {
    /// The observer's name.
    pub closed spec fn spec_name(&self) -> Seq<char> {
        self.name@
    }

    /// Whether resolutions are logged when no context is given.
    pub closed spec fn spec_tracks_performance(&self) -> bool {
        self.track_performance
    }

    /// Creates a new workflow observer named `workflow`, tracking performance.
    pub fn new() -> (o: WorkflowObserver)
        ensures
            o.spec_name() == "workflow"@,
            o.spec_tracks_performance(),
    {
        WorkflowObserver { name: to_string("workflow"), track_performance: true }
    }

    /// Creates a workflow observer with a custom name, tracking performance.
    pub fn with_name<N: IntoText>(name: N) -> (o: WorkflowObserver)
        ensures
            o.spec_name() == name.text(),
            o.spec_tracks_performance(),
    {
        WorkflowObserver { name: name.into_text(), track_performance: true }
    }

    /// Enables or disables performance tracking.
    pub fn with_performance_tracking(self, enabled: bool) -> (o: WorkflowObserver)
        ensures
            o.spec_name() == self.spec_name(),
            o.spec_tracks_performance() == enabled,
    {
        WorkflowObserver { name: self.name, track_performance: enabled }
    }

    /// The bracketed run, workflow and node labels of a context, with a trailing space, or
    /// `[no-context] ` without a run id.
    fn context_labels(context: &ObservationContext) -> (r: String)
        ensures
            r@ == context_label_text(*context),
    {
        let mut s = String::new();
        match (&context.run_id, &context.workflow_name, &context.node_id) {
            (Some(run_id), Some(workflow), Some(node)) => {
                push_str(&mut s, "[run:");
                push_str(&mut s, run_id.as_str());
                push_str(&mut s, "] [workflow:");
                push_str(&mut s, workflow.as_str());
                push_str(&mut s, "] [node:");
                push_str(&mut s, node.as_str());
                push_str(&mut s, "] ");
            },
            (Some(run_id), Some(workflow), None) => {
                push_str(&mut s, "[run:");
                push_str(&mut s, run_id.as_str());
                push_str(&mut s, "] [workflow:");
                push_str(&mut s, workflow.as_str());
                push_str(&mut s, "] ");
            },
            (Some(run_id), None, _) => {
                push_str(&mut s, "[run:");
                push_str(&mut s, run_id.as_str());
                push_str(&mut s, "] ");
            },
            _ => {
                push_str(&mut s, "[no-context] ");
            },
        }
        s
    }
}

impl Default for WorkflowObserver {
    fn default() -> (o: WorkflowObserver)
        ensures
            o.spec_name() == "workflow"@,
            o.spec_tracks_performance(),
    {
        Self::new()
    }
}

impl DiObserver for WorkflowObserver {
    fn resolving(&self, key: &Key) {
        if self.track_performance {
            let mut tail = String::new();
            push_str(&mut tail, "Resolving: ");
            push_str(&mut tail, key.display_name());
            write_stdout_line(prefixed_line(bracket(self.name.as_str()).as_str(), None, tail.as_str()).as_str());
        }
    }

    fn resolved(&self, key: &Key, duration: Duration) {
        if self.track_performance {
            let mut tail = String::new();
            push_str(&mut tail, "Resolved: ");
            push_str(&mut tail, key.display_name());
            push_str(&mut tail, " in ");
            push_str(&mut tail, duration.debug_text().as_str());
            write_stdout_line(prefixed_line(bracket(self.name.as_str()).as_str(), None, tail.as_str()).as_str());
        }
    }

    fn factory_panic(&self, key: &Key, message: &str) {
        let mut tail = String::new();
        push_str(&mut tail, "PANIC in ");
        push_str(&mut tail, key.display_name());
        push_str(&mut tail, ": ");
        push_str(&mut tail, message);
        write_stderr_line(prefixed_line(bracket(self.name.as_str()).as_str(), None, tail.as_str()).as_str());
    }

    fn resolving_with_context(&self, key: &Key, context: &ObservationContext) {
        let mut tail = Self::context_labels(context);
        push_str(&mut tail, "Resolving: ");
        push_str(&mut tail, key.display_name());
        write_stdout_line(prefixed_line(bracket(self.name.as_str()).as_str(), None, tail.as_str()).as_str());
    }

    fn resolved_with_context(&self, key: &Key, duration: Duration, context: &ObservationContext) {
        if self.track_performance {
            let mut tail = Self::context_labels(context);
            push_str(&mut tail, "Resolved: ");
            push_str(&mut tail, key.display_name());
            push_str(&mut tail, " in ");
            push_str(&mut tail, duration.debug_text().as_str());
            write_stdout_line(prefixed_line(bracket(self.name.as_str()).as_str(), None, tail.as_str()).as_str());
        }
    }

    fn factory_panic_with_context(&self, key: &Key, message: &str, context: &ObservationContext) {
        let correlation = context.correlation_id();
        let mut tail = String::new();
        push_str(&mut tail, "PANIC in ");
        push_str(&mut tail, key.display_name());
        push_str(&mut tail, ": ");
        push_str(&mut tail, message);
        write_stderr_line(prefixed_line(bracket(self.name.as_str()).as_str(), Some(correlation.as_str()), tail.as_str()).as_str());
    }
}

/// Extracts an observation context from workflow state.
pub trait WorkflowContextProvider {
    /// The observation context of the workflow state.
    fn observation_context(&self) -> ObservationContext;
}

impl WorkflowContextProvider for WorkflowContext {
    /// The run id and workflow name, no node, and the start and elapsed times as metadata.
    fn observation_context(&self) -> (c: ObservationContext)
        ensures
            opt_view(c.run_id) == Some(self.spec_run_id()),
            opt_view(c.workflow_name) == Some(self.spec_workflow_name()),
            c.node_id is None,
            c.metadata.wf(),
            c.metadata.view().dom() == set!["started_at"@, "elapsed"@],
    {
        let c = ObservationContext::workflow(self.run_id(), self.workflow_name(), None::<String>);
        let started = instant_debug(self.started_at());
        let elapsed = self.elapsed().debug_text();
        let c = c.with_metadata("started_at", started);
        let c = c.with_metadata("elapsed", elapsed);
        proof {
            assert(c.metadata.view().dom() =~= set!["started_at"@, "elapsed"@]);
        }
        c
    }
}

/// Performance-focused observer that counts resolutions, their total time and panics.
pub struct MetricsObserver {
    pub resolution_count: AtomicU64,
    pub total_resolution_time: AtomicU64,
    pub panic_count: AtomicU64,
}

impl MetricsObserver {
    /// Creates a new metrics observer with every count at zero.
    pub fn new() -> MetricsObserver {
        MetricsObserver {
            resolution_count: AtomicU64::new(0),
            total_resolution_time: AtomicU64::new(0),
            panic_count: AtomicU64::new(0),
        }
    }

    /// Gets the total number of resolutions observed.
    pub fn resolution_count(&self) -> u64 {
        self.resolution_count.load(Ordering::Relaxed)
    }

    /// Gets the average resolution time: none before the first resolution.
    pub fn average_resolution_time(&self) -> (r: Option<Duration>)
        ensures
            exists|count: u64, total: u64|
                (r is None <==> count == 0) && (r matches Some(d) ==> d.total_nanos() == #[trigger] mean_nanos(
                    count,
                    total,
                )),
    {
        let count = self.resolution_count();
        let total_ns = self.total_resolution_time.load(Ordering::Relaxed);
        let r = average_nanos(count, total_ns);
        let ghost m = mean_nanos(count, total_ns);
        assert((r is None <==> count == 0) && (r matches Some(d) ==> d.total_nanos() == m));
        r
    }

    /// Gets the total resolution time.
    pub fn total_resolution_time(&self) -> (r: Duration)
        ensures
            r.total_nanos() <= u64::MAX,
    {
        Duration::from_nanos(self.total_resolution_time.load(Ordering::Relaxed))
    }

    /// Gets the number of panics observed.
    pub fn panic_count(&self) -> u64 {
        self.panic_count.load(Ordering::Relaxed)
    }

    /// Resets all metrics.
    pub fn reset(&self) {
        self.resolution_count.store(0, Ordering::Relaxed);
        self.total_resolution_time.store(0, Ordering::Relaxed);
        self.panic_count.store(0, Ordering::Relaxed);
    }
}

impl Default for MetricsObserver {
    fn default() -> MetricsObserver {
        Self::new()
    }
}

impl DiObserver for MetricsObserver {
    fn resolving(&self, key: &Key) {
    }

    fn resolved(&self, key: &Key, duration: Duration) {
        self.resolution_count.fetch_add(1, Ordering::Relaxed);
        self.total_resolution_time.fetch_add(nanos_of(duration), Ordering::Relaxed);
    }

    fn factory_panic(&self, key: &Key, message: &str) {
        self.panic_count.fetch_add(1, Ordering::Relaxed);
    }

    fn resolved_with_context(&self, key: &Key, duration: Duration, context: &ObservationContext) {
        self.resolved(key, duration);
    }

    fn factory_panic_with_context(&self, key: &Key, message: &str, context: &ObservationContext) {
        self.factory_panic(key, message);
    }
}

} // verus!
