use std::any::TypeId;
use std::sync::Arc;
use ferrous_di::key::Key;
use ferrous_di::observer::{
    DiObserver, LoggingObserver, MetricsObserver, ObservationContext, Observers, WorkflowContextProvider,
    WorkflowObserver,
};
use ferrous_di::scope_local::WorkflowContext;
use ferrous_di::time::Duration;

fn string_key() -> Key {
    Key::Type(TypeId::of::<String>(), "alloc::string::String")
}

#[test]
fn test_observation_context_creation() {
    let context = ObservationContext::new();
    assert!(context.run_id.is_none());
    assert_eq!(context.correlation_id(), "no-context");

    let context = ObservationContext::with_run_id("run-123");
    assert_eq!(context.run_id.as_ref().unwrap(), "run-123");
    assert_eq!(context.correlation_id(), "run-123");

    let context = ObservationContext::workflow("run-456", "user_flow", Some("step_1"));
    assert_eq!(context.correlation_id(), "run-456:user_flow:step_1");
}

#[test]
fn test_observation_context_metadata() {
    let context = ObservationContext::with_run_id("run-123")
        .with_metadata("user_id", "user-456")
        .with_metadata("priority", "high");

    assert_eq!(context.metadata.get("user_id").unwrap(), "user-456");
    assert_eq!(context.metadata.get("priority").unwrap(), "high");
}

#[test]
fn test_workflow_observer() {
    let observer = WorkflowObserver::new();
    let key = string_key();
    let context = ObservationContext::workflow("run-123", "test_workflow", Some("node_1"));

    // These should not panic
    observer.resolving(&key);
    observer.resolved(&key, Duration::from_millis(1));
    observer.resolving_with_context(&key, &context);
    observer.resolved_with_context(&key, Duration::from_millis(1), &context);
}

#[test]
fn test_metrics_observer() {
    let observer = MetricsObserver::new();
    let key = string_key();

    assert_eq!(observer.resolution_count(), 0);
    assert_eq!(observer.panic_count(), 0);
    assert!(observer.average_resolution_time().is_none());

    observer.resolved(&key, Duration::from_millis(10));
    observer.resolved(&key, Duration::from_millis(20));

    assert_eq!(observer.resolution_count(), 2);
    assert!(observer.average_resolution_time().is_some());
    assert!(observer.total_resolution_time() >= Duration::from_millis(30));

    observer.factory_panic(&key, "test panic");
    assert_eq!(observer.panic_count(), 1);

    observer.reset();
    assert_eq!(observer.resolution_count(), 0);
    assert_eq!(observer.panic_count(), 0);
}

#[test]
fn test_workflow_context_provider() {
    let workflow_ctx = WorkflowContext::new("test_workflow");
    let obs_ctx = workflow_ctx.observation_context();

    assert_eq!(obs_ctx.run_id.as_ref().unwrap(), workflow_ctx.run_id());
    assert_eq!(obs_ctx.workflow_name.as_ref().unwrap(), "test_workflow");
    assert!(obs_ctx.metadata.contains_key("started_at"));
    assert!(obs_ctx.metadata.contains_key("elapsed"));
}

#[test]
fn test_observers_with_context() {
    let mut observers = Observers::new();
    let observer = Arc::new(LoggingObserver::new());
    observers.add(observer);

    let key = string_key();
    let context = ObservationContext::workflow("run-123", "test_workflow", None::<String>);

    // These should not panic
    observers.resolving_with_context(&key, &context);
    observers.resolved_with_context(&key, Duration::from_millis(1), &context);
    observers.factory_panic_with_context(&key, "test", &context);
}

#[test]
fn correlation_without_node_and_without_run() {
    let ctx = ObservationContext::workflow("r", "w", None::<String>);
    assert_eq!(ctx.correlation_id(), "r:w");
    let mut only_workflow = ObservationContext::new();
    only_workflow.workflow_name = Some("w".to_string());
    assert_eq!(only_workflow.correlation_id(), "no-context");
}

#[test]
fn metadata_key_overwrites_value() {
    let ctx = ObservationContext::new().with_metadata("k", "v1").with_metadata("k", "v2");
    assert_eq!(ctx.metadata.len(), 1);
    assert_eq!(ctx.metadata.get("k").unwrap(), "v2");
}

#[test]
fn metrics_observer_average_is_integer_mean() {
    let observer = MetricsObserver::new();
    let key = string_key();
    observer.resolved(&key, Duration::from_nanos(10));
    observer.resolved(&key, Duration::from_nanos(21));
    assert_eq!(observer.average_resolution_time(), Some(Duration::from_nanos(15)));
    assert_eq!(observer.total_resolution_time(), Duration::from_nanos(31));
}

#[test]
fn observers_registry_counts() {
    let mut observers: Observers<dyn DiObserver> = Observers::new();
    assert!(!observers.has_observers());
    observers.add(Arc::new(MetricsObserver::new()));
    observers.add(Arc::new(WorkflowObserver::with_name("flow").with_performance_tracking(false)));
    assert!(observers.has_observers());
    observers.factory_panic(&string_key(), "boom");
}
