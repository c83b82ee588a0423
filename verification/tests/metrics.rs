use std::any::TypeId;
use std::sync::Arc;
use ferrous_di::key::Key;
use ferrous_di::metrics::{
    HealthChecker, HealthStatus, MetricsCollector, TimingStats, health_score_of,
};
use ferrous_di::textmap::TextMap;
use ferrous_di::time::Duration;

#[test]
fn test_timing_stats() {
    let mut stats = TimingStats::new();

    stats.record(Duration::from_millis(10));
    stats.record(Duration::from_millis(20));
    stats.record(Duration::from_millis(30));

    assert_eq!(stats.count, 3);
    assert_eq!(stats.min_duration, Duration::from_millis(10));
    assert_eq!(stats.max_duration, Duration::from_millis(30));
    assert_eq!(stats.average_duration(), Duration::from_millis(20));
}

#[test]
fn test_metrics_collector() {
    let mut collector = MetricsCollector::new();
    let key = Key::Type(TypeId::of::<String>(), "String");

    collector.record_resolution(&key, Duration::from_millis(15));
    collector.record_scope_created();
    collector.increment_counter("test_counter");

    let stats = collector.get_timing_stats(&key).unwrap();
    assert_eq!(stats.count, 1);
    assert_eq!(stats.average_duration(), Duration::from_millis(15));

    let system = collector.get_system_metrics();
    assert_eq!(system.total_resolutions, 1);
    assert_eq!(system.scopes_created, 1);
    assert_eq!(system.active_scopes, 1);

    let counters = collector.get_counters();
    assert_eq!(counters.get("test_counter"), Some(&1));
}

#[test]
fn test_prometheus_export() {
    let mut collector = MetricsCollector::new();
    let key = Key::Type(TypeId::of::<String>(), "String");

    collector.record_resolution(&key, Duration::from_millis(10));
    collector.increment_counter("test_events");

    let prometheus = collector.export_prometheus();
    assert!(prometheus.contains("ferrous_di_total_resolutions 1"));
    assert!(prometheus.contains("ferrous_di_test_events 1"));
    assert!(prometheus.contains("ferrous_di_resolution_duration_seconds"));
}

#[test]
fn test_health_checker() {
    let metrics = Arc::new(MetricsCollector::new());
    let mut checker: HealthChecker<Box<dyn Fn() -> HealthStatus>> = HealthChecker::new(metrics);

    checker.register_check("always_healthy".to_string(), Box::new(|| HealthStatus::Healthy));
    checker.register_check("always_degraded".to_string(), Box::new(|| {
        HealthStatus::Degraded("Test degradation".to_string())
    }));

    let results = checker.check_health();
    assert_eq!(results.len(), 4); // 2 custom + 2 default checks
    assert!(results.get("always_healthy").unwrap().is_healthy());

    let score = checker.overall_health_score();
    assert!(score > 0 && score <= 100);
}

#[test]
fn prometheus_export_exact_text() {
    let mut collector = MetricsCollector::new();
    let key = Key::Type(TypeId::of::<String>(), "String");
    collector.record_resolution(&key, Duration::from_millis(15));
    collector.record_resolution(&key, Duration::from_millis(1500));
    collector.record_scope_created();
    collector.increment_counter("hits");
    collector.increment_counter("hits");
    let text = collector.export_prometheus();
    let expected = "# HELP ferrous_di_total_resolutions Total number of service resolutions\n\
# TYPE ferrous_di_total_resolutions counter\n\
ferrous_di_total_resolutions 2\n\n\
# HELP ferrous_di_active_scopes Current number of active scopes\n\
# TYPE ferrous_di_active_scopes gauge\n\
ferrous_di_active_scopes 1\n\n\
# HELP ferrous_di_resolution_duration_seconds Time spent resolving services\n\
# TYPE ferrous_di_resolution_duration_seconds histogram\n\
ferrous_di_resolution_duration_seconds_sum{service=\"String\"} 1.515\n\
ferrous_di_resolution_duration_seconds_count{service=\"String\"} 2\n\
\n\
# HELP ferrous_di_hits Custom counter\n\
# TYPE ferrous_di_hits counter\n\
ferrous_di_hits 2\n\n";
    assert_eq!(text, expected);
}

#[test]
fn timing_stats_keep_last_hundred_and_p95() {
    let mut stats = TimingStats::new();
    assert_eq!(stats.p95_duration(), Duration::zero());
    for i in 1..=120u64 {
        stats.record(Duration::from_millis(i));
    }
    assert_eq!(stats.count, 120);
    assert_eq!(stats.recent_times.len(), 100);
    assert_eq!(stats.recent_times[0], Duration::from_millis(21));
    // sorted times 21..=120, index 95 holds 116 ms
    assert_eq!(stats.p95_duration(), Duration::from_millis(116));
    assert_eq!(stats.min_duration, Duration::from_millis(1));
    assert_eq!(stats.max_duration, Duration::from_millis(120));
}

#[test]
fn scope_disposal_never_goes_below_zero() {
    let mut collector = MetricsCollector::new();
    collector.record_scope_disposed();
    assert_eq!(collector.get_system_metrics().active_scopes, 0);
    collector.record_scope_created();
    collector.record_scope_created();
    collector.record_scope_disposed();
    collector.record_service_disposed();
    let sys = collector.get_system_metrics();
    assert_eq!(sys.active_scopes, 1);
    assert_eq!(sys.scopes_created, 2);
    assert_eq!(sys.services_disposed, 1);
}

#[test]
fn slowest_services_ordered_and_limited() {
    let mut collector = MetricsCollector::new();
    let a = Key::Type(TypeId::of::<u8>(), "A");
    let b = Key::Type(TypeId::of::<u16>(), "B");
    let c = Key::Type(TypeId::of::<u32>(), "C");
    collector.record_resolution(&a, Duration::from_millis(5));
    collector.record_resolution(&b, Duration::from_millis(50));
    collector.record_resolution(&c, Duration::from_millis(20));
    collector.record_resolution(&c, Duration::from_millis(40));
    let top = collector.get_slowest_services(2);
    assert_eq!(top.len(), 2);
    assert_eq!(top[0].0.display_name(), "B");
    assert_eq!(top[0].1, Duration::from_millis(50));
    assert_eq!(top[1].0.display_name(), "C");
    assert_eq!(top[1].1, Duration::from_millis(30));
}

#[test]
fn health_status_scores_and_average() {
    assert_eq!(HealthStatus::Healthy.score(), 100);
    assert_eq!(HealthStatus::Degraded("x".to_string()).score(), 50);
    assert_eq!(HealthStatus::Unhealthy("x".to_string()).score(), 0);
    assert!(!HealthStatus::Degraded("x".to_string()).is_healthy());
    let mut results: TextMap<HealthStatus> = TextMap::new();
    assert_eq!(health_score_of(&results), 100);
    results.insert("a".to_string(), HealthStatus::Healthy);
    results.insert("b".to_string(), HealthStatus::Degraded("slow".to_string()));
    results.insert("c".to_string(), HealthStatus::Unhealthy("down".to_string()));
    assert_eq!(health_score_of(&results), 50);
}

#[test]
fn default_checks_are_healthy_for_fresh_metrics() {
    let metrics = Arc::new(MetricsCollector::new());
    let checker: HealthChecker<fn() -> HealthStatus> = HealthChecker::new(metrics);
    let results = checker.check_health();
    assert_eq!(results.len(), 2);
    assert_eq!(results.get("memory_usage"), Some(&HealthStatus::Healthy));
    assert_eq!(results.get("scope_count"), Some(&HealthStatus::Healthy));
    assert_eq!(checker.overall_health_score(), 100);
}
