use std::any::TypeId;
use std::sync::atomic::{AtomicU32, Ordering};
use std::sync::{Arc, Mutex};
use ferrous_di::aop::{
    chain_step, Aspect, AspectContext, AspectWeaver, ChainState, LogLevel, Logger, LoggingAspect,
    PerformanceMetrics,
};
use ferrous_di::error::{DiError, DiResult};
use ferrous_di::key::Key;
use ferrous_di::time::Duration;

#[test]
fn test_logging_aspect() {
    let aspect = LoggingAspect::new();
    let key = Key::Type(TypeId::of::<String>(), "TestService");
    let mut context = AspectContext::new(key).with_method("test_method".to_string());

    // Test before advice
    assert!(aspect.before(&mut context).is_ok());

    // Test after success advice
    assert!(aspect.after_success(&mut context).is_ok());

    // Test after error advice
    let error = DiError::NotFound("test");
    assert!(aspect.after_error(&mut context, &error).is_ok());
}

struct Recorder {
    lines: Mutex<Vec<String>>,
}

impl Logger for Recorder {
    fn debug(&self, message: &str) {
        self.lines.lock().unwrap().push(format!("debug:{}", message));
    }
    fn info(&self, message: &str) {
        self.lines.lock().unwrap().push(format!("info:{}", message));
    }
    fn warn(&self, message: &str) {
        self.lines.lock().unwrap().push(format!("warn:{}", message));
    }
    fn error(&self, message: &str) {
        self.lines.lock().unwrap().push(format!("error:{}", message));
    }
}

#[test]
fn logging_aspect_messages_and_levels() {
    let recorder = Arc::new(Recorder { lines: Mutex::new(Vec::new()) });
    let aspect = LoggingAspect::with_logger(recorder.clone(), LogLevel::Warn);
    let key = Key::Type(TypeId::of::<String>(), "Svc");
    let mut context = AspectContext::new(key);
    aspect.before(&mut context).unwrap();
    aspect.after_error(&mut context, &DiError::NotFound("Db")).unwrap();
    let lines = recorder.lines.lock().unwrap();
    assert_eq!(lines[0], "warn:→ Executing Svc.resolve");
    assert!(lines[1].starts_with("error:✗ Failed Svc.resolve in "));
    assert!(lines[1].ends_with("ms: Service not found: Db"));
    let ctx = AspectContext::new(key).with_method("run");
    let text = LoggingAspect::<Recorder>::success_message(&ctx, Duration::from_nanos(1_235_000));
    assert_eq!(text, "✓ Completed Svc.run in 1.24ms");
    let text2 = LoggingAspect::<Recorder>::success_message(&ctx, Duration::from_nanos(1_225_000));
    assert_eq!(text2, "✓ Completed Svc.run in 1.22ms");
}

#[derive(Default)]
struct Tracker {
    events: Mutex<Vec<String>>,
    name: &'static str,
    fail_before: bool,
}

impl Aspect for Tracker {
    fn before(&self, _context: &AspectContext) -> DiResult<()> {
        self.events.lock().unwrap().push(format!("{}:before", self.name));
        if self.fail_before {
            Err(DiError::NotFound("refused"))
        } else {
            Ok(())
        }
    }
    fn after_success(&self, _context: &AspectContext) -> DiResult<()> {
        self.events.lock().unwrap().push(format!("{}:success", self.name));
        Ok(())
    }
    fn after_error(&self, _context: &AspectContext, _error: &DiError) -> DiResult<()> {
        self.events.lock().unwrap().push(format!("{}:error", self.name));
        Ok(())
    }
    fn after(&self, _context: &AspectContext) -> DiResult<()> {
        self.events.lock().unwrap().push(format!("{}:after", self.name));
        Ok(())
    }
}

#[test]
fn test_aspect_weaver() {
    let mut weaver: AspectWeaver<dyn Aspect> = AspectWeaver::new();
    weaver.add_global_aspect(Arc::new(LoggingAspect::new()));

    let key = Key::Type(TypeId::of::<String>(), "TestService");
    let counter = Arc::new(AtomicU32::new(0));
    let counter_clone = counter.clone();

    let result = weaver.weave_call(&key, Box::new(move || {
        counter_clone.fetch_add(1, Ordering::SeqCst);
        Ok("woven_result".to_string())
    }));

    assert!(result.is_ok());
    assert_eq!(result.unwrap(), "woven_result");
    assert_eq!(counter.load(Ordering::SeqCst), 1);
}

#[test]
fn weaver_runs_advice_in_order_and_unwinds_on_failure() {
    let first = Arc::new(Tracker { name: "g", ..Default::default() });
    let second = Arc::new(Tracker { name: "s", ..Default::default() });
    let key = Key::Type(TypeId::of::<String>(), "Svc");
    let mut weaver: AspectWeaver<Tracker> = AspectWeaver::new();
    weaver.add_global_aspect(first.clone());
    weaver.add_service_aspect(key, second.clone());
    let r = weaver.weave_call(&key, || Ok::<u32, DiError>(5));
    assert_eq!(r.unwrap(), 5);
    assert_eq!(*first.events.lock().unwrap(), vec!["g:before", "g:success", "g:after"]);
    assert_eq!(*second.events.lock().unwrap(), vec!["s:before", "s:success", "s:after"]);

    let blocker = Arc::new(Tracker { name: "b", fail_before: true, ..Default::default() });
    let mut weaver2: AspectWeaver<Tracker> = AspectWeaver::new();
    weaver2.add_global_aspect(blocker.clone());
    let calls = Arc::new(AtomicU32::new(0));
    let c2 = calls.clone();
    let r2 = weaver2.weave_call(&key, move || {
        c2.fetch_add(1, Ordering::SeqCst);
        Ok::<u32, DiError>(1)
    });
    assert!(r2.is_err());
    assert_eq!(calls.load(Ordering::SeqCst), 0);
    assert_eq!(*blocker.events.lock().unwrap(), vec!["b:before", "b:error", "b:after"]);
}

#[test]
fn performance_metrics_record_and_stats() {
    let mut m = PerformanceMetrics::new();
    m.record("Svc", "resolve", Duration::from_millis(3), std::time::Instant::now());
    m.record("Svc", "resolve", Duration::from_millis(5), std::time::Instant::now());
    m.record("Other", "run", Duration::from_millis(1), std::time::Instant::now());
    let stats = m.stats();
    let svc = stats.get("Svc").unwrap();
    assert_eq!(svc.call_count, 2);
    assert_eq!(svc.total_time, Duration::from_millis(8));
    assert_eq!(svc.average_time, Duration::from_millis(4));
    assert_eq!(stats.get("Other").unwrap().call_count, 1);
}

#[test]
fn chain_steps_through_befores_operation_and_afters() {
    let n = 2;
    let mut s = ChainState::Before(0);
    let mut seen = Vec::new();
    loop {
        match &s {
            ChainState::Before(i) => seen.push(format!("before{}", i)),
            ChainState::Operation => seen.push("op".to_string()),
            ChainState::AfterSuccess(j) => seen.push(format!("after_success{}", j)),
            ChainState::After(j) => seen.push(format!("after{}", j)),
            ChainState::Succeeded | ChainState::Failed(_) => break,
        }
        s = chain_step(n, s, Ok(()));
    }
    assert!(matches!(s, ChainState::Succeeded));
    assert_eq!(
        seen,
        vec!["before0", "before1", "op", "after_success1", "after1", "after_success0", "after0"]
    );
    // The first failure ends the chain with that failure.
    let failed = chain_step(n, ChainState::Before(1), Err(DiError::NotFound("x")));
    assert!(matches!(failed, ChainState::Failed(DiError::NotFound("x"))));
    let still = chain_step(n, failed, Err(DiError::NotFound("y")));
    assert!(matches!(still, ChainState::Failed(DiError::NotFound("x"))));
}
