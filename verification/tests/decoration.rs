use std::any::TypeId;
use std::sync::Arc;
use ferrous_di::decoration::decorators::{CountingDecorator, LoggingDecorator, TimingDecorator};
use ferrous_di::decoration::{DecorationPipeline, ServiceDecorator};
use ferrous_di::key::Key;
use ferrous_di::time::Duration;

struct TestService {
    value: i32,
}

struct TestDecorator {
    multiplier: i32,
}

struct MockResolver;

type Decorator = Box<dyn Fn(Arc<TestService>, &MockResolver) -> Arc<TestService>>;

impl ServiceDecorator<TestService, MockResolver> for TestDecorator {
    fn decorate(&self, original: Arc<TestService>, _resolver: &MockResolver) -> Arc<TestService> {
        Arc::new(TestService { value: original.value * self.multiplier })
    }
}

impl TestDecorator {
    fn boxed(self) -> Decorator {
        Box::new(move |original, resolver| self.decorate(original, resolver))
    }
}

fn service_key() -> Key {
    Key::Type(TypeId::of::<TestService>(), "TestService")
}

#[test]
fn test_decoration_pipeline() {
    let mut pipeline: DecorationPipeline<Decorator> = DecorationPipeline::new();

    // Add decorator
    pipeline.add_service_decorator(service_key(), TestDecorator { multiplier: 2 }.boxed());

    assert!(pipeline.has_service_decorators(&service_key()));
    assert_eq!(pipeline.service_decorator_count(), 1);

    // Test decoration
    let original = Arc::new(TestService { value: 10 });
    let mock_resolver = MockResolver;
    let decorated = pipeline.decorate_service(&service_key(), original, &mock_resolver);

    assert_eq!(decorated.value, 20);
}

#[test]
fn test_multiple_decorators() {
    let mut pipeline: DecorationPipeline<Decorator> = DecorationPipeline::new();

    // Add multiple decorators
    pipeline.add_service_decorator(service_key(), TestDecorator { multiplier: 2 }.boxed());
    pipeline.add_service_decorator(service_key(), TestDecorator { multiplier: 3 }.boxed());

    assert_eq!(pipeline.service_decorator_count(), 2);

    // Test decoration chain
    let original = Arc::new(TestService { value: 10 });
    let mock_resolver = MockResolver;
    let decorated = pipeline.decorate_service(&service_key(), original, &mock_resolver);

    assert_eq!(decorated.value, 60); // 10 * 2 * 3
}

#[test]
fn pipeline_applies_decorators_of_the_key_in_order() {
    let mut pipeline: DecorationPipeline<Box<dyn Fn(i64, ()) -> i64>> = DecorationPipeline::new();
    let a = Key::Trait("A");
    let b = Key::Trait("B");
    pipeline.add_service_decorator(a, Box::new(|v, _| v + 1));
    pipeline.add_service_decorator(b, Box::new(|v, _| v * 100));
    pipeline.add_service_decorator(a, Box::new(|v, _| v * 10));
    pipeline.add_trait_decorator(a, Box::new(|v, _| v - 7));

    // Added order for `A`: first +1, then *10; the decorator of `B` is not applied.
    assert_eq!(pipeline.decorate_service(&a, 4, ()), 50);
    assert_eq!(pipeline.decorate_service(&b, 4, ()), 400);
    assert_eq!(pipeline.decorate_trait(&a, 4, ()), -3);
    // A key without decorators leaves the value as it was.
    assert_eq!(pipeline.decorate_service(&Key::Trait("C"), 4, ()), 4);
    assert!(!pipeline.has_service_decorators(&Key::Trait("C")));
    assert!(pipeline.has_trait_decorators(&a));
    assert!(!pipeline.has_trait_decorators(&b));
    assert_eq!(pipeline.service_decorator_count(), 3);
    assert_eq!(pipeline.trait_decorator_count(), 1);

    pipeline.clear();
    assert_eq!(pipeline.service_decorator_count(), 0);
    assert_eq!(pipeline.trait_decorator_count(), 0);
    assert_eq!(pipeline.decorate_service(&a, 4, ()), 4);
}

#[test]
fn test_logging_decorator() {
    let logger = LoggingDecorator::new("TestService");
    let service = Arc::new(TestService { value: 42 });

    let mock_resolver = MockResolver;
    let decorated = logger.decorate(service, &mock_resolver);
    assert_eq!(decorated.value, 42); // Should be unchanged
}

#[test]
fn test_timing_decorator() {
    let timer = TimingDecorator::new("TestService");
    let service = Arc::new(TestService { value: 42 });

    assert_eq!(timer.access_count(), 0);

    let decorated = timer.decorate(service, &MockResolver);
    assert_eq!(decorated.value, 42);
    assert_eq!(timer.access_count(), 1);
    // On very fast systems, the timing might be 0ns, so we check for >= 0
    assert!(timer.total_time() >= Duration::zero());
}

#[test]
fn test_counting_decorator() {
    let counter = CountingDecorator::new();
    let service = Arc::new(TestService { value: 42 });

    assert_eq!(counter.count(), 0);

    let _decorated1 = counter.decorate(service.clone(), &MockResolver);
    assert_eq!(counter.count(), 1);

    let _decorated2 = counter.decorate(service, &MockResolver);
    assert_eq!(counter.count(), 2);
}

#[test]
fn decorators_hand_back_the_same_instance() {
    let service = Arc::new(TestService { value: 7 });
    let counter = CountingDecorator::new();
    let same = counter.decorate(service.clone(), &MockResolver);
    assert!(Arc::ptr_eq(&service, &same));
    let timer = TimingDecorator::new("S");
    assert_eq!(timer.average_time(), Duration::zero());
    let same2 = timer.decorate(service.clone(), &MockResolver);
    assert!(Arc::ptr_eq(&service, &same2));
}
