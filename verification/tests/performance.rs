use std::any::TypeId;
use std::sync::Arc;
use ferrous_di::error::DiError;
use ferrous_di::key::Key;
use ferrous_di::performance::{
    compute_optimal_order, plan_path, CacheConfig, DependencyGraphOptimizer, LazyService,
    ResolutionCache, ServicePool,
};
use ferrous_di::time::Duration;

#[test]
fn test_service_pool_reuse() {
    let mut pool = ServicePool::new(|| "new_instance".to_string(), 5);

    // Get instance from empty pool (creates new)
    let instance1 = pool.get();
    assert_eq!(instance1, "new_instance");

    // Return to pool
    pool.put(instance1);
    assert_eq!(pool.size(), 1);

    // Get from pool (should reuse)
    let instance2 = pool.get();
    assert_eq!(instance2, "new_instance");
    assert_eq!(pool.size(), 0);
}

#[test]
fn test_resolution_cache_basic_operations() {
    let mut cache: ResolutionCache<Arc<String>> = ResolutionCache::new();
    let key = Key::Type(TypeId::of::<String>(), "String");
    let service = Arc::new("test_service".to_string());

    // Cache miss initially
    assert!(cache.get(&key).is_none());

    // Put and get
    cache.put(key, service.clone()).unwrap();
    let cached = cache.get(&key).unwrap();

    // Should be the same Arc
    assert!(Arc::ptr_eq(&service, &cached));

    // Check stats
    let stats = cache.stats();
    assert_eq!(stats.hits, 1);
    assert_eq!(stats.misses, 1);
}

#[test]
fn cache_entry_expires_after_ttl() {
    let config = CacheConfig {
        max_entries: 10,
        ttl: Some(Duration::from_millis(50)),
        enable_lru: true,
        track_access_count: true,
    };
    let mut cache: ResolutionCache<u32> = ResolutionCache::with_config(config);
    let key = Key::Type(TypeId::of::<String>(), "String");
    cache.put_at(key, 7, 1_000).unwrap();
    assert_eq!(cache.get_at(&key, 1_000 + 50_000_000), Some(7));
    assert_eq!(cache.get_at(&key, 1_000 + 50_000_001), None);
    assert_eq!(cache.stats().ttl_evictions, 1);
    assert_eq!(cache.size(), 0);
}

#[test]
fn full_cache_evicts_least_recently_used_or_refuses() {
    let config = CacheConfig { max_entries: 2, ttl: None, enable_lru: true, track_access_count: true };
    let mut cache: ResolutionCache<u32> = ResolutionCache::with_config(config);
    let a = Key::Type(TypeId::of::<u8>(), "A");
    let b = Key::Type(TypeId::of::<u16>(), "B");
    let c = Key::Type(TypeId::of::<u32>(), "C");
    cache.put_at(a, 1, 10).unwrap();
    cache.put_at(b, 2, 20).unwrap();
    assert_eq!(cache.get_at(&a, 30), Some(1)); // a now used more recently than b
    cache.put_at(c, 3, 40).unwrap();
    assert_eq!(cache.size(), 2);
    assert_eq!(cache.stats().lru_evictions, 1);
    assert_eq!(cache.get_at(&b, 50), None);
    assert_eq!(cache.get_at(&a, 50), Some(1));

    let strict = CacheConfig { max_entries: 1, ttl: None, enable_lru: false, track_access_count: false };
    let mut cache2: ResolutionCache<u32> = ResolutionCache::with_config(strict);
    cache2.put_at(a, 1, 0).unwrap();
    match cache2.put_at(b, 2, 0) {
        Err(DiError::TypeMismatch(m)) => assert_eq!(m, "Cache capacity exceeded"),
        _ => panic!("expected capacity error"),
    }
    assert_eq!(cache2.size(), 1);
}

#[test]
fn pool_drops_returns_beyond_capacity() {
    let mut pool = ServicePool::new(|| 0u32, 1);
    pool.put(1);
    pool.put(2);
    assert_eq!(pool.size(), 1);
    assert_eq!(pool.get(), 1);
    assert_eq!(pool.get(), 0);
    pool.put(3);
    pool.clear();
    assert_eq!(pool.size(), 0);
}

#[test]
fn lazy_service_initializes_once() {
    let mut lazy = LazyService::new(|| Ok::<String, DiError>("initialized".to_string()));
    assert!(!lazy.is_initialized());
    let first = lazy.get().unwrap();
    assert!(lazy.is_initialized());
    let second = lazy.get().unwrap();
    assert!(Arc::ptr_eq(&first, &second));
    assert_eq!(*first, "initialized");

    let mut failing = LazyService::new(|| Err::<String, DiError>(DiError::NotFound("nope")));
    assert!(failing.get().is_err());
    assert!(!failing.is_initialized());
}

#[test]
fn resolution_path_costs_ten_per_step() {
    let deps = vec![Key::Type(TypeId::of::<i32>(), "Dep1"), Key::Type(TypeId::of::<u64>(), "Dep2")];
    let order = compute_optimal_order(&deps).unwrap();
    assert_eq!(order.len(), 2);
    let path = plan_path(&deps).unwrap();
    assert_eq!(path.steps.len(), 2);
    assert_eq!(path.depth, 2);
    assert_eq!(path.cost, 20);
}

#[test]
fn test_resolution_cache_ttl_expiration() {
    let config = CacheConfig {
        max_entries: 10,
        ttl: Some(Duration::from_millis(50)),
        enable_lru: true,
        track_access_count: true,
    };

    let mut cache: ResolutionCache<Arc<String>> = ResolutionCache::with_config(config);
    let key = Key::Type(TypeId::of::<String>(), "String");
    let service = Arc::new("test_service".to_string());

    // Put service in cache at time zero
    cache.put_at(key, service, 0).unwrap();

    // Should be available immediately
    assert!(cache.get_at(&key, 0).is_some());

    // 60ms later it has expired
    assert!(cache.get_at(&key, 60_000_000).is_none());

    let stats = cache.stats();
    assert_eq!(stats.ttl_evictions, 1);
}

#[test]
fn test_lazy_service_initialization() {
    let counter = std::sync::Mutex::new(0);

    let mut lazy = LazyService::new(|| {
        let mut c = counter.lock().unwrap();
        *c += 1;
        Ok(format!("initialized_{}", *c))
    });

    // Not initialized initially
    assert!(!lazy.is_initialized());

    // First access initializes
    let service1 = lazy.get().unwrap();
    assert!(lazy.is_initialized());
    assert_eq!(*service1, "initialized_1");

    // Second access returns same instance
    let service2 = lazy.get().unwrap();
    assert!(Arc::ptr_eq(&service1, &service2));

    // Counter should only be incremented once
    assert_eq!(*counter.lock().unwrap(), 1);
}

#[test]
fn test_dependency_graph_optimizer() {
    let mut optimizer = DependencyGraphOptimizer::new();
    let root_key = Key::Type(TypeId::of::<String>(), "Root");
    let deps = vec![
        Key::Type(TypeId::of::<i32>(), "Dep1"),
        Key::Type(TypeId::of::<f64>(), "Dep2"),
    ];

    let path = optimizer.optimize_path(&root_key, &deps).unwrap();

    assert_eq!(path.steps.len(), 2);
    assert_eq!(path.depth, 2);
    assert!(path.cost > 0);

    // Second call should use cached path
    let path2 = optimizer.optimize_path(&root_key, &deps).unwrap();
    assert_eq!(path.steps, path2.steps);

    let stats = optimizer.stats();
    assert_eq!(stats.paths_analyzed, 1);
    assert_eq!(stats.paths_optimized, 1);
}

#[test]
fn optimizer_keeps_first_path_and_counts_depths() {
    let mut optimizer = DependencyGraphOptimizer::new();
    let root = Key::Trait("Root");
    let other = Key::Trait("Other");
    let three = vec![Key::Trait("A"), Key::Trait("B"), Key::Trait("C")];
    let one = vec![Key::Trait("D")];

    let first = optimizer.optimize_path(&root, &three).unwrap();
    assert_eq!(first.cost, 30);
    assert_eq!(first.depth, 3);

    // A cached root keeps its first path, whatever dependencies come with the call.
    let again = optimizer.optimize_path(&root, &one).unwrap();
    assert_eq!(again.steps, three);
    assert_eq!(again.cost, 30);

    let second = optimizer.optimize_path(&other, &one).unwrap();
    assert_eq!(second.steps, one);
    assert_eq!(second.cost, 10);

    let stats = optimizer.stats();
    assert_eq!(stats.paths_analyzed, 2);
    assert_eq!(stats.total_depth, 4);
    assert_eq!(stats.max_depth, 3);

    // Clearing forgets the paths but keeps the statistics.
    optimizer.clear();
    let recomputed = optimizer.optimize_path(&root, &one).unwrap();
    assert_eq!(recomputed.steps, one);
    assert_eq!(optimizer.stats().paths_analyzed, 3);
}
