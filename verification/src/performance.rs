//! Performance components: a resolution cache with time-to-live and least-recently-used
//! eviction, a pool of reusable instances, lazily initialized services, and resolution
//! paths.
use vstd::prelude::*;
use std::sync::Arc;
use std::time::Instant;
use crate::error::{DiError, DiResult};
use crate::key::{Key, KeyId};
use crate::keymap::{KeyMap, lemma_value_at};
use crate::support::{instant_now, nanos_since, arc_clone};
use crate::time::Duration;

verus! {

/// Cache configuration.
#[derive(Debug, Clone, Copy)]
pub struct CacheConfig {
    /// Maximum number of cached entries
    pub max_entries: usize,
    /// Time-to-live for cache entries (None = no expiration)
    pub ttl: Option<Duration>,
    /// Enable LRU eviction when cache is full
    pub enable_lru: bool,
    /// Enable access count tracking
    pub track_access_count: bool,
}

impl Default for CacheConfig {
    /// 1000 entries, five minutes to live, LRU eviction and access counting on.
    fn default() -> (c: CacheConfig)
        ensures
            c.max_entries == 1000,
            c.ttl matches Some(t) && t.total_nanos() == 300 * 1_000_000_000,
            c.enable_lru,
            c.track_access_count,
    {
        CacheConfig {
            max_entries: 1000,
            ttl: Some(Duration::from_secs(300)),
            enable_lru: true,
            track_access_count: true,
        }
    }
}

/// Cache hit, miss and eviction counts.
#[derive(Debug, Clone, Copy, PartialEq, Eq, Structural)]
pub struct CacheStats {
    /// Total cache hit count
    pub hits: u64,
    /// Total cache miss count
    pub misses: u64,
    /// Total evictions due to TTL expiration
    pub ttl_evictions: u64,
    /// Total evictions due to LRU
    pub lru_evictions: u64,
}

impl Default for CacheStats {
    fn default() -> (s: CacheStats)
        ensures
            s == (CacheStats { hits: 0, misses: 0, ttl_evictions: 0, lru_evictions: 0 }),
    {
        CacheStats { hits: 0, misses: 0, ttl_evictions: 0, lru_evictions: 0 }
    }
}

/// A cached instance with its creation and last access times (nanoseconds on the cache's
/// clock) and its access count.
pub struct CacheEntry<V> {
    pub service: V,
    pub created_at: u128,
    pub access_count: u64,
    pub last_accessed: u128,
}

/// The entry a put stores: the service, created and last used at `now`, never accessed.
pub open spec fn fresh_entry<V>(service: V, now: u128) -> CacheEntry<V> {
    CacheEntry { service, created_at: now, access_count: 0, last_accessed: now }
}

/// Time elapsed on the cache's clock from `from` to `now` (zero if the clock reads earlier).
pub open spec fn elapsed_between(from: u128, now: u128) -> int {
    if now > from {
        now - from
    } else {
        0
    }
}

/// Whether an entry has outlived the time-to-live at time `now`.
pub open spec fn expired(ttl: Option<Duration>, created_at: u128, now: u128) -> bool {
    match ttl {
        Some(t) => elapsed_between(created_at, now) > t.total_nanos(),
        None => false,
    }
}

/// Whether `victim` is a least recently used entry.
pub open spec fn lru_victim<V>(entries: Map<KeyId, CacheEntry<V>>, victim: KeyId) -> bool {
    &&& entries.contains_key(victim)
    &&& forall|id: KeyId| #[trigger] entries.contains_key(id) ==> entries[id].last_accessed >= entries[victim].last_accessed
}

/// Service resolution cache for frequently accessed services.
pub struct ResolutionCache<V> {
    cache: KeyMap<CacheEntry<V>>,
    config: CacheConfig,
    stats: CacheStats,
    origin: Instant,
}

impl<V: Clone> ResolutionCache<V> {
    /// The cached entries, by key identity.
    pub closed spec fn entries(&self) -> Map<KeyId, CacheEntry<V>> {
        self.cache.view()
    }

    /// The number of cached entries.
    pub closed spec fn count(&self) -> nat {
        self.cache.entries().len()
    }

    /// The configuration.
    pub closed spec fn config(&self) -> CacheConfig {
        self.config
    }

    /// The statistics.
    pub closed spec fn statistics(&self) -> CacheStats {
        self.stats
    }

    /// Internal consistency.
    pub closed spec fn wf(&self) -> bool {
        self.cache.wf()
    }

    /// Create a new resolution cache with default configuration.
    pub fn new() -> (c: ResolutionCache<V>)
        ensures
            c.wf(),
            c.count() == 0,
            c.entries() == Map::<KeyId, CacheEntry<V>>::empty(),
            c.config().max_entries == 1000,
            c.config().enable_lru,
            c.config().track_access_count,
            c.statistics() == (CacheStats { hits: 0, misses: 0, ttl_evictions: 0, lru_evictions: 0 }),
    {
        Self::with_config(CacheConfig::default())
    }

    /// Create a new resolution cache with custom configuration.
    pub fn with_config(config: CacheConfig) -> (c: ResolutionCache<V>)
        ensures
            c.wf(),
            c.count() == 0,
            c.entries() == Map::<KeyId, CacheEntry<V>>::empty(),
            c.config() == config,
            c.statistics() == (CacheStats { hits: 0, misses: 0, ttl_evictions: 0, lru_evictions: 0 }),
    {
        ResolutionCache { cache: KeyMap::new(), config, stats: CacheStats::default(), origin: instant_now() }
    }

    /// Get a service from the cache, reading the clock for expiry and access tracking: a
    /// missing key is a miss; a cached entry is either found (a hit, as `get_at`) or, when
    /// the clock shows it expired, dropped and counted as a miss. Without a time-to-live a
    /// cached entry is always found.
    pub fn get(&mut self, key: &Key) -> (r: Option<V>)
        requires
            old(self).wf(),
            old(self).statistics().hits < u64::MAX,
            old(self).statistics().misses < u64::MAX,
            old(self).statistics().ttl_evictions < u64::MAX,
            old(self).entries().contains_key(key.id()) ==> old(self).entries()[key.id()].access_count < u64::MAX,
        ensures
            final(self).wf(),
            final(self).config() == old(self).config(),
            !old(self).entries().contains_key(key.id()) ==> {
                &&& r is None
                &&& final(self).entries() == old(self).entries()
                &&& final(self).statistics() == (CacheStats { misses: (old(self).statistics().misses + 1) as u64, ..old(self).statistics() })
            },
            old(self).entries().contains_key(key.id()) && old(self).config().ttl is None ==> r is Some,
            old(self).entries().contains_key(key.id()) && r is None ==> {
                &&& final(self).entries() == old(self).entries().remove(key.id())
                &&& final(self).statistics() == (CacheStats {
                    misses: (old(self).statistics().misses + 1) as u64,
                    ttl_evictions: (old(self).statistics().ttl_evictions + 1) as u64,
                    ..old(self).statistics()
                })
            },
            r matches Some(v) ==> {
                let e = old(self).entries()[key.id()];
                &&& old(self).entries().contains_key(key.id())
                &&& cloned::<V>(e.service, v)
                &&& final(self).entries().dom() == old(self).entries().dom()
                &&& forall|id: KeyId| id != key.id() && #[trigger] old(self).entries().contains_key(id)
                    ==> final(self).entries()[id] == old(self).entries()[id]
                &&& final(self).entries()[key.id()].service == e.service
                &&& final(self).entries()[key.id()].created_at == e.created_at
                &&& final(self).entries()[key.id()].access_count == if old(self).config().track_access_count {
                    (e.access_count + 1) as u64
                } else {
                    e.access_count
                }
                &&& !old(self).config().track_access_count ==> final(self).entries()[key.id()].last_accessed
                    == e.last_accessed
                &&& final(self).statistics() == (CacheStats { hits: (old(self).statistics().hits + 1) as u64, ..old(self).statistics() })
            },
    {
        let now = nanos_since(&self.origin);
        self.get_at(key, now)
    }

    /// Look up `key` at time `now` on the cache's clock: a missing or expired entry is a
    /// miss (an expired one is dropped and counted); otherwise a hit, which records the
    /// access when access counting is on, and hands out a clone of the instance.
    pub fn get_at(&mut self, key: &Key, now: u128) -> (r: Option<V>)
        requires
            old(self).wf(),
            old(self).statistics().hits < u64::MAX,
            old(self).statistics().misses < u64::MAX,
            old(self).statistics().ttl_evictions < u64::MAX,
            old(self).entries().contains_key(key.id()) ==> old(self).entries()[key.id()].access_count < u64::MAX,
        ensures
            final(self).wf(),
            final(self).config() == old(self).config(),
            !old(self).entries().contains_key(key.id()) ==> {
                &&& r is None
                &&& final(self).entries() == old(self).entries()
                &&& final(self).count() == old(self).count()
                &&& final(self).statistics() == (CacheStats { misses: (old(self).statistics().misses + 1) as u64, ..old(self).statistics() })
            },
            old(self).entries().contains_key(key.id()) && expired(old(self).config().ttl, old(self).entries()[key.id()].created_at, now) ==> {
                &&& r is None
                &&& final(self).entries() == old(self).entries().remove(key.id())
                &&& final(self).count() == old(self).count() - 1
                &&& final(self).statistics() == (CacheStats {
                    misses: (old(self).statistics().misses + 1) as u64,
                    ttl_evictions: (old(self).statistics().ttl_evictions + 1) as u64,
                    ..old(self).statistics()
                })
            },
            old(self).entries().contains_key(key.id()) && !expired(old(self).config().ttl, old(self).entries()[key.id()].created_at, now) ==> {
                let e = old(self).entries()[key.id()];
                &&& r matches Some(v) && cloned::<V>(e.service, v)
                &&& final(self).count() == old(self).count()
                &&& final(self).entries().dom() == old(self).entries().dom()
                &&& forall|id: KeyId| id != key.id() && #[trigger] old(self).entries().contains_key(id)
                    ==> final(self).entries()[id] == old(self).entries()[id]
                &&& final(self).entries()[key.id()].service == e.service
                &&& final(self).entries()[key.id()].created_at == e.created_at
                &&& final(self).entries()[key.id()].access_count == if old(self).config().track_access_count {
                    (e.access_count + 1) as u64
                } else {
                    e.access_count
                }
                &&& final(self).entries()[key.id()].last_accessed == if old(self).config().track_access_count {
                    now
                } else {
                    e.last_accessed
                }
                &&& final(self).statistics() == (CacheStats { hits: (old(self).statistics().hits + 1) as u64, ..old(self).statistics() })
            },
    {
        match self.cache.index_of(key) {
            None => {
                self.stats.misses = self.stats.misses + 1;
                None
            },
            Some(i) => {
                proof {
                    lemma_value_at(self.cache.entries(), i as int);
                }
                let (_, entry) = self.cache.entry_at(i);
                let created = entry.created_at;
                let is_expired = match self.config.ttl {
                    Some(ttl) => {
                        let elapsed: u128 = if now > created { now - created } else { 0 };
                        elapsed > ttl.as_nanos()
                    },
                    None => false,
                };
                if is_expired {
                    let _ = self.cache.remove_at(i);
                    self.stats.ttl_evictions = self.stats.ttl_evictions + 1;
                    self.stats.misses = self.stats.misses + 1;
                    return None;
                }
                let track = self.config.track_access_count;
                let ghost before = self.cache.entries();
                let slot = self.cache.value_at_mut(i);
                if track {
                    slot.access_count = slot.access_count + 1;
                    slot.last_accessed = now;
                }
                let service = slot.service.clone();
                proof {
                    crate::keymap::lemma_update(before, i as int, before[i as int].0, self.cache.entries()[i as int].1);
                }
                self.stats.hits = self.stats.hits + 1;
                Some(service)
            },
        }
    }

    /// What a put of `service` under `key` at time `now` does, taking the cache from `old`
    /// to `new` with result `r`: when the cache is full and LRU eviction is off, it fails
    /// with `Cache capacity exceeded` and nothing changes; otherwise, when full, a least
    /// recently used entry is evicted first (counted as an LRU eviction), and the fresh
    /// entry is stored under the key.
    pub open spec fn put_outcome(old: Self, new: Self, key: Key, service: V, now: u128, r: DiResult<()>) -> bool {
        &&& new.wf()
        &&& new.config() == old.config()
        &&& (r is Err <==> old.count() >= old.config().max_entries && !old.config().enable_lru)
        &&& (r matches Err(e) ==> e == DiError::TypeMismatch("Cache capacity exceeded"))
        &&& (r is Err ==> new.entries() == old.entries() && new.statistics() == old.statistics()
            && new.count() == old.count())
        &&& (r is Ok && old.count() < old.config().max_entries ==> {
            &&& new.entries() == old.entries().insert(key.id(), fresh_entry(service, now))
            &&& new.statistics() == old.statistics()
            &&& new.count() == old.count() + if old.entries().contains_key(key.id()) { 0int } else { 1int }
        })
        &&& (r is Ok && old.count() >= old.config().max_entries && old.count() > 0 ==> exists|victim: KeyId| {
            &&& lru_victim(old.entries(), victim)
            &&& new.entries() == old.entries().remove(victim).insert(key.id(), fresh_entry(service, now))
            &&& new.statistics() == (CacheStats {
                lru_evictions: (old.statistics().lru_evictions + 1) as u64,
                ..old.statistics()
            })
            &&& new.count() == old.count() - 1 + if old.entries().remove(victim).contains_key(key.id()) {
                0int
            } else {
                1int
            }
        })
        &&& (r is Ok && old.count() >= old.config().max_entries && old.count() == 0 ==> {
            &&& new.statistics() == old.statistics()
            &&& new.entries() == old.entries().insert(key.id(), fresh_entry(service, now))
            &&& new.count() == 1
        })
    }

    /// Put a service into the cache, reading the clock for its timestamps: a put at the
    /// time read (see `put_at`).
    pub fn put(&mut self, key: Key, service: V) -> (r: DiResult<()>)
        requires
            old(self).wf(),
            old(self).statistics().lru_evictions < u64::MAX,
        ensures
            exists|now: u128| #[trigger] Self::put_outcome(*old(self), *final(self), key, service, now, r),
    {
        let now = nanos_since(&self.origin);
        let r = self.put_at(key, service, now);
        assert(Self::put_outcome(*old(self), *self, key, service, now, r));
        r
    }

    /// Put a service into the cache at time `now`: when the cache is full, the least
    /// recently used entry is evicted first if LRU eviction is on, otherwise the cache is
    /// left alone and the call fails; the new entry starts with no accesses.
    pub fn put_at(&mut self, key: Key, service: V, now: u128) -> (r: DiResult<()>)
        requires
            old(self).wf(),
            old(self).statistics().lru_evictions < u64::MAX,
        ensures
            Self::put_outcome(*old(self), *final(self), key, service, now, r),
    {
        if self.cache.len() >= self.config.max_entries {
            if self.config.enable_lru {
                self.evict_lru();
            } else {
                return Err(DiError::TypeMismatch("Cache capacity exceeded"));
            }
        }
        let ghost mid = self.entries();
        let ghost mid_stats = self.statistics();
        let entry = CacheEntry { service, created_at: now, access_count: 0, last_accessed: now };
        self.cache.insert(key, entry);
        proof {
            if old(self).count() >= old(self).config().max_entries && old(self).count() > 0 {
                let v = choose|v: KeyId| {
                    &&& lru_victim(old(self).entries(), v)
                    &&& mid == old(self).entries().remove(v)
                    &&& mid_stats == (CacheStats {
                        lru_evictions: (old(self).statistics().lru_evictions + 1) as u64,
                        ..old(self).statistics()
                    })
                };
                assert(self.entries() == old(self).entries().remove(v).insert(key.id(), entry));
            }
        }
        Ok(())
    }

    /// Evict the least recently used entry (the first such in insertion order), if any.
    fn evict_lru(&mut self)
        requires
            old(self).wf(),
            old(self).statistics().lru_evictions < u64::MAX,
        ensures
            final(self).wf(),
            final(self).config() == old(self).config(),
            old(self).count() == 0 ==> final(self).entries() == old(self).entries() && final(self).statistics()
                == old(self).statistics() && final(self).count() == 0,
            old(self).count() > 0 ==> exists|victim: KeyId| {
                &&& lru_victim(old(self).entries(), victim)
                &&& final(self).entries() == old(self).entries().remove(victim)
                &&& final(self).count() == old(self).count() - 1
                &&& final(self).statistics() == (CacheStats {
                    lru_evictions: (old(self).statistics().lru_evictions + 1) as u64,
                    ..old(self).statistics()
                })
            },
    {
        let n = self.cache.len();
        if n == 0 {
            return;
        }
        let mut best: usize = 0;
        let mut i: usize = 1;
        while i < n
            invariant
                n == self.cache.entries().len(),
                0 <= best < i <= n,
                forall|j: int| 0 <= j < i ==> (#[trigger] self.cache.entries()[j]).1.last_accessed
                    >= self.cache.entries()[best as int].1.last_accessed,
            decreases n - i,
        {
            let (_, e) = self.cache.entry_at(i);
            let (_, b) = self.cache.entry_at(best);
            if e.last_accessed < b.last_accessed {
                best = i;
            }
            i = i + 1;
        }
        let ghost es = self.cache.entries();
        proof {
            lemma_value_at(es, best as int);
            assert forall|id: KeyId| #[trigger] self.cache.view().contains_key(id) implies self.cache.view()[id].last_accessed
                >= self.cache.view()[es[best as int].0.id()].last_accessed by {
                let j = choose|j: int| 0 <= j < es.len() && #[trigger] es[j].0.id() == id;
                lemma_value_at(es, j);
            }
        }
        let ghost victim = es[best as int].0.id();
        let _ = self.cache.remove_at(best);
        self.stats.lru_evictions = self.stats.lru_evictions + 1;
        assert(lru_victim(old(self).entries(), victim));
        assert(self.entries() == old(self).entries().remove(victim));
    }

    /// Clear all cached entries.
    pub fn clear(&mut self)
        requires
            old(self).wf(),
        ensures
            final(self).wf(),
            final(self).count() == 0,
            final(self).entries() == Map::<KeyId, CacheEntry<V>>::empty(),
            final(self).statistics() == old(self).statistics(),
            final(self).config() == old(self).config(),
    {
        self.cache.clear();
    }

    /// Get cache statistics.
    pub fn stats(&self) -> (r: CacheStats)
        ensures
            r == self.statistics(),
    {
        self.stats
    }

    /// Get current cache size.
    pub fn size(&self) -> (r: usize)
        ensures
            r == self.count(),
    {
        self.cache.len()
    }
}

/// Pool of reusable instances, made by a factory when the pool is empty.
#[verifier::reject_recursive_types(T)]
pub struct ServicePool<T, F: Fn() -> T> {
    pool: Vec<T>,
    factory: F,
    max_size: usize,
}

impl<T, F: Fn() -> T> ServicePool<T, F> {
    /// The factory can always be called.
    pub closed spec fn wf(&self) -> bool {
        self.factory.requires(())
    }

    /// The pooled instances, oldest first.
    pub closed spec fn pooled(&self) -> Seq<T> {
        self.pool@
    }

    /// The most instances the pool keeps.
    pub closed spec fn capacity(&self) -> nat {
        self.max_size as nat
    }

    /// The factory.
    pub closed spec fn spec_factory(&self) -> F {
        self.factory
    }

    /// Create a new, empty service pool with a factory function.
    pub fn new(factory: F, max_size: usize) -> (p: ServicePool<T, F>)
        requires
            factory.requires(()),
        ensures
            p.wf(),
            p.pooled().len() == 0,
            p.capacity() == max_size,
            p.spec_factory() == factory,
    {
        ServicePool { pool: Vec::new(), factory, max_size }
    }

    /// Get an instance: the most recently returned one, or a new one from the factory when
    /// the pool is empty.
    pub fn get(&mut self) -> (r: T)
        requires
            old(self).wf(),
        ensures
            final(self).wf(),
            final(self).capacity() == old(self).capacity(),
            final(self).spec_factory() == old(self).spec_factory(),
            old(self).pooled().len() > 0 ==> r == old(self).pooled().last() && final(self).pooled()
                == old(self).pooled().drop_last(),
            old(self).pooled().len() == 0 ==> old(self).spec_factory().ensures((), r) && final(self).pooled()
                == old(self).pooled(),
    {
        match self.pool.pop() {
            Some(instance) => instance,
            None => (self.factory)(),
        }
    }

    /// Return an instance for reuse; it is dropped when the pool is full.
    pub fn put(&mut self, instance: T)
        ensures
            final(self).wf() == old(self).wf(),
            final(self).capacity() == old(self).capacity(),
            final(self).spec_factory() == old(self).spec_factory(),
            old(self).pooled().len() < old(self).capacity() ==> final(self).pooled() == old(self).pooled().push(instance),
            old(self).pooled().len() >= old(self).capacity() ==> final(self).pooled() == old(self).pooled(),
    {
        if self.pool.len() < self.max_size {
            self.pool.push(instance);
        }
    }

    /// Get current pool size.
    pub fn size(&self) -> (r: usize)
        ensures
            r == self.pooled().len(),
    {
        self.pool.len()
    }

    /// Drop every pooled instance.
    pub fn clear(&mut self)
        ensures
            final(self).wf() == old(self).wf(),
            final(self).pooled().len() == 0,
            final(self).capacity() == old(self).capacity(),
            final(self).spec_factory() == old(self).spec_factory(),
    {
        self.pool.clear();
    }
}

/// A service created on first access by its initialization function.
#[verifier::reject_recursive_types(T)]
pub struct LazyService<T, F: Fn() -> DiResult<T>> {
    value: Option<Arc<T>>,
    init: F,
}

impl<T, F: Fn() -> DiResult<T>> LazyService<T, F> {
    /// The initialization function can always be called.
    pub closed spec fn wf(&self) -> bool {
        self.init.requires(())
    }

    /// The instance, once created.
    pub closed spec fn instance(&self) -> Option<Arc<T>> {
        self.value
    }

    /// The initialization function.
    pub closed spec fn initializer(&self) -> F {
        self.init
    }

    /// Create a new lazy service with an initialization function.
    pub fn new(init: F) -> (l: LazyService<T, F>)
        requires
            init.requires(()),
        ensures
            l.wf(),
            l.instance() is None,
            l.initializer() == init,
    {
        LazyService { value: None, init }
    }

    /// Get the instance, creating it on first access; a failed initialization is reported
    /// and leaves the service uninitialized, to be tried again.
    pub fn get(&mut self) -> (r: DiResult<Arc<T>>)
        requires
            old(self).wf(),
        ensures
            final(self).wf(),
            final(self).initializer() == old(self).initializer(),
            old(self).instance() matches Some(v) ==> r == Ok::<Arc<T>, DiError>(v) && final(self).instance()
                == old(self).instance(),
            old(self).instance() is None ==> exists|outcome: DiResult<T>|
                #![trigger old(self).initializer().ensures((), outcome)]
            {
                &&& old(self).initializer().ensures((), outcome)
                &&& match outcome {
                    Ok(t) => r matches Ok(v) && *v == t && final(self).instance() == Some(v),
                    Err(e) => r == Err::<Arc<T>, DiError>(e) && final(self).instance() is None,
                }
            },
    {
        let existing: Option<Arc<T>> = match &self.value {
            Some(service) => Some(arc_clone(service)),
            None => None,
        };
        match existing {
            Some(service) => Ok(service),
            None => {
                let outcome = (self.init)();
                let ghost g = outcome;
                match outcome {
                    Ok(service) => {
                        let service_arc = Arc::new(service);
                        self.value = Some(arc_clone(&service_arc));
                        proof {
                            assert(old(self).initializer().ensures((), g));
                        }
                        Ok(service_arc)
                    },
                    Err(e) => {
                        proof {
                            assert(old(self).initializer().ensures((), g));
                        }
                        Err(e)
                    },
                }
            },
        }
    }

    /// Check if the service has been initialized.
    pub fn is_initialized(&self) -> (r: bool)
        ensures
            r == self.instance() is Some,
    {
        self.value.is_some()
    }
}

/// A planned order of resolution.
#[derive(Debug, Clone)]
pub struct ResolutionPath {
    /// Ordered list of services to resolve
    pub steps: Vec<Key>,
    /// Estimated resolution cost
    pub cost: u32,
    /// Path depth (number of dependencies)
    pub depth: usize,
}

/// The resolution order of a list of dependencies: the dependencies as given.
pub fn compute_optimal_order(dependencies: &[Key]) -> (r: DiResult<Vec<Key>>)
    ensures
        r matches Ok(v) && v@ == dependencies@,
{
    let mut out: Vec<Key> = Vec::new();
    let mut i: usize = 0;
    while i < dependencies.len()
        invariant
            0 <= i <= dependencies@.len(),
            out@ == dependencies@.take(i as int),
        decreases dependencies@.len() - i,
    {
        out.push(dependencies[i]);
        proof {
            assert(out@ =~= dependencies@.take(i + 1));
        }
        i = i + 1;
    }
    proof {
        assert(dependencies@.take(dependencies@.len() as int) =~= dependencies@);
    }
    Ok(out)
}

/// The path that resolves the dependencies in order: ten cost units per step (the step
/// count taken as a 32-bit number), one level of depth per step.
pub fn plan_path(dependencies: &[Key]) -> (r: DiResult<ResolutionPath>)
    requires
        (dependencies@.len() as u32) * 10 <= u32::MAX,
    ensures
        r matches Ok(p) && p.steps@ == dependencies@ && p.depth == dependencies@.len() && p.cost
            == (dependencies@.len() as u32) * 10,
{
    let steps = match compute_optimal_order(dependencies) {
        Ok(s) => s,
        Err(e) => return Err(e),
    };
    let n = steps.len();
    let cost = (n as u32) * 10;
    Ok(ResolutionPath { steps, cost, depth: n })
}

impl ResolutionPath {
    /// A copy of the path.
    pub fn duplicate(&self) -> (r: ResolutionPath)
        ensures
            r.steps@ == self.steps@,
            r.cost == self.cost,
            r.depth == self.depth,
    {
        let mut steps: Vec<Key> = Vec::new();
        let mut i: usize = 0;
        while i < self.steps.len()
            invariant
                0 <= i <= self.steps@.len(),
                steps@ == self.steps@.take(i as int),
            decreases self.steps@.len() - i,
        {
            steps.push(self.steps[i]);
            proof {
                assert(steps@ =~= self.steps@.take(i + 1));
            }
            i = i + 1;
        }
        proof {
            assert(self.steps@.take(self.steps@.len() as int) =~= self.steps@);
        }
        ResolutionPath { steps, cost: self.cost, depth: self.depth }
    }
}

/// Statistics of the optimizer. The average depth is `total_depth` over `paths_analyzed`.
#[derive(Debug, Clone, Copy)]
pub struct GraphStats {
    /// Total paths analyzed
    pub paths_analyzed: u64,
    /// Total paths optimized
    pub paths_optimized: u64,
    /// Sum of the depths of the analyzed paths
    pub total_depth: u128,
    /// Maximum path depth found
    pub max_depth: usize,
}

/// Resolution paths by root key, each computed once, with statistics.
pub struct DependencyGraphOptimizer {
    paths: KeyMap<ResolutionPath>,
    stats: GraphStats,
}

/// The path kept for a root: same steps, cost and depth.
pub open spec fn same_path(a: ResolutionPath, b: ResolutionPath) -> bool {
    a.steps@ == b.steps@ && a.cost == b.cost && a.depth == b.depth
}

impl DependencyGraphOptimizer {
    /// The paths computed so far, by root key.
    pub closed spec fn paths(&self) -> Map<KeyId, ResolutionPath> {
        self.paths.view()
    }

    /// The statistics so far.
    pub closed spec fn statistics(&self) -> GraphStats {
        self.stats
    }

    /// Internal consistency: the path map is sound, every analyzed path was optimized, and
    /// the depth total is at most one `usize` per analyzed path.
    pub closed spec fn wf(&self) -> bool {
        &&& self.paths.wf()
        &&& self.stats.paths_optimized == self.stats.paths_analyzed
        &&& self.stats.total_depth <= self.stats.paths_analyzed * (usize::MAX as int)
    }

    /// Create a new dependency graph optimizer.
    pub fn new() -> (o: DependencyGraphOptimizer)
        ensures
            o.wf(),
            o.paths() == Map::<KeyId, ResolutionPath>::empty(),
            o.statistics() == (GraphStats { paths_analyzed: 0, paths_optimized: 0, total_depth: 0, max_depth: 0 }),
    {
        DependencyGraphOptimizer {
            paths: KeyMap::new(),
            stats: GraphStats { paths_analyzed: 0, paths_optimized: 0, total_depth: 0, max_depth: 0 },
        }
    }

    /// The resolution path of `root_key`: the one computed before for it, if any (nothing
    /// changes then); otherwise the path of `dependencies`, which is kept for the root and
    /// counted in the statistics.
    pub fn optimize_path(&mut self, root_key: &Key, dependencies: &[Key]) -> (r: DiResult<ResolutionPath>)
        requires
            old(self).wf(),
            (dependencies@.len() as u32) * 10 <= u32::MAX,
            old(self).statistics().paths_analyzed < u64::MAX,
        ensures
            final(self).wf(),
            old(self).paths().contains_key(root_key.id()) ==> {
                &&& r matches Ok(p) && same_path(p, old(self).paths()[root_key.id()])
                &&& final(self).paths() == old(self).paths()
                &&& final(self).statistics() == old(self).statistics()
            },
            !old(self).paths().contains_key(root_key.id()) ==> {
                &&& r matches Ok(p) && p.steps@ == dependencies@ && p.depth == dependencies@.len()
                    && p.cost == (dependencies@.len() as u32) * 10
                &&& final(self).paths().dom() == old(self).paths().dom().insert(root_key.id())
                &&& same_path(final(self).paths()[root_key.id()], r->Ok_0)
                &&& forall|id: KeyId| id != root_key.id() && #[trigger] old(self).paths().contains_key(id)
                    ==> final(self).paths()[id] == old(self).paths()[id]
                &&& final(self).statistics() == (GraphStats {
                    paths_analyzed: (old(self).statistics().paths_analyzed + 1) as u64,
                    paths_optimized: (old(self).statistics().paths_optimized + 1) as u64,
                    total_depth: (old(self).statistics().total_depth + dependencies@.len()) as u128,
                    max_depth: if dependencies@.len() > old(self).statistics().max_depth {
                        dependencies@.len() as usize
                    } else {
                        old(self).statistics().max_depth
                    },
                })
            },
    {
        match self.paths.get(root_key) {
            Some(cached) => {
                return Ok(cached.duplicate());
            },
            None => {},
        }
        let path = match plan_path(dependencies) {
            Ok(p) => p,
            Err(e) => return Err(e),
        };
        let kept = path.duplicate();
        let ghost before = self.paths.view();
        self.paths.insert(*root_key, kept);
        proof {
            assert(self.paths.view().dom() =~= before.dom().insert(root_key.id()));
        }
        let depth = path.depth;
        proof {
            let a = self.stats.paths_analyzed as int;
            let m = usize::MAX as int;
            assert(a * m + m == (a + 1) * m) by (nonlinear_arith);
            assert(a * m <= (u64::MAX as int) * m) by (nonlinear_arith)
                requires
                    a <= u64::MAX,
                    0 <= m,
            ;
            assert((u64::MAX as int) * m + m <= u128::MAX) by (nonlinear_arith)
                requires
                    m <= u64::MAX,
            ;
        }
        self.stats.paths_analyzed = self.stats.paths_analyzed + 1;
        self.stats.paths_optimized = self.stats.paths_optimized + 1;
        self.stats.total_depth = self.stats.total_depth + depth as u128;
        if depth > self.stats.max_depth {
            self.stats.max_depth = depth;
        }
        Ok(path)
    }

    /// Get optimization statistics.
    pub fn stats(&self) -> (r: GraphStats)
        ensures
            r == self.statistics(),
    {
        self.stats
    }

    /// Forgets the computed paths; the statistics stay.
    pub fn clear(&mut self)
        requires
            old(self).wf(),
        ensures
            final(self).wf(),
            final(self).paths() == Map::<KeyId, ResolutionPath>::empty(),
            final(self).statistics() == old(self).statistics(),
    {
        self.paths = KeyMap::new();
    }
}

/// What a lookup finds after a put of `service` at `put_time`: the entry is there with that
/// service, and it counts as expired at `get_time` exactly when a time-to-live is set and
/// more than that time has passed since the put.
pub proof fn law_put_then_get<V>(
    entries: Map<KeyId, CacheEntry<V>>,
    id: KeyId,
    service: V,
    put_time: u128,
    get_time: u128,
    ttl: Option<Duration>,
)
    ensures
        entries.insert(id, fresh_entry(service, put_time)).contains_key(id),
        entries.insert(id, fresh_entry(service, put_time))[id].service == service,
        expired(ttl, entries.insert(id, fresh_entry(service, put_time))[id].created_at, get_time)
            == match ttl {
            Some(t) => get_time > put_time && get_time - put_time > t.total_nanos(),
            None => false,
        },
{
    let e = entries.insert(id, fresh_entry(service, put_time))[id];
    assert(e.created_at == put_time);
    if let Some(t) = ttl {
        t.lemma_nonnegative();
    }
}

/// An instance returned to a pool with room is the next one handed out, and the pool is
/// then as it was.
pub proof fn law_pool_put_then_get<T>(pooled: Seq<T>, capacity: nat, instance: T)
    requires
        pooled.len() < capacity,
    ensures
        pooled.push(instance).len() > 0,
        pooled.push(instance).last() == instance,
        pooled.push(instance).drop_last() == pooled,
{
    assert(pooled.push(instance).drop_last() =~= pooled);
}

} // verus!
