//! Fast-path singleton cache: one instance per key, created by the first caller's factory.
use vstd::prelude::*;
use crate::key::{Key, KeyId};
use crate::keymap::{KeyMap, lemma_value_at};

verus! {

/// Cache of singleton instances by key.
pub struct FastSingletonCache<V> {
    cells: KeyMap<V>,
}

impl<V: Clone> FastSingletonCache<V> {
    /// The cached instances, by key identity.
    pub closed spec fn instances(&self) -> Map<KeyId, V> {
        self.cells.view()
    }

    /// The number of cached instances.
    pub closed spec fn count(&self) -> nat {
        self.cells.entries().len()
    }

    /// Internal consistency.
    pub closed spec fn wf(&self) -> bool {
        self.cells.wf()
    }

    /// An empty cache.
    pub fn new() -> (c: FastSingletonCache<V>)
        ensures
            c.wf(),
            c.instances() == Map::<KeyId, V>::empty(),
            c.count() == 0,
    {
        FastSingletonCache { cells: KeyMap::new() }
    }

    /// The instance for `key`: the cached one if there is one (the factory is then not
    /// used), otherwise the factory's, which is cached.
    pub fn get_or_init<F: FnOnce() -> V>(&mut self, key: &Key, factory: F) -> (r: V)
        requires
            old(self).wf(),
            factory.requires(()),
        ensures
            final(self).wf(),
            old(self).instances().contains_key(key.id()) ==> final(self).instances() == old(self).instances()
                && cloned::<V>(old(self).instances()[key.id()], r) && final(self).count() == old(self).count(),
            !old(self).instances().contains_key(key.id()) ==> factory.ensures((), r) && final(self).instances().dom()
                == old(self).instances().dom().insert(key.id()) && cloned::<V>(r, final(self).instances()[key.id()])
                && (forall|id: KeyId| id != key.id() && #[trigger] old(self).instances().contains_key(id)
                    ==> final(self).instances()[id] == old(self).instances()[id])
                && final(self).count() == old(self).count() + 1,
    {
        match self.cells.get(key) {
            Some(value) => value.clone(),
            None => {
                let value = factory();
                let stored = value.clone();
                let ghost before = self.cells.view();
                self.cells.insert(*key, stored);
                proof {
                    assert(self.cells.view().dom() =~= before.dom().insert(key.id()));
                }
                value
            },
        }
    }

    /// The cached instance for `key`, if any.
    pub fn get(&self, key: &Key) -> (r: Option<V>)
        requires
            self.wf(),
        ensures
            r is None <==> !self.instances().contains_key(key.id()),
            r matches Some(v) ==> cloned::<V>(self.instances()[key.id()], v),
    {
        match self.cells.get(key) {
            Some(value) => Some(value.clone()),
            None => None,
        }
    }

    /// Drop every cached instance.
    pub fn clear(&mut self)
        ensures
            final(self).wf(),
            final(self).instances() == Map::<KeyId, V>::empty(),
            final(self).count() == 0,
    {
        self.cells.clear();
    }

    /// The number of cached instances.
    pub fn len(&self) -> (r: usize)
        ensures
            r == self.count(),
    {
        self.cells.len()
    }

    /// Whether nothing is cached.
    pub fn is_empty(&self) -> (r: bool)
        ensures
            r == (self.count() == 0),
    {
        self.len() == 0
    }
}

/// Access counts of the singleton fast path.
#[derive(Debug, Clone, Copy)]
pub struct FastSingletonMetrics {
    pub total_accesses: u64,
    pub cache_hits: u64,
    pub cache_misses: u64,
    pub concurrent_avoidances: u64,
}

impl FastSingletonMetrics {
    /// Healthy when more than 90% of accesses hit the cache (compared exactly:
    /// `hits / total > 9 / 10`; no accesses is not healthy).
    pub fn is_healthy(&self) -> (r: bool)
        ensures
            r == (self.total_accesses > 0 && 10 * self.cache_hits > 9 * self.total_accesses),
    {
        if self.total_accesses == 0 {
            false
        } else {
            10 * (self.cache_hits as u128) > 9 * (self.total_accesses as u128)
        }
    }
}

/// Once a key has an instance, every later `get_or_init` for it finds that instance: the
/// instance stored by the first call stays through calls for other keys.
pub proof fn law_instance_kept<V>(instances: Map<KeyId, V>, id: KeyId, v: V, other: KeyId, w: V)
    requires
        other != id,
    ensures
        instances.insert(id, v).insert(other, w).contains_key(id),
        instances.insert(id, v).insert(other, w)[id] == v,
{
}

} // verus!
