//! Resolution rules: for a requested key, whether an instance is reused from a cache,
//! built by its factory (and where the new instance is kept), or refused with an error.
//!
//! Factories are user code; the caller runs them between `plan_*` and `store`.
use vstd::prelude::*;
use crate::key::{Key, KeyId};
use crate::keymap::KeyMap;
use crate::lifetime::Lifetime;
use crate::error::DiError;
use crate::registry::{Registry, Registration};

verus! {

/// Where a newly built instance is kept.
#[derive(Debug, Clone, Copy, PartialEq, Eq, Structural)]
pub enum CacheSlot {
    /// In the root provider's singleton cache (shared by every scope).
    Root,
    /// In the current scope's cache.
    Scope,
    /// Nowhere: every resolution builds a new instance.
    Uncached,
}

/// The decision for one resolution.
pub enum Plan<'a, V, F> {
    /// Reuse this cached instance.
    Cached(&'a V),
    /// Refuse with this error.
    Failed(DiError),
    /// Run this factory, then keep the instance in the given cache under the given key.
    Create(&'a F, CacheSlot, Key),
}

/// The decision for one resolution, by value.
pub enum Outcome<V> {
    Reuse(V),
    Fail(DiError),
    Build(CacheSlot, Key),
}

/// The message of the error for a scoped service requested from the root provider.
pub open spec fn scoped_from_root_msg() -> &'static str {
    "Cannot resolve scoped service from root provider"
}

/// The decision of a resolution.
pub open spec fn plan_outcome<V, F>(p: Plan<V, F>) -> Outcome<V> {
    match p {
        Plan::Cached(v) => Outcome::Reuse(*v),
        Plan::Failed(e) => Outcome::Fail(e),
        Plan::Create(_, slot, k) => Outcome::Build(slot, k),
    }
}

/// The decision for `key` given the registry, the root singleton cache and, inside a scope,
/// the scope's cache (`None` at the root).
///
/// - a single binding is resolved by its lifetime: singletons from the root cache, scoped
///   services from the scope cache (refused at the root), transients always built;
/// - an unbound trait key falls back to the last multi-binding of the trait, built afresh;
/// - anything else is not found.
pub open spec fn resolve_outcome<F, V>(
    reg: Registry<F>,
    root: Map<KeyId, V>,
    scope: Option<Map<KeyId, V>>,
    key: Key,
) -> Outcome<V> {
    if reg.singles().contains_key(key.id()) {
        match reg.singles()[key.id()].lifetime {
            Lifetime::Singleton => if root.contains_key(key.id()) {
                Outcome::Reuse(root[key.id()])
            } else {
                Outcome::Build(CacheSlot::Root, key)
            },
            Lifetime::Scoped => match scope {
                None => Outcome::Fail(DiError::WrongLifetime(scoped_from_root_msg())),
                Some(sc) => if sc.contains_key(key.id()) {
                    Outcome::Reuse(sc[key.id()])
                } else {
                    Outcome::Build(CacheSlot::Scope, key)
                },
            },
            Lifetime::Transient => Outcome::Build(CacheSlot::Uncached, key),
        }
    } else {
        match key {
            Key::Trait(name) => if reg.multi(name@).len() > 0 {
                Outcome::Build(CacheSlot::Uncached, key)
            } else {
                Outcome::Fail(DiError::NotFound(key.spec_display_name()))
            },
            _ => Outcome::Fail(DiError::NotFound(key.spec_display_name())),
        }
    }
}

/// The registration whose factory builds `key` (when the decision is to build).
pub open spec fn resolve_registration<F>(reg: Registry<F>, key: Key) -> Registration<F> {
    if reg.singles().contains_key(key.id()) {
        reg.singles()[key.id()]
    } else {
        match key {
            Key::Trait(name) => reg.multi(name@).last(),
            _ => arbitrary(),
        }
    }
}

/// The decision for the `i`-th multi-binding of trait `name`: singletons are kept in the
/// root cache under `MultiTrait(name, i)`, scoped ones in the scope's cache under the same
/// key (refused at the root), transients always built.
pub open spec fn many_outcome<F, V>(
    reg: Registry<F>,
    root: Map<KeyId, V>,
    scope: Option<Map<KeyId, V>>,
    name: &'static str,
    i: int,
) -> Outcome<V> {
    let mk = Key::MultiTrait(name, i as usize);
    match reg.multi(name@)[i].lifetime {
        Lifetime::Singleton => if root.contains_key(mk.id()) {
            Outcome::Reuse(root[mk.id()])
        } else {
            Outcome::Build(CacheSlot::Root, mk)
        },
        Lifetime::Scoped => match scope {
            None => Outcome::Fail(DiError::WrongLifetime(scoped_from_root_msg())),
            Some(sc) => if sc.contains_key(mk.id()) {
                Outcome::Reuse(sc[mk.id()])
            } else {
                Outcome::Build(CacheSlot::Scope, mk)
            },
        },
        Lifetime::Transient => Outcome::Build(CacheSlot::Uncached, mk),
    }
}

/// The cache after keeping `v` under `key`: an instance already there stays.
pub open spec fn stored<V>(cache: Map<KeyId, V>, key: Key, v: V) -> Map<KeyId, V> {
    if cache.contains_key(key.id()) {
        cache
    } else {
        cache.insert(key.id(), v)
    }
}

/// Decides how to resolve `key`; `scope` is the current scope's cache, `None` at the root.
pub fn plan_resolve<'a, F, V>(
    reg: &'a Registry<F>,
    root: &'a KeyMap<V>,
    scope: Option<&'a KeyMap<V>>,
    key: &Key,
) -> (p: Plan<'a, V, F>)
    requires
        reg.wf(),
        root.wf(),
        scope matches Some(s) ==> s.wf(),
    ensures
        plan_outcome(p) == resolve_outcome(
            *reg,
            root.view(),
            match scope {
                Some(s) => Some(s.view()),
                None => None,
            },
            *key,
        ),
        p matches Plan::Create(f, _, _) ==> *f == resolve_registration(*reg, *key).ctor,
{
    match reg.get(key) {
        Some(r) => match r.lifetime {
            Lifetime::Singleton => match root.get(key) {
                Some(v) => Plan::Cached(v),
                None => Plan::Create(&r.ctor, CacheSlot::Root, *key),
            },
            Lifetime::Scoped => match scope {
                None => Plan::Failed(
                    DiError::WrongLifetime("Cannot resolve scoped service from root provider"),
                ),
                Some(sc) => match sc.get(key) {
                    Some(v) => Plan::Cached(v),
                    None => Plan::Create(&r.ctor, CacheSlot::Scope, *key),
                },
            },
            Lifetime::Transient => Plan::Create(&r.ctor, CacheSlot::Uncached, *key),
        },
        None => match key {
            Key::Trait(name) => match reg.get_many(name) {
                Some(list) => {
                    if list.len() > 0 {
                        let last = &list[list.len() - 1];
                        Plan::Create(&last.ctor, CacheSlot::Uncached, *key)
                    } else {
                        Plan::Failed(DiError::NotFound(key.display_name()))
                    }
                },
                None => Plan::Failed(DiError::NotFound(key.display_name())),
            },
            _ => Plan::Failed(DiError::NotFound(key.display_name())),
        },
    }
}

/// The number of multi-bindings resolved for `key`: those of the trait for a trait key,
/// none for any other key.
pub fn many_count<F>(reg: &Registry<F>, key: &Key) -> (n: usize)
    requires
        reg.wf(),
    ensures
        n == match *key {
            Key::Trait(name) => reg.multi(name@).len(),
            _ => 0,
        },
{
    match key {
        Key::Trait(name) => match reg.get_many(name) {
            Some(list) => list.len(),
            None => 0,
        },
        _ => 0,
    }
}

/// Decides how to resolve the `i`-th multi-binding of trait `name`.
pub fn plan_many<'a, F, V>(
    reg: &'a Registry<F>,
    root: &'a KeyMap<V>,
    scope: Option<&'a KeyMap<V>>,
    name: &'static str,
    i: usize,
) -> (p: Plan<'a, V, F>)
    requires
        reg.wf(),
        root.wf(),
        scope matches Some(s) ==> s.wf(),
        i < reg.multi(name@).len(),
    ensures
        plan_outcome(p) == many_outcome(
            *reg,
            root.view(),
            match scope {
                Some(s) => Some(s.view()),
                None => None,
            },
            name,
            i as int,
        ),
        p matches Plan::Create(f, _, _) ==> *f == reg.multi(name@)[i as int].ctor,
{
    let list = match reg.get_many(name) {
        Some(list) => list,
        None => {
            proof {
                assert(false);
            }
            return Plan::Failed(DiError::NotFound(name));
        },
    };
    let r = &list[i];
    let mk = Key::MultiTrait(name, i);
    match r.lifetime {
        Lifetime::Singleton => match root.get(&mk) {
            Some(v) => Plan::Cached(v),
            None => Plan::Create(&r.ctor, CacheSlot::Root, mk),
        },
        Lifetime::Scoped => match scope {
            None => Plan::Failed(
                DiError::WrongLifetime("Cannot resolve scoped service from root provider"),
            ),
            Some(sc) => match sc.get(&mk) {
                Some(v) => Plan::Cached(v),
                None => Plan::Create(&r.ctor, CacheSlot::Scope, mk),
            },
        },
        Lifetime::Transient => Plan::Create(&r.ctor, CacheSlot::Uncached, mk),
    }
}

/// Keeps a newly built instance under `key`, unless an instance is already there (built
/// meanwhile by a nested or concurrent resolution), which then stays. Returns whether the
/// new instance was kept.
pub fn store<V>(cache: &mut KeyMap<V>, key: Key, v: V) -> (kept: bool)
    requires
        old(cache).wf(),
    ensures
        final(cache).wf(),
        final(cache).view() == stored(old(cache).view(), key, v),
        kept == !old(cache).view().contains_key(key.id()),
        final(cache).view().contains_key(key.id()),
{
    if cache.contains_key(&key) {
        false
    } else {
        cache.insert(key, v);
        true
    }
}

/// A singleton that was just built and stored is reused by the next resolution of its key,
/// from the root or from any scope.
pub proof fn law_singleton_built_once<F, V>(
    reg: Registry<F>,
    root: Map<KeyId, V>,
    scope: Option<Map<KeyId, V>>,
    later_scope: Option<Map<KeyId, V>>,
    key: Key,
    v: V,
)
    requires
        resolve_outcome(reg, root, scope, key) == Outcome::<V>::Build(CacheSlot::Root, key),
    ensures
        resolve_outcome(reg, stored(root, key, v), later_scope, key) == Outcome::Reuse(v),
{
}

/// A cached instance is never replaced: keeping any other instance leaves every earlier
/// decision to reuse unchanged.
pub proof fn law_cached_instance_stable<F, V>(
    reg: Registry<F>,
    root: Map<KeyId, V>,
    scope: Option<Map<KeyId, V>>,
    key: Key,
    v: V,
    other: Key,
    w: V,
)
    requires
        resolve_outcome(reg, root, scope, key) == Outcome::Reuse(v),
    ensures
        resolve_outcome(reg, stored(root, other, w), scope, key) == Outcome::Reuse(v),
        resolve_outcome(
            reg,
            root,
            match scope {
                Some(sc) => Some(stored(sc, other, w)),
                None => None,
            },
            key,
        ) == Outcome::Reuse(v),
{
}

/// A scoped service asked of the root provider is refused with a lifetime error.
pub proof fn law_scoped_refused_at_root<F, V>(reg: Registry<F>, root: Map<KeyId, V>, key: Key)
    requires
        reg.singles().contains_key(key.id()),
        reg.singles()[key.id()].lifetime == Lifetime::Scoped,
    ensures
        resolve_outcome(reg, root, None, key) == Outcome::<V>::Fail(
            DiError::WrongLifetime(scoped_from_root_msg()),
        ),
{
}

/// A scoped service is built once per scope: in a fresh scope it is built and kept in that
/// scope, and then reused there; another scope's cache plays no part.
pub proof fn law_scoped_once_per_scope<F, V>(
    reg: Registry<F>,
    root: Map<KeyId, V>,
    key: Key,
    v: V,
)
    requires
        reg.singles().contains_key(key.id()),
        reg.singles()[key.id()].lifetime == Lifetime::Scoped,
    ensures
        resolve_outcome(reg, root, Some(Map::<KeyId, V>::empty()), key) == Outcome::<V>::Build(
            CacheSlot::Scope,
            key,
        ),
        resolve_outcome(reg, root, Some(stored(Map::<KeyId, V>::empty(), key, v)), key)
            == Outcome::Reuse(v),
{
}

/// A transient service is built on every resolution, whatever the caches hold.
pub proof fn law_transient_always_built<F, V>(
    reg: Registry<F>,
    root: Map<KeyId, V>,
    scope: Option<Map<KeyId, V>>,
    key: Key,
)
    requires
        reg.singles().contains_key(key.id()),
        reg.singles()[key.id()].lifetime == Lifetime::Transient,
    ensures
        resolve_outcome(reg, root, scope, key) == Outcome::<V>::Build(CacheSlot::Uncached, key),
{
}

/// A key with no registration (and, for a trait, no multi-binding) is not found.
pub proof fn law_unregistered_not_found<F, V>(
    reg: Registry<F>,
    root: Map<KeyId, V>,
    scope: Option<Map<KeyId, V>>,
    key: Key,
)
    requires
        !reg.singles().contains_key(key.id()),
        key is Trait ==> reg.multi(key.spec_display_name()@).len() == 0,
    ensures
        resolve_outcome(reg, root, scope, key) == Outcome::<V>::Fail(
            DiError::NotFound(key.spec_display_name()),
        ),
{
}

/// An unbound trait resolves to the multi-binding registered last: in a registry whose
/// multi-bindings of the trait are those of an earlier registry followed by `added`, and
/// with no single binding for the trait, resolving the trait builds a new instance with
/// `added`'s factory, whatever was registered before it.
pub proof fn law_unbound_trait_uses_last_added<F, V>(
    before: Registry<F>,
    after: Registry<F>,
    root: Map<KeyId, V>,
    scope: Option<Map<KeyId, V>>,
    name: &'static str,
    added: Registration<F>,
)
    requires
        after.multi(name@) == before.multi(name@).push(added),
        !after.singles().contains_key(Key::Trait(name).id()),
    ensures
        resolve_outcome(after, root, scope, Key::Trait(name)) == Outcome::<V>::Build(
            CacheSlot::Uncached,
            Key::Trait(name),
        ),
        resolve_registration(after, Key::Trait(name)) == added,
{
    assert(after.multi(name@).len() > 0);
    assert(after.multi(name@).last() == added);
}

/// A singleton multi-binding is built once: each resolution of it either reuses the
/// instance the root cache keeps for it, or builds one to be kept in the root cache, and a
/// resolution after that instance was kept reuses it, from the root or from any scope.
pub proof fn law_many_singleton_built_once<F, V>(
    reg: Registry<F>,
    root: Map<KeyId, V>,
    scope: Option<Map<KeyId, V>>,
    later_scope: Option<Map<KeyId, V>>,
    name: &'static str,
    i: int,
    v: V,
)
    requires
        0 <= i < reg.multi(name@).len(),
        i <= usize::MAX,
        reg.multi(name@)[i].lifetime == Lifetime::Singleton,
    ensures
        match many_outcome(reg, root, scope, name, i) {
            Outcome::Build(slot, k) => {
                &&& slot == CacheSlot::Root
                &&& k == Key::MultiTrait(name, i as usize)
                &&& many_outcome(reg, stored(root, k, v), later_scope, name, i) == Outcome::Reuse(v)
            },
            Outcome::Reuse(w) => {
                &&& root.contains_key(Key::MultiTrait(name, i as usize).id())
                &&& w == root[Key::MultiTrait(name, i as usize).id()]
                &&& many_outcome(reg, root, later_scope, name, i) == Outcome::Reuse(w)
            },
            Outcome::Fail(_) => false,
        },
{
}

} // verus!
