//! Resolution rules of the asynchronous provider and its scopes. The factories are
//! awaited outside; these functions decide what a resolution does.
use vstd::prelude::*;
use crate::lifetime::Lifetime;

verus! {

/// What an asynchronous resolution does next.
#[derive(Debug, Clone, Copy, PartialEq, Eq, Structural)]
pub enum AsyncStep {
    /// Hand out the cached instance.
    Reuse,
    /// Await the factory; keep the instance in the provider's singleton cache.
    BuildAndCacheInRoot,
    /// Await the factory; keep the instance in the scope's cache.
    BuildAndCacheInScope,
    /// Await the factory; keep nothing.
    BuildUncached,
    /// Ask the provider (singletons asked of a scope).
    AskProvider,
    /// No registration: not found under the type's name.
    NotFound,
    /// Registered but without a factory.
    NoFactory,
}

/// The provider's step for a key: `lifetime` is the registered lifetime (none when the key
/// has no registration), `has_factory` whether a factory is known, `cached` whether the
/// singleton cache holds an instance. A cached singleton is reused; otherwise a factory, if
/// any, is awaited, and its instance kept only for singletons.
pub open spec fn provider_step_spec(lifetime: Option<Lifetime>, has_factory: bool, cached: bool) -> AsyncStep {
    if lifetime == Some(Lifetime::Singleton) && cached {
        AsyncStep::Reuse
    } else if has_factory {
        if lifetime == Some(Lifetime::Singleton) {
            AsyncStep::BuildAndCacheInRoot
        } else {
            AsyncStep::BuildUncached
        }
    } else {
        AsyncStep::NotFound
    }
}

/// A scope's step for a key: an instance in the scope's cache is reused; otherwise
/// singletons are asked of the provider, scoped services built and kept in the scope,
/// transients built afresh; an unregistered key is not found, and a registered one without
/// factory reports so.
pub open spec fn scope_step_spec(lifetime: Option<Lifetime>, has_factory: bool, in_scope: bool) -> AsyncStep {
    if in_scope {
        AsyncStep::Reuse
    } else {
        match lifetime {
            None => AsyncStep::NotFound,
            Some(Lifetime::Singleton) => AsyncStep::AskProvider,
            Some(Lifetime::Scoped) => if has_factory { AsyncStep::BuildAndCacheInScope } else { AsyncStep::NoFactory },
            Some(Lifetime::Transient) => if has_factory { AsyncStep::BuildUncached } else { AsyncStep::NoFactory },
        }
    }
}

/// The provider's step for a key.
pub fn provider_step(lifetime: Option<Lifetime>, has_factory: bool, cached: bool) -> (r: AsyncStep)
    ensures
        r == provider_step_spec(lifetime, has_factory, cached),
{
    let singleton = match lifetime {
        Some(Lifetime::Singleton) => true,
        _ => false,
    };
    if singleton && cached {
        AsyncStep::Reuse
    } else if has_factory {
        if singleton {
            AsyncStep::BuildAndCacheInRoot
        } else {
            AsyncStep::BuildUncached
        }
    } else {
        AsyncStep::NotFound
    }
}

/// A scope's step for a key.
pub fn scope_step(lifetime: Option<Lifetime>, has_factory: bool, in_scope: bool) -> (r: AsyncStep)
    ensures
        r == scope_step_spec(lifetime, has_factory, in_scope),
{
    if in_scope {
        return AsyncStep::Reuse;
    }
    match lifetime {
        None => AsyncStep::NotFound,
        Some(Lifetime::Singleton) => AsyncStep::AskProvider,
        Some(Lifetime::Scoped) => if has_factory { AsyncStep::BuildAndCacheInScope } else { AsyncStep::NoFactory },
        Some(Lifetime::Transient) => if has_factory { AsyncStep::BuildUncached } else { AsyncStep::NoFactory },
    }
}

/// An asynchronous singleton is built once: after its instance is kept, the provider reuses
/// it, and a scope asks the provider for it.
pub proof fn law_async_singleton_built_once(has_factory: bool)
    ensures
        provider_step_spec(Some(Lifetime::Singleton), true, false) == AsyncStep::BuildAndCacheInRoot,
        provider_step_spec(Some(Lifetime::Singleton), has_factory, true) == AsyncStep::Reuse,
        scope_step_spec(Some(Lifetime::Singleton), has_factory, false) == AsyncStep::AskProvider,
{
}

/// An asynchronous scoped service is built once per scope and then reused there.
pub proof fn law_async_scoped_once_per_scope()
    ensures
        scope_step_spec(Some(Lifetime::Scoped), true, false) == AsyncStep::BuildAndCacheInScope,
        scope_step_spec(Some(Lifetime::Scoped), true, true) == AsyncStep::Reuse,
{
}

} // verus!
