//! Decorators that intercept services as they are resolved: a pipeline that keeps
//! decorators by service key and applies them in the order they were added, and the
//! built-in decorators.
use vstd::prelude::*;
use std::sync::Arc;
use crate::key::{Key, KeyId};

pub mod decorators;

verus! {

/// A decorator that can intercept and modify the resolution of a service: it can wrap,
/// modify or replace the instance, and may use the resolver `R` to reach the services it
/// needs.
pub trait ServiceDecorator<T: Send + Sync + 'static, R: ?Sized>: Send + Sync {
    /// Decorates the service during resolution.
    fn decorate(&self, original: Arc<T>, resolver: &R) -> Arc<T>;
}

/// A decorator of trait objects, as `ServiceDecorator` is of concrete services.
pub trait TraitDecorator<T: ?Sized + Send + Sync + 'static, R: ?Sized>: Send + Sync {
    /// Decorates the trait object during resolution.
    fn decorate(&self, original: Arc<T>, resolver: &R) -> Arc<T>;
}

/// The decorators, among `entries`, that were added for the service `id`, in the order
/// they were added.
pub open spec fn decorators_for<F>(entries: Seq<(Key, F)>, id: KeyId) -> Seq<F>
    decreases entries.len(),
{
    if entries.len() == 0 {
        Seq::empty()
    } else {
        let rest = decorators_for(entries.drop_last(), id);
        if entries.last().0.id() == id {
            rest.push(entries.last().1)
        } else {
            rest
        }
    }
}

/// `chain` lists the values that applying the decorators `ds` one after the other goes
/// through: each decorator, called on a value of the chain with the resolver, can give the
/// next one.
pub open spec fn is_chain<V, R, F: Fn(V, R) -> V>(ds: Seq<F>, resolver: R, chain: Seq<V>) -> bool {
    &&& chain.len() == ds.len() + 1
    &&& forall|i: int| 0 <= i < ds.len() ==> call_ensures(#[trigger] ds[i], (chain[i], resolver), chain[i + 1])
}

/// Applying the decorators `ds` one after the other to `v0` can give `v`: each one is
/// called on what the one before it gave, with the same resolver.
pub open spec fn applied_in_order<V, R, F: Fn(V, R) -> V>(ds: Seq<F>, v0: V, resolver: R, v: V) -> bool {
    exists|chain: Seq<V>| #[trigger] is_chain(ds, resolver, chain) && chain[0] == v0 && chain.last() == v
}

/// Applying no decorator leaves the value as it was.
proof fn lemma_apply_none<V, R, F: Fn(V, R) -> V>(v0: V, resolver: R)
    ensures
        applied_in_order(Seq::<F>::empty(), v0, resolver, v0),
{
    assert(is_chain(Seq::<F>::empty(), resolver, seq![v0]));
}

/// One more decorator applied to what the others gave.
proof fn lemma_apply_one_more<V, R, F: Fn(V, R) -> V>(ds: Seq<F>, v0: V, resolver: R, mid: V, v: V)
    requires
        ds.len() > 0,
        applied_in_order(ds.drop_last(), v0, resolver, mid),
        call_ensures(ds.last(), (mid, resolver), v),
    ensures
        applied_in_order(ds, v0, resolver, v),
{
    let c = choose|chain: Seq<V>| #[trigger] is_chain(ds.drop_last(), resolver, chain) && chain[0] == v0
        && chain.last() == mid;
    let c2 = c.push(v);
    assert forall|i: int| 0 <= i < ds.len() implies call_ensures(#[trigger] ds[i], (c2[i], resolver), c2[i + 1]) by {
        if i < ds.len() - 1 {
            assert(ds.drop_last()[i] == ds[i]);
        }
    }
    assert(is_chain(ds, resolver, c2));
}

/// The decorators of a prefix of the entries come first among those of all entries.
proof fn lemma_prefix<F>(entries: Seq<(Key, F)>, k: int, id: KeyId)
    requires
        0 <= k <= entries.len(),
    ensures
        decorators_for(entries.take(k), id).len() <= decorators_for(entries, id).len(),
        decorators_for(entries.take(k), id) == decorators_for(entries, id).take(
            decorators_for(entries.take(k), id).len() as int,
        ),
    decreases entries.len() - k,
{
    if k < entries.len() {
        lemma_prefix(entries, k + 1, id);
        assert(entries.take(k + 1).drop_last() =~= entries.take(k));
        let a = decorators_for(entries.take(k), id);
        let b = decorators_for(entries.take(k + 1), id);
        let all = decorators_for(entries, id);
        if entries[k].0.id() == id {
            assert(b == a.push(entries[k].1));
            assert(a =~= all.take(b.len() as int).take(a.len() as int));
        } else {
            assert(b == a);
        }
    } else {
        assert(entries.take(k) =~= entries);
        assert(decorators_for(entries, id).take(decorators_for(entries, id).len() as int)
            =~= decorators_for(entries, id));
    }
}

/// Decorators kept by service key, for services and for traits, each list in the order
/// the decorators were added.
pub struct DecorationPipeline<F> {
    service_decorators: Vec<(Key, F)>,
    trait_decorators: Vec<(Key, F)>,
}

impl<F> DecorationPipeline<F> {
    /// The service decorators with their keys, in the order they were added.
    pub closed spec fn service_entries(&self) -> Seq<(Key, F)> {
        self.service_decorators@
    }

    /// The trait decorators with their keys, in the order they were added.
    pub closed spec fn trait_entries(&self) -> Seq<(Key, F)> {
        self.trait_decorators@
    }

    /// Creates a new decoration pipeline.
    pub fn new() -> (p: DecorationPipeline<F>)
        ensures
            p.service_entries() == Seq::<(Key, F)>::empty(),
            p.trait_entries() == Seq::<(Key, F)>::empty(),
    {
        DecorationPipeline { service_decorators: Vec::new(), trait_decorators: Vec::new() }
    }

    /// Adds a decorator for the service `key`, to run after those added before it.
    pub fn add_service_decorator(&mut self, key: Key, decorator: F)
        ensures
            final(self).service_entries() == old(self).service_entries().push((key, decorator)),
            final(self).trait_entries() == old(self).trait_entries(),
    {
        self.service_decorators.push((key, decorator));
    }

    /// Adds a decorator for the trait `key`, to run after those added before it.
    pub fn add_trait_decorator(&mut self, key: Key, decorator: F)
        ensures
            final(self).trait_entries() == old(self).trait_entries().push((key, decorator)),
            final(self).service_entries() == old(self).service_entries(),
    {
        self.trait_decorators.push((key, decorator));
    }

    /// Returns true if there are decorators for the service `key`.
    pub fn has_service_decorators(&self, key: &Key) -> (r: bool)
        ensures
            r == (decorators_for(self.service_entries(), key.id()).len() > 0),
    {
        has_entry_for(&self.service_decorators, key)
    }

    /// Returns true if there are decorators for the trait `key`.
    pub fn has_trait_decorators(&self, key: &Key) -> (r: bool)
        ensures
            r == (decorators_for(self.trait_entries(), key.id()).len() > 0),
    {
        has_entry_for(&self.trait_decorators, key)
    }

    /// Returns the number of service decorators.
    pub fn service_decorator_count(&self) -> (r: usize)
        ensures
            r == self.service_entries().len(),
    {
        self.service_decorators.len()
    }

    /// Returns the number of trait decorators.
    pub fn trait_decorator_count(&self) -> (r: usize)
        ensures
            r == self.trait_entries().len(),
    {
        self.trait_decorators.len()
    }

    /// Applies the decorators of the service `key` to `service`, in the order they were
    /// added; with none, the service comes back as it was.
    pub fn decorate_service<V, R: Copy>(&self, key: &Key, service: V, resolver: R) -> (r: V) where
        F: Fn(V, R) -> V,

        requires
            forall|d: F, v: V|
                decorators_for(self.service_entries(), key.id()).contains(d) ==> call_requires(
                    d,
                    (v, resolver),
                ),
        ensures
            applied_in_order(decorators_for(self.service_entries(), key.id()), service, resolver, r),
    {
        apply_entries(&self.service_decorators, key, service, resolver)
    }

    /// Applies the decorators of the trait `key` to `service`, in the order they were added;
    /// with none, the service comes back as it was.
    pub fn decorate_trait<V, R: Copy>(&self, key: &Key, service: V, resolver: R) -> (r: V) where
        F: Fn(V, R) -> V,

        requires
            forall|d: F, v: V|
                decorators_for(self.trait_entries(), key.id()).contains(d) ==> call_requires(
                    d,
                    (v, resolver),
                ),
        ensures
            applied_in_order(decorators_for(self.trait_entries(), key.id()), service, resolver, r),
    {
        apply_entries(&self.trait_decorators, key, service, resolver)
    }

    /// Clears all decorators.
    pub fn clear(&mut self)
        ensures
            final(self).service_entries() == Seq::<(Key, F)>::empty(),
            final(self).trait_entries() == Seq::<(Key, F)>::empty(),
    {
        self.service_decorators = Vec::new();
        self.trait_decorators = Vec::new();
    }
}

/// Whether some entry is kept under `key`.
fn has_entry_for<F>(entries: &Vec<(Key, F)>, key: &Key) -> (r: bool)
    ensures
        r == (decorators_for(entries@, key.id()).len() > 0),
{
    let mut i: usize = 0;
    while i < entries.len()
        invariant
            0 <= i <= entries@.len(),
            decorators_for(entries@.take(i as int), key.id()).len() == 0,
        decreases entries@.len() - i,
    {
        proof {
            assert(entries@.take(i + 1).drop_last() =~= entries@.take(i as int));
        }
        if entries[i].0.same_as(key) {
            proof {
                lemma_prefix(entries@, i + 1, key.id());
            }
            return true;
        }
        i = i + 1;
    }
    proof {
        assert(entries@.take(i as int) =~= entries@);
    }
    false
}

/// Applies, in order, the entries kept under `key`.
fn apply_entries<F, V, R: Copy>(entries: &Vec<(Key, F)>, key: &Key, service: V, resolver: R) -> (r: V) where
    F: Fn(V, R) -> V,

    requires
        forall|d: F, v: V|
            decorators_for(entries@, key.id()).contains(d) ==> call_requires(d, (v, resolver)),
    ensures
        applied_in_order(decorators_for(entries@, key.id()), service, resolver, r),
{
    let ghost id = key.id();
    let mut cur = service;
    proof {
        lemma_apply_none::<V, R, F>(service, resolver);
        assert(decorators_for(entries@.take(0), id) =~= Seq::<F>::empty());
    }
    let mut i: usize = 0;
    while i < entries.len()
        invariant
            0 <= i <= entries@.len(),
            forall|d: F, v: V|
                decorators_for(entries@, id).contains(d) ==> call_requires(d, (v, resolver)),
            id == key.id(),
            applied_in_order(decorators_for(entries@.take(i as int), id), service, resolver, cur),
        decreases entries@.len() - i,
    {
        let ghost before = cur;
        proof {
            assert(entries@.take(i + 1).drop_last() =~= entries@.take(i as int));
        }
        if entries[i].0.same_as(key) {
            proof {
                lemma_prefix(entries@, i + 1, id);
                let pre = decorators_for(entries@.take(i + 1), id);
                let all = decorators_for(entries@, id);
                assert(pre.last() == all[pre.len() - 1]);
                assert(all.contains(pre.last()));
            }
            let f = &entries[i].1;
            cur = f(cur, resolver);
            proof {
                let pre = decorators_for(entries@.take(i + 1), id);
                assert(entries@.take(i + 1).last() == entries@[i as int]);
                assert(pre == decorators_for(entries@.take(i as int), id).push(entries@[i as int].1));
                assert(pre.drop_last() =~= decorators_for(entries@.take(i as int), id));
                assert(pre.last() == entries@[i as int].1);
                assert(call_ensures(pre.last(), (before, resolver), cur));
                lemma_apply_one_more(pre, service, resolver, before, cur);
            }
        }
        else {
            proof {
                assert(entries@.take(i + 1).last() == entries@[i as int]);
                assert(decorators_for(entries@.take(i + 1), id) == decorators_for(entries@.take(i as int), id));
            }
        }
        i = i + 1;
    }
    proof {
        assert(entries@.take(i as int) =~= entries@);
    }
    cur
}

/// A decorator added for a key runs after every decorator added for that key before it,
/// and adding it leaves the decorators of every other key as they were.
pub proof fn law_added_decorator_runs_last<F>(entries: Seq<(Key, F)>, key: Key, decorator: F, other: KeyId)
    ensures
        decorators_for(entries.push((key, decorator)), key.id()) == decorators_for(entries, key.id()).push(
            decorator,
        ),
        other != key.id() ==> decorators_for(entries.push((key, decorator)), other) == decorators_for(
            entries,
            other,
        ),
{
    assert(entries.push((key, decorator)).drop_last() =~= entries);
}

} // verus!
