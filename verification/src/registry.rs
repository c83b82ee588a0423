//! The registry of service registrations: single bindings by key, multi-bindings by trait.
use vstd::prelude::*;
use std::any::TypeId;
use crate::key::{Key, KeyId};
use crate::keymap::{KeyMap, lemma_value_at};
use crate::lifetime::Lifetime;
use crate::descriptors::ServiceDescriptor;
use crate::text::push_str;
use crate::support::leak_string;

verus! {

/// A registration: how to build a service (`ctor`) and how long an instance lives.
pub struct Registration<F> {
    pub lifetime: Lifetime,
    pub ctor: F,
    pub has_metadata: bool,
    pub impl_id: Option<TypeId>,
}

impl<F> Registration<F> {
    /// A registration with the given parts.
    pub fn with_metadata(lifetime: Lifetime, ctor: F, has_metadata: bool, impl_id: Option<TypeId>) -> (r: Registration<F>)
        ensures
            r.lifetime == lifetime,
            r.ctor == ctor,
            r.has_metadata == has_metadata,
            r.impl_id == impl_id,
    {
        Registration { lifetime, ctor, has_metadata, impl_id }
    }
}

/// The identity of the single-binding key of a trait name.
pub open spec fn trait_id(name: Seq<char>) -> KeyId {
    (2, None, name, Seq::empty(), 0)
}

/// The descriptor of a single binding.
pub open spec fn single_descriptor<F>(k: Key, r: Registration<F>) -> ServiceDescriptor {
    ServiceDescriptor {
        key: k,
        lifetime: r.lifetime,
        impl_type_id: r.impl_id,
        impl_type_name: match r.impl_id {
            Some(_) => Some(k.spec_display_name()),
            None => None,
        },
        has_metadata: r.has_metadata,
    }
}

/// The descriptor of the `i`-th multi-binding of trait `name`.
pub open spec fn multi_descriptor<F>(name: &'static str, i: int, r: Registration<F>) -> ServiceDescriptor {
    ServiceDescriptor {
        key: Key::MultiTrait(name, i as usize),
        lifetime: r.lifetime,
        impl_type_id: r.impl_id,
        impl_type_name: match r.impl_id {
            Some(_) => Some(name),
            None => None,
        },
        has_metadata: r.has_metadata,
    }
}

/// The descriptors of all multi-bindings of one trait.
pub open spec fn multi_descriptors<F>(name: &'static str, regs: Seq<Registration<F>>) -> Seq<ServiceDescriptor> {
    Seq::new(regs.len(), |i: int| multi_descriptor(name, i, regs[i]))
}

/// The registry of service registrations.
///
/// Single bindings are keyed by service key (a later registration for the same key replaces
/// the earlier one). Multi-bindings are kept per trait name, in registration order.
pub struct Registry<F> {
    singles: KeyMap<Registration<F>>,
    many: KeyMap<Vec<Registration<F>>>,
}

impl<F> Registry<F> {
    /// The single bindings, by key identity.
    pub closed spec fn singles(&self) -> Map<KeyId, Registration<F>> {
        self.singles.view()
    }

    /// The single bindings in registration order.
    pub closed spec fn single_entries(&self) -> Seq<(Key, Registration<F>)> {
        self.singles.entries()
    }

    /// The multi-binding lists in order of each trait's first registration.
    pub closed spec fn multi_entries(&self) -> Seq<(Key, Vec<Registration<F>>)> {
        self.many.entries()
    }

    /// The multi-bindings of trait `name`, in registration order.
    pub closed spec fn multi(&self, name: Seq<char>) -> Seq<Registration<F>> {
        if self.many.view().contains_key(trait_id(name)) {
            self.many.view()[trait_id(name)]@
        } else {
            Seq::empty()
        }
    }

    /// Internal consistency.
    pub closed spec fn wf(&self) -> bool {
        &&& self.singles.wf()
        &&& self.many.wf()
        &&& forall|i: int| 0 <= i < self.many.entries().len() ==> (#[trigger] self.many.entries()[i]).0 is Trait
    }

    /// The descriptors of all registrations: single bindings first, then every
    /// multi-binding as `MultiTrait(name, index)`.
    pub open spec fn descriptors(&self) -> Seq<ServiceDescriptor> {
        self.single_entries().map_values(|e: (Key, Registration<F>)| single_descriptor(e.0, e.1))
            + self.multi_entries().map_values(
            |e: (Key, Vec<Registration<F>>)| multi_descriptors(e.0.spec_display_name(), e.1@),
        ).flatten()
    }

    /// An empty registry.
    pub fn new() -> (r: Registry<F>)
        ensures
            r.wf(),
            r.singles() == Map::<KeyId, Registration<F>>::empty(),
            r.single_entries().len() == 0,
            r.multi_entries().len() == 0,
            forall|name: Seq<char>| #[trigger] r.multi(name) == Seq::<Registration<F>>::empty(),
    {
        Registry { singles: KeyMap::new(), many: KeyMap::new() }
    }

    /// Registers a single binding; a registration for the same key is replaced.
    pub fn insert(&mut self, key: Key, reg: Registration<F>)
        requires
            old(self).wf(),
        ensures
            final(self).wf(),
            final(self).singles() == old(self).singles().insert(key.id(), reg),
            final(self).multi_entries() == old(self).multi_entries(),
            forall|name: Seq<char>| #[trigger] final(self).multi(name) == old(self).multi(name),
    {
        self.singles.insert(key, reg);
    }

    /// Registers a single binding only when none exists for `key`. Returns whether it was
    /// registered; when it was not, the registry is unchanged.
    pub fn try_insert(&mut self, key: Key, reg: Registration<F>) -> (added: bool)
        requires
            old(self).wf(),
        ensures
            final(self).wf(),
            added == !old(self).singles().contains_key(key.id()),
            added ==> final(self).singles() == old(self).singles().insert(key.id(), reg),
            !added ==> final(self).singles() == old(self).singles(),
            final(self).multi_entries() == old(self).multi_entries(),
            forall|name: Seq<char>| #[trigger] final(self).multi(name) == old(self).multi(name),
    {
        if self.singles.contains_key(&key) {
            false
        } else {
            self.singles.insert(key, reg);
            true
        }
    }

    /// Whether a single binding exists for `key`.
    pub fn contains_key(&self, key: &Key) -> (r: bool)
        requires
            self.wf(),
        ensures
            r == self.singles().contains_key(key.id()),
    {
        self.singles.contains_key(key)
    }

    /// The single binding for `key`.
    pub fn get(&self, key: &Key) -> (r: Option<&Registration<F>>)
        requires
            self.wf(),
        ensures
            r is None <==> !self.singles().contains_key(key.id()),
            r matches Some(reg) ==> *reg == self.singles()[key.id()],
    {
        self.singles.get(key)
    }

    /// Replaces the constructor of the single binding for `key`, keeping everything else.
    /// Returns whether there was such a binding.
    pub fn set_ctor(&mut self, key: &Key, ctor: F) -> (found: bool)
        requires
            old(self).wf(),
        ensures
            final(self).wf(),
            found == old(self).singles().contains_key(key.id()),
            found ==> final(self).singles() == old(self).singles().insert(
                key.id(),
                Registration { ctor, ..old(self).singles()[key.id()] },
            ),
            !found ==> final(self).singles() == old(self).singles(),
            forall|name: Seq<char>| #[trigger] final(self).multi(name) == old(self).multi(name),
    {
        match self.singles.index_of(key) {
            Some(i) => {
                let (k, r) = self.singles.entry_at(i);
                let nr = Registration {
                    lifetime: r.lifetime,
                    ctor,
                    has_metadata: r.has_metadata,
                    impl_id: r.impl_id,
                };
                proof {
                    lemma_value_at(self.singles.entries(), i as int);
                }
                self.singles.replace_at(i, nr);
                true
            },
            None => false,
        }
    }

    /// Appends a multi-binding for trait `name`.
    pub fn add_many(&mut self, name: &'static str, reg: Registration<F>)
        requires
            old(self).wf(),
        ensures
            final(self).wf(),
            final(self).singles() == old(self).singles(),
            final(self).single_entries() == old(self).single_entries(),
            final(self).multi(name@) == old(self).multi(name@).push(reg),
            forall|other: Seq<char>| other != name@ ==> #[trigger] final(self).multi(other) == old(self).multi(other),
    {
        let key = Key::Trait(name);
        match self.many.index_of(&key) {
            Some(i) => {
                proof {
                    lemma_value_at(self.many.entries(), i as int);
                }
                let mut list = self.many.replace_at(i, Vec::new());
                list.push(reg);
                self.many.replace_at(i, list);
            },
            None => {
                let mut list = Vec::new();
                list.push(reg);
                self.many.insert(key, list);
                assert(list@ =~= Seq::<Registration<F>>::empty().push(reg));
            },
        }
        proof {
            assert forall|i: int| 0 <= i < self.many.entries().len() implies (
            #[trigger] self.many.entries()[i]).0 is Trait by {
                if i < old(self).many.entries().len() {
                    assert(self.many.entries()[i].0 == old(self).many.entries()[i].0);
                }
            }
        }
    }

    /// Appends a named multi-binding: it is kept among the multi-bindings of the combined
    /// name `trait_name#service_name`.
    pub fn add_named_many(&mut self, trait_name: &'static str, service_name: &'static str, reg: Registration<F>)
        requires
            old(self).wf(),
        ensures
            final(self).wf(),
            final(self).singles() == old(self).singles(),
            final(self).multi(trait_name@ + "#"@ + service_name@) == old(self).multi(trait_name@ + "#"@ + service_name@).push(reg),
            forall|other: Seq<char>| other != trait_name@ + "#"@ + service_name@ ==> #[trigger] final(self).multi(other) == old(
                self,
            ).multi(other),
    {
        let mut combined = String::new();
        push_str(&mut combined, trait_name);
        push_str(&mut combined, "#");
        push_str(&mut combined, service_name);
        let name = leak_string(combined);
        self.add_many(name, reg);
    }

    /// The multi-bindings of trait `name`.
    pub fn get_many(&self, name: &'static str) -> (r: Option<&Vec<Registration<F>>>)
        requires
            self.wf(),
        ensures
            r is None ==> self.multi(name@) == Seq::<Registration<F>>::empty(),
            r matches Some(v) ==> v@ == self.multi(name@),
    {
        let key = Key::Trait(name);
        self.many.get(&key)
    }

    /// Replaces the constructor of the `idx`-th multi-binding of trait `name`. Returns
    /// whether there was such a binding.
    pub fn set_many_ctor(&mut self, name: &'static str, idx: usize, ctor: F) -> (found: bool)
        requires
            old(self).wf(),
        ensures
            final(self).wf(),
            found == (idx < old(self).multi(name@).len()),
            final(self).singles() == old(self).singles(),
            found ==> final(self).multi(name@) == old(self).multi(name@).update(
                idx as int,
                Registration { ctor, ..old(self).multi(name@)[idx as int] },
            ),
            !found ==> final(self).multi(name@) == old(self).multi(name@),
            forall|other: Seq<char>| other != name@ ==> #[trigger] final(self).multi(other) == old(self).multi(other),
    {
        let key = Key::Trait(name);
        match self.many.index_of(&key) {
            Some(i) => {
                proof {
                    lemma_value_at(self.many.entries(), i as int);
                }
                let list_len = self.many.entry_at(i).1.len();
                if idx < list_len {
                    let mut list = self.many.replace_at(i, Vec::new());
                    let r = list.remove(idx);
                    let nr = Registration {
                        lifetime: r.lifetime,
                        ctor,
                        has_metadata: r.has_metadata,
                        impl_id: r.impl_id,
                    };
                    list.insert(idx, nr);
                    self.many.replace_at(i, list);
                    proof {
                        assert forall|j: int| 0 <= j < self.many.entries().len() implies (
                        #[trigger] self.many.entries()[j]).0 is Trait by {
                            assert(self.many.entries()[j].0 == old(self).many.entries()[j].0);
                        }
                    }
                    true
                } else {
                    false
                }
            },
            None => false,
        }
    }

    /// Descriptors of every registration.
    pub fn descriptors_vec(&self) -> (r: Vec<ServiceDescriptor>)
        requires
            self.wf(),
        ensures
            r@ == self.descriptors(),
    {
        let mut out: Vec<ServiceDescriptor> = Vec::new();
        let n = self.singles.len();
        let mut i: usize = 0;
        while i < n
            invariant
                n == self.single_entries().len(),
                0 <= i <= n,
                out@ == self.single_entries().take(i as int).map_values(
                    |e: (Key, Registration<F>)| single_descriptor(e.0, e.1),
                ),
            decreases n - i,
        {
            let (k, reg) = self.singles.entry_at(i);
            let d = ServiceDescriptor {
                key: *k,
                lifetime: reg.lifetime,
                impl_type_id: reg.impl_id,
                impl_type_name: match reg.impl_id {
                    Some(_) => Some(k.display_name()),
                    None => None,
                },
                has_metadata: reg.has_metadata,
            };
            out.push(d);
            proof {
                assert(self.single_entries().take(i + 1) =~= self.single_entries().take(i as int).push(self.single_entries()[i as int]));
                assert(out@ =~= self.single_entries().take(i + 1).map_values(
                    |e: (Key, Registration<F>)| single_descriptor(e.0, e.1),
                ));
            }
            i = i + 1;
        }
        proof {
            assert(self.single_entries().take(n as int) =~= self.single_entries());
        }
        let ghost prefix = out@;
        let m = self.many.len();
        let mut g: usize = 0;
        while g < m
            invariant
                self.wf(),
                m == self.multi_entries().len(),
                0 <= g <= m,
                prefix == self.single_entries().map_values(
                    |e: (Key, Registration<F>)| single_descriptor(e.0, e.1),
                ),
                out@ == prefix + self.multi_entries().take(g as int).map_values(
                    |e: (Key, Vec<Registration<F>>)| multi_descriptors(e.0.spec_display_name(), e.1@),
                ).flatten(),
            decreases m - g,
        {
            let (k, regs) = self.many.entry_at(g);
            let name = k.display_name();
            let ghost before = out@;
            let mut j: usize = 0;
            while j < regs.len()
                invariant
                    0 <= j <= regs@.len(),
                    out@ == before + multi_descriptors(name, regs@).take(j as int),
                decreases regs@.len() - j,
            {
                let reg = &regs[j];
                let d = ServiceDescriptor {
                    key: Key::MultiTrait(name, j),
                    lifetime: reg.lifetime,
                    impl_type_id: reg.impl_id,
                    impl_type_name: match reg.impl_id {
                        Some(_) => Some(name),
                        None => None,
                    },
                    has_metadata: reg.has_metadata,
                };
                out.push(d);
                proof {
                    assert(multi_descriptors(name, regs@).take(j + 1) =~= multi_descriptors(name, regs@).take(j as int).push(d));
                    assert(out@ =~= before + multi_descriptors(name, regs@).take(j + 1));
                }
                j = j + 1;
            }
            proof {
                let f = |e: (Key, Vec<Registration<F>>)| multi_descriptors(e.0.spec_display_name(), e.1@);
                let es = self.multi_entries();
                assert(multi_descriptors(name, regs@).take(regs@.len() as int) =~= multi_descriptors(name, regs@));
                assert(es.take(g + 1) =~= es.take(g as int).push(es[g as int]));
                assert(es.take(g + 1).map_values(f) =~= es.take(g as int).map_values(f).push(f(es[g as int])));
                es.take(g as int).map_values(f).lemma_flatten_push(f(es[g as int]));
                assert(out@ =~= prefix + es.take(g + 1).map_values(f).flatten());
            }
            g = g + 1;
        }
        proof {
            assert(self.multi_entries().take(m as int) =~= self.multi_entries());
        }
        out
    }
}

} // verus!
