//! Service keys: how registrations are identified and looked up.
use vstd::prelude::*;
use std::any::TypeId;
use crate::support::{type_id_eq, str_eq};
use vstd::std_specs::cmp::PartialEqSpecImpl;

verus! {

/// Key for service storage and lookup.
///
/// Concrete types are identified by their `TypeId` (the accompanying name is for display
/// only and takes no part in equality); traits by their name; named variants add a service
/// name; multi-bindings add an index.
#[derive(Debug, Clone, Copy)]
pub enum Key {
    /// Concrete type key with TypeId and name for diagnostics.
    Type(TypeId, &'static str),
    /// Single trait binding key.
    Trait(&'static str),
    /// Multi-trait binding with index.
    MultiTrait(&'static str, usize),
    /// Named concrete type key with TypeId, type name, and service name.
    TypeNamed(TypeId, &'static str, &'static str),
    /// Named single trait binding key with trait name and service name.
    TraitNamed(&'static str, &'static str),
    /// Named multi-trait binding with trait name, service name, and index.
    MultiTraitNamed(&'static str, &'static str, usize),
}

/// The identity of a key: everything that takes part in key equality.
/// Fields: variant tag, type identity, first name, second name, index.
pub type KeyId = (int, Option<TypeId>, Seq<char>, Seq<char>, int);

impl Key {
    /// The identity of this key; two keys are equal exactly when their identities are.
    pub open spec fn id(self) -> KeyId {
        match self {
            Key::Type(t, _) => (0, Some(t), Seq::empty(), Seq::empty(), 0),
            Key::TypeNamed(t, _, n) => (1, Some(t), Seq::empty(), n@, 0),
            Key::Trait(n) => (2, None, n@, Seq::empty(), 0),
            Key::TraitNamed(n, s) => (3, None, n@, s@, 0),
            Key::MultiTrait(n, i) => (4, None, n@, Seq::empty(), i as int),
            Key::MultiTraitNamed(n, s, i) => (5, None, n@, s@, i as int),
        }
    }

    /// The type or trait name shown in diagnostics.
    pub open spec fn spec_display_name(self) -> &'static str {
        match self {
            Key::Type(_, name) => name,
            Key::Trait(name) => name,
            Key::MultiTrait(name, _) => name,
            Key::TypeNamed(_, name, _) => name,
            Key::TraitNamed(name, _) => name,
            Key::MultiTraitNamed(name, _, _) => name,
        }
    }

    /// The service name of a named key.
    pub open spec fn spec_service_name(self) -> Option<&'static str> {
        match self {
            Key::Type(_, _) | Key::Trait(_) | Key::MultiTrait(_, _) => None,
            Key::TypeNamed(_, _, name) => Some(name),
            Key::TraitNamed(_, name) => Some(name),
            Key::MultiTraitNamed(_, name, _) => Some(name),
        }
    }

    /// Get the type or trait name for display.
    pub fn display_name(&self) -> (r: &'static str)
        ensures
            r == self.spec_display_name(),
    {
        match self {
            Key::Type(_, name) => name,
            Key::Trait(name) => name,
            Key::MultiTrait(name, _) => name,
            Key::TypeNamed(_, name, _) => name,
            Key::TraitNamed(name, _) => name,
            Key::MultiTraitNamed(name, _, _) => name,
        }
    }

    /// Get the service name for named services, or None for unnamed services.
    pub fn service_name(&self) -> (r: Option<&'static str>)
        ensures
            r == self.spec_service_name(),
    {
        match self {
            Key::Type(_, _) | Key::Trait(_) | Key::MultiTrait(_, _) => None,
            Key::TypeNamed(_, _, name) => Some(name),
            Key::TraitNamed(_, name) => Some(name),
            Key::MultiTraitNamed(_, name, _) => Some(name),
        }
    }

    /// Whether two keys denote the same registration.
    pub fn same_as(&self, other: &Key) -> (r: bool)
        ensures
            r == (self.id() == other.id()),
    {
        match (self, other) {
            (Key::Type(a, _), Key::Type(b, _)) => type_id_eq(a, b),
            (Key::TypeNamed(a, _, na), Key::TypeNamed(b, _, nb)) => type_id_eq(a, b) && str_eq(
                na,
                nb,
            ),
            (Key::Trait(a), Key::Trait(b)) => str_eq(a, b),
            (Key::TraitNamed(a, na), Key::TraitNamed(b, nb)) => str_eq(a, b) && str_eq(na, nb),
            (Key::MultiTrait(a, ia), Key::MultiTrait(b, ib)) => str_eq(a, b) && *ia == *ib,
            (Key::MultiTraitNamed(a, na, ia), Key::MultiTraitNamed(b, nb, ib)) => {
                str_eq(a, b) && str_eq(na, nb) && *ia == *ib
            },
            _ => false,
        }
    }
}

impl PartialEq for Key {
    fn eq(&self, other: &Self) -> (r: bool) {
        self.same_as(other)
    }
}

impl Eq for Key {
}

impl PartialEqSpecImpl for Key {
    open spec fn obeys_eq_spec() -> bool {
        true
    }

    open spec fn eq_spec(&self, other: &Key) -> bool {
        self.id() == other.id()
    }
}

} // verus!
