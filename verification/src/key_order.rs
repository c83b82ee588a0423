//! The order of keys used when sorting registrations: concrete types first (by `TypeId`),
//! then named concrete types, then traits, multi-bindings, named traits and named
//! multi-bindings; keys of one variant compare field by field.
use vstd::prelude::*;
use std::any::TypeId;
use std::cmp::Ordering;
use crate::key::Key;
use crate::capabilities::discovery::{lex_lt, lemma_lex_irreflexive, lemma_lex_transitive, lemma_lex_total};

verus! {

/// Whether `a` comes before `b` in std's order of `TypeId`s. The order is fixed by the two
/// ids alone; std does not document which of two different ids comes first.
pub uninterp spec fn type_id_less(a: TypeId, b: TypeId) -> bool;

/// `Ord::cmp` of two `TypeId`s. Claimed, as `Ord` documents: `Equal` exactly when they are
/// equal, `Less` exactly when `a` comes before `b` in the order, `Greater` exactly when `b`
/// comes before `a`.
#[verifier::external_body]
fn type_id_order(a: &TypeId, b: &TypeId) -> (r: Ordering)
    ensures
        (r == Ordering::Equal) == (*a == *b),
        (r == Ordering::Less) == type_id_less(*a, *b),
        (r == Ordering::Greater) == type_id_less(*b, *a),
{
    a.cmp(b)
}

/// `Ord::cmp` of two string slices. std orders strings lexicographically by their bytes,
/// which for UTF-8 is the lexicographic order of their characters' code points (a proper
/// prefix first). Claimed: `Equal` exactly when they hold the same characters, `Less`
/// exactly when `a` comes first in that order, `Greater` exactly when `b` does.
#[verifier::external_body]
fn str_order(a: &str, b: &str) -> (r: Ordering)
    ensures
        (r == Ordering::Equal) == (a@ == b@),
        (r == Ordering::Less) == lex_lt(a@, b@),
        (r == Ordering::Greater) == lex_lt(b@, a@),
{
    a.cmp(b)
}

/// `first`, unless it is `Equal`; then `second`.
fn then_order(first: Ordering, second: Ordering) -> (r: Ordering)
    ensures
        r == (if first == Ordering::Equal { second } else { first }),
{
    match first {
        Ordering::Equal => second,
        other => other,
    }
}

/// Order of two indices.
fn index_order(a: usize, b: usize) -> (r: Ordering)
    ensures
        a < b ==> r == Ordering::Less,
        a == b ==> r == Ordering::Equal,
        a > b ==> r == Ordering::Greater,
{
    if a < b {
        Ordering::Less
    } else if a == b {
        Ordering::Equal
    } else {
        Ordering::Greater
    }
}

/// Position of a key's variant in the order: concrete types, named concrete types, traits,
/// multi-bindings, named traits, named multi-bindings.
pub open spec fn variant_rank(k: Key) -> int {
    match k {
        Key::Type(..) => 0,
        Key::TypeNamed(..) => 1,
        Key::Trait(..) => 2,
        Key::MultiTrait(..) => 3,
        Key::TraitNamed(..) => 4,
        Key::MultiTraitNamed(..) => 5,
    }
}

/// `a` comes before `b` by their fields, for two keys of one variant other than a concrete
/// type: names lexicographically, then service names, then indices; a named concrete type
/// only against one of the same type, by service name.
pub open spec fn fields_before(a: Key, b: Key) -> bool {
    match (a, b) {
        (Key::TypeNamed(t, _, n), Key::TypeNamed(u, _, m)) => t == u && lex_lt(n@, m@),
        (Key::Trait(x), Key::Trait(y)) => lex_lt(x@, y@),
        (Key::MultiTrait(x, i), Key::MultiTrait(y, j)) => lex_lt(x@, y@) || (x@ == y@ && i < j),
        (Key::TraitNamed(x, nx), Key::TraitNamed(y, ny)) => lex_lt(x@, y@) || (x@ == y@ && lex_lt(
            nx@,
            ny@,
        )),
        (Key::MultiTraitNamed(x, nx, i), Key::MultiTraitNamed(y, ny, j)) => lex_lt(x@, y@) || (x@
            == y@ && (lex_lt(nx@, ny@) || (nx@ == ny@ && i < j))),
        _ => false,
    }
}

/// Two keys whose order is fixed by `fields_before`: of one variant, not a concrete type,
/// and for named concrete types of the same type.
pub open spec fn ordered_by_fields(a: Key, b: Key) -> bool {
    &&& variant_rank(a) == variant_rank(b)
    &&& variant_rank(a) != 0
    &&& (a matches Key::TypeNamed(t, _, _) ==> b matches Key::TypeNamed(u, _, _) && t == u)
}

impl Key {
    /// Compares two keys: first by the position of their variants (concrete types, named
    /// concrete types, traits, multi-bindings, named traits, named multi-bindings), then
    /// field by field (`TypeId`s in std's order, names lexicographically, indices last).
    /// Two keys compare `Equal` exactly when they are the same key, and `Less` exactly when
    /// `key_before` puts the first first, so comparing the other way round gives the reverse.
    pub fn cmp(&self, other: &Key) -> (r: Ordering)
        ensures
            (r == Ordering::Equal) == (self.id() == other.id()),
            variant_rank(*self) < variant_rank(*other) ==> r == Ordering::Less,
            variant_rank(*self) > variant_rank(*other) ==> r == Ordering::Greater,
            ordered_by_fields(*self, *other) ==> {
                &&& (r == Ordering::Less) == fields_before(*self, *other)
                &&& (r == Ordering::Greater) == fields_before(*other, *self)
            },
            (r == Ordering::Less) == key_before(*self, *other),
            (r == Ordering::Greater) == key_before(*other, *self),
    {
        match (self, other) {
            (Key::Type(a, _), Key::Type(b, _)) => type_id_order(a, b),
            (Key::TypeNamed(a, _, na), Key::TypeNamed(b, _, nb)) => then_order(type_id_order(a, b), str_order(na, nb)),
            (Key::Type(_, _), _) => Ordering::Less,
            (_, Key::Type(_, _)) => Ordering::Greater,
            (Key::TypeNamed(_, _, _), _) => Ordering::Less,
            (_, Key::TypeNamed(_, _, _)) => Ordering::Greater,
            (Key::Trait(a), Key::Trait(b)) => str_order(a, b),
            (Key::TraitNamed(a, na), Key::TraitNamed(b, nb)) => then_order(str_order(a, b), str_order(na, nb)),
            (Key::MultiTrait(a, ia), Key::MultiTrait(b, ib)) => then_order(str_order(a, b), index_order(*ia, *ib)),
            (Key::MultiTraitNamed(a, na, ia), Key::MultiTraitNamed(b, nb, ib)) => then_order(
                then_order(str_order(a, b), str_order(na, nb)),
                index_order(*ia, *ib),
            ),
            _ => variant_order(self, other),
        }
    }
}

/// The lexicographic order never has two texts each before the other.
proof fn lemma_lex_asymmetric(a: Seq<char>, b: Seq<char>)
    ensures
        !(lex_lt(a, b) && lex_lt(b, a)),
{
    if lex_lt(a, b) && lex_lt(b, a) {
        lemma_lex_transitive(a, b, a);
        lemma_lex_irreflexive(a);
    }
}

/// The key order agrees with key equality and is consistent both ways: keys of different
/// variants are ordered by variant, and of two keys ordered by their fields, unequal ones
/// have exactly one first and equal ones neither, so `cmp(a, b)` is the reverse of
/// `cmp(b, a)`.
pub proof fn law_key_order_consistent(a: Key, b: Key)
    ensures
        variant_rank(a) != variant_rank(b) ==> a.id() != b.id(),
        ordered_by_fields(a, b) ==> ordered_by_fields(b, a),
        ordered_by_fields(a, b) && a.id() == b.id() ==> !fields_before(a, b) && !fields_before(b, a),
        ordered_by_fields(a, b) && a.id() != b.id() ==> (fields_before(a, b) != fields_before(b, a)),
{
    match (a, b) {
        (Key::TypeNamed(t, _, n), Key::TypeNamed(u, _, m)) => {
            lemma_lex_asymmetric(n@, m@);
            lemma_lex_irreflexive(n@);
            if n@ != m@ {
                lemma_lex_total(n@, m@);
            }
        },
        (Key::Trait(x), Key::Trait(y)) => {
            lemma_lex_asymmetric(x@, y@);
            lemma_lex_irreflexive(x@);
            if x@ != y@ {
                lemma_lex_total(x@, y@);
            }
        },
        (Key::MultiTrait(x, i), Key::MultiTrait(y, j)) => {
            lemma_lex_asymmetric(x@, y@);
            lemma_lex_irreflexive(x@);
            if x@ != y@ {
                lemma_lex_total(x@, y@);
            }
        },
        (Key::TraitNamed(x, nx), Key::TraitNamed(y, ny)) => {
            lemma_lex_asymmetric(x@, y@);
            lemma_lex_irreflexive(x@);
            lemma_lex_asymmetric(nx@, ny@);
            lemma_lex_irreflexive(nx@);
            if x@ != y@ {
                lemma_lex_total(x@, y@);
            }
            if nx@ != ny@ {
                lemma_lex_total(nx@, ny@);
            }
        },
        (Key::MultiTraitNamed(x, nx, i), Key::MultiTraitNamed(y, ny, j)) => {
            lemma_lex_asymmetric(x@, y@);
            lemma_lex_irreflexive(x@);
            lemma_lex_asymmetric(nx@, ny@);
            lemma_lex_irreflexive(nx@);
            if x@ != y@ {
                lemma_lex_total(x@, y@);
            }
            if nx@ != ny@ {
                lemma_lex_total(nx@, ny@);
            }
        },
        _ => {},
    }
}

/// `a` comes before `b` in the key order: by the position of their variants, then by their
/// fields (`TypeId`s in std's order, names lexicographically, indices last).
pub open spec fn key_before(a: Key, b: Key) -> bool {
    if variant_rank(a) != variant_rank(b) {
        variant_rank(a) < variant_rank(b)
    } else {
        match (a, b) {
            (Key::Type(t, _), Key::Type(u, _)) => type_id_less(t, u),
            (Key::TypeNamed(t, _, n), Key::TypeNamed(u, _, m)) => type_id_less(t, u) || (t == u && lex_lt(
                n@,
                m@,
            )),
            _ => fields_before(a, b),
        }
    }
}

/// The order of two keys by the position of their variants alone.
fn variant_order(a: &Key, b: &Key) -> (r: Ordering)
    ensures
        variant_rank(*a) < variant_rank(*b) ==> r == Ordering::Less,
        variant_rank(*a) == variant_rank(*b) ==> r == Ordering::Equal,
        variant_rank(*a) > variant_rank(*b) ==> r == Ordering::Greater,
{
    index_order(variant_position(a), variant_position(b))
}

/// The position of a key's variant in the order.
fn variant_position(k: &Key) -> (r: usize)
    ensures
        r == variant_rank(*k),
{
    match k {
        Key::Type(..) => 0,
        Key::TypeNamed(..) => 1,
        Key::Trait(..) => 2,
        Key::MultiTrait(..) => 3,
        Key::TraitNamed(..) => 4,
        Key::MultiTraitNamed(..) => 5,
    }
}

} // verus!
