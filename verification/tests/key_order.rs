use std::any::TypeId;
use std::cmp::Ordering;
use ferrous_di::key::Key;

#[test]
fn concrete_types_come_first() {
    let t = Key::Type(TypeId::of::<u32>(), "u32");
    let named = Key::TypeNamed(TypeId::of::<u32>(), "u32", "port");
    let tr = Key::Trait("dyn Logger");
    assert_eq!(t.cmp(&named), Ordering::Less);
    assert_eq!(named.cmp(&tr), Ordering::Less);
    assert_eq!(tr.cmp(&t), Ordering::Greater);
    assert_eq!(tr.cmp(&named), Ordering::Greater);
}

#[test]
fn same_key_compares_equal() {
    let a = Key::Type(TypeId::of::<String>(), "String");
    let b = Key::Type(TypeId::of::<String>(), "another name");
    assert_eq!(a.cmp(&b), Ordering::Equal);
    assert_eq!(Key::Trait("x").cmp(&Key::Trait("x")), Ordering::Equal);
}

#[test]
fn trait_names_and_indices_order() {
    assert_eq!(Key::Trait("a").cmp(&Key::Trait("b")), Ordering::Less);
    assert_eq!(Key::MultiTrait("t", 1).cmp(&Key::MultiTrait("t", 2)), Ordering::Less);
    assert_eq!(Key::MultiTrait("t", 3).cmp(&Key::MultiTrait("t", 2)), Ordering::Greater);
    assert_eq!(
        Key::MultiTraitNamed("t", "n", 0).cmp(&Key::MultiTraitNamed("t", "n", 4)),
        Ordering::Less
    );
    assert_eq!(Key::TraitNamed("t", "a").cmp(&Key::TraitNamed("t", "b")), Ordering::Less);
}

#[test]
fn other_variants_are_ordered_by_variant() {
    assert_eq!(Key::Trait("x").cmp(&Key::MultiTrait("x", 0)), Ordering::Less);
    assert_eq!(Key::MultiTrait("x", 0).cmp(&Key::Trait("x")), Ordering::Greater);
    assert_eq!(Key::MultiTrait("z", 9).cmp(&Key::TraitNamed("a", "n")), Ordering::Less);
    assert_eq!(Key::TraitNamed("a", "n").cmp(&Key::MultiTraitNamed("z", "n", 9)), Ordering::Less);
    assert_eq!(Key::MultiTraitNamed("a", "n", 0).cmp(&Key::Trait("z")), Ordering::Greater);
}

#[test]
fn trait_names_compare_lexicographically() {
    assert_eq!(Key::Trait("apple").cmp(&Key::Trait("banana")), Ordering::Less);
    assert_eq!(Key::Trait("banana").cmp(&Key::Trait("apple")), Ordering::Greater);
    assert_eq!(Key::Trait("app").cmp(&Key::Trait("apple")), Ordering::Less);
    assert_eq!(Key::Trait("Zed").cmp(&Key::Trait("apple")), Ordering::Less);
}
