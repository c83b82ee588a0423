//! A map from service keys to values, compared by key identity.
use vstd::prelude::*;
use crate::key::{Key, KeyId};

verus! {

/// Whether no two entries have the same key identity.
pub open spec fn unique_ids<V>(s: Seq<(Key, V)>) -> bool {
    forall|i: int, j: int|
        0 <= i < s.len() && 0 <= j < s.len() && i != j ==> #[trigger] s[i].0.id() != #[trigger] s[j].0.id()
}

/// Whether some entry has identity `id`.
pub open spec fn has_id<V>(s: Seq<(Key, V)>, id: KeyId) -> bool {
    exists|i: int| 0 <= i < s.len() && #[trigger] s[i].0.id() == id
}

/// The value bound to identity `id` (meaningful when `has_id`).
pub open spec fn value_of<V>(s: Seq<(Key, V)>, id: KeyId) -> V {
    s[choose|i: int| 0 <= i < s.len() && #[trigger] s[i].0.id() == id].1
}

/// Position of the entry with identity `id` (meaningful when `has_id`).
pub open spec fn position_of<V>(s: Seq<(Key, V)>, id: KeyId) -> int {
    choose|i: int| 0 <= i < s.len() && #[trigger] s[i].0.id() == id
}

/// The entries after binding `key` to `value`: the entry of the same identity keeps its
/// place and its key and takes the value; without one, the pair is appended.
#[verifier::opaque]
pub open spec fn entries_after_insert<V>(s: Seq<(Key, V)>, key: Key, value: V) -> Seq<(Key, V)> {
    if has_id(s, key.id()) {
        s.update(position_of(s, key.id()), (s[position_of(s, key.id())].0, value))
    } else {
        s.push((key, value))
    }
}

/// The entries as a map from key identity to value.
pub open spec fn entries_map<V>(s: Seq<(Key, V)>) -> Map<KeyId, V> {
    Map::new(|id: KeyId| has_id(s, id), |id: KeyId| value_of(s, id))
}

/// In entries with unique identities, the value for the identity of entry `i` is entry
/// `i`'s value.
pub proof fn lemma_value_at<V>(s: Seq<(Key, V)>, i: int)
    requires
        unique_ids(s),
        0 <= i < s.len(),
    ensures
        has_id(s, s[i].0.id()),
        value_of(s, s[i].0.id()) == s[i].1,
        entries_map(s).contains_key(s[i].0.id()),
        entries_map(s)[s[i].0.id()] == s[i].1,
{
    let id = s[i].0.id();
    assert(s[i].0.id() == id);
    let j = choose|j: int| 0 <= j < s.len() && #[trigger] s[j].0.id() == id;
    assert(i == j);
}

/// Pushing an entry with a fresh identity binds it and keeps the rest.
#[verifier::rlimit(30)]
pub proof fn lemma_push<V>(s: Seq<(Key, V)>, k: Key, v: V)
    requires
        unique_ids(s),
        !has_id(s, k.id()),
    ensures
        unique_ids(s.push((k, v))),
        entries_map(s.push((k, v))) =~= entries_map(s).insert(k.id(), v),
{
    let t = s.push((k, v));
    assert(unique_ids(t)) by {
        assert forall|i: int, j: int|
            0 <= i < t.len() && 0 <= j < t.len() && i != j implies #[trigger] t[i].0.id()
                != #[trigger] t[j].0.id() by {
            if i < s.len() && j < s.len() {
                assert(t[i] == s[i] && t[j] == s[j]);
            } else if i == s.len() {
                assert(t[j] == s[j]);
                assert(t[i].0.id() == k.id());
                assert(s[j].0.id() != k.id());
            } else {
                assert(t[i] == s[i]);
                assert(t[j].0.id() == k.id());
                assert(s[i].0.id() != k.id());
            }
        }
    }
    assert forall|id: KeyId| #[trigger] entries_map(t).contains_key(id) == entries_map(
        s,
    ).insert(k.id(), v).contains_key(id) by {
        if has_id(s, id) {
            let i = choose|i: int| 0 <= i < s.len() && #[trigger] s[i].0.id() == id;
            assert(t[i] == s[i]);
        }
        if has_id(t, id) && id != k.id() {
            let i = choose|i: int| 0 <= i < t.len() && #[trigger] t[i].0.id() == id;
            assert(i < s.len());
            assert(t[i] == s[i]);
        }
        if id == k.id() {
            assert(t[s.len() as int].0.id() == id);
        }
    }
    assert forall|id: KeyId| #[trigger] entries_map(t).contains_key(id) implies entries_map(t)[id]
        == entries_map(s).insert(k.id(), v)[id] by {
        if id == k.id() {
            lemma_value_at(t, s.len() as int);
        } else {
            let i = choose|i: int| 0 <= i < t.len() && #[trigger] t[i].0.id() == id;
            assert(i < s.len());
            assert(t[i] == s[i]);
            lemma_value_at(t, i);
            lemma_value_at(s, i);
        }
    }
}

/// Replacing the value of entry `i` (keeping its key) rebinds that identity only.
pub proof fn lemma_update<V>(s: Seq<(Key, V)>, i: int, k: Key, v: V)
    requires
        unique_ids(s),
        0 <= i < s.len(),
        s[i].0.id() == k.id(),
    ensures
        unique_ids(s.update(i, (k, v))),
        entries_map(s.update(i, (k, v))) =~= entries_map(s).insert(k.id(), v),
{
    let t = s.update(i, (k, v));
    assert(unique_ids(t)) by {
        assert forall|a: int, b: int|
            0 <= a < t.len() && 0 <= b < t.len() && a != b implies #[trigger] t[a].0.id()
                != #[trigger] t[b].0.id() by {
            assert(t[a].0.id() == s[a].0.id());
            assert(t[b].0.id() == s[b].0.id());
        }
    }
    assert forall|id: KeyId| #[trigger] entries_map(t).contains_key(id) == entries_map(
        s,
    ).insert(k.id(), v).contains_key(id) by {
        if has_id(s, id) {
            let j = choose|j: int| 0 <= j < s.len() && #[trigger] s[j].0.id() == id;
            assert(t[j].0.id() == s[j].0.id());
        }
        if has_id(t, id) {
            let j = choose|j: int| 0 <= j < t.len() && #[trigger] t[j].0.id() == id;
            assert(t[j].0.id() == s[j].0.id());
        }
        assert(t[i].0.id() == k.id());
    }
    assert forall|id: KeyId| #[trigger] entries_map(t).contains_key(id) implies entries_map(t)[id]
        == entries_map(s).insert(k.id(), v)[id] by {
        let j = choose|j: int| 0 <= j < t.len() && #[trigger] t[j].0.id() == id;
        assert(t[j].0.id() == s[j].0.id());
        lemma_value_at(t, j);
        if j != i {
            lemma_value_at(s, j);
        }
    }
}

/// Removing entry `i` unbinds its identity only.
#[verifier::rlimit(30)]
pub proof fn lemma_remove<V>(s: Seq<(Key, V)>, i: int)
    requires
        unique_ids(s),
        0 <= i < s.len(),
    ensures
        unique_ids(s.remove(i)),
        entries_map(s.remove(i)) =~= entries_map(s).remove(s[i].0.id()),
{
    let t = s.remove(i);
    let rid = s[i].0.id();
    assert forall|a: int| 0 <= a < t.len() implies #[trigger] t[a] == s[if a < i { a } else { a + 1 }] by {
    }
    assert(unique_ids(t)) by {
        assert forall|a: int, b: int|
            0 <= a < t.len() && 0 <= b < t.len() && a != b implies #[trigger] t[a].0.id()
                != #[trigger] t[b].0.id() by {
            let sa = if a < i { a } else { a + 1 };
            let sb = if b < i { b } else { b + 1 };
            assert(t[a] == s[sa]);
            assert(t[b] == s[sb]);
        }
    }
    assert forall|id| #[trigger] entries_map(t).contains_key(id) == entries_map(s).remove(rid).contains_key(id) by {
        if has_id(t, id) {
            let a = choose|a: int| 0 <= a < t.len() && #[trigger] t[a].0.id() == id;
            let sa = if a < i { a } else { a + 1 };
            assert(t[a] == s[sa]);
            assert(s[sa].0.id() != rid);
        }
        if has_id(s, id) && id != rid {
            let c = choose|c: int| 0 <= c < s.len() && #[trigger] s[c].0.id() == id;
            assert(c != i);
            let ta = if c < i { c } else { c - 1 };
            assert(t[ta] == s[c]);
        }
    }
    assert forall|id| #[trigger] entries_map(t).contains_key(id) implies entries_map(t)[id] == entries_map(s).remove(rid)[id] by {
        let a = choose|a: int| 0 <= a < t.len() && #[trigger] t[a].0.id() == id;
        let sa = if a < i { a } else { a + 1 };
        assert(t[a] == s[sa]);
        lemma_value_at(t, a);
        lemma_value_at(s, sa);
    }
}

/// A map from service keys to values. Keys are compared by identity (`Key::id`), so two
/// keys for the same type with different display names are the same entry.
pub struct KeyMap<V> {
    entries: Vec<(Key, V)>,
}

impl<V> KeyMap<V> {
    /// The entries, in the order they were first inserted.
    pub closed spec fn entries(&self) -> Seq<(Key, V)> {
        self.entries@
    }

    /// The map from key identity to value.
    pub open spec fn view(&self) -> Map<KeyId, V> {
        entries_map(self.entries())
    }

    /// No identity occurs twice.
    pub open spec fn wf(&self) -> bool {
        unique_ids(self.entries())
    }

    /// An empty map.
    pub fn new() -> (m: KeyMap<V>)
        ensures
            m.wf(),
            m.entries() == Seq::<(Key, V)>::empty(),
            m.view() == Map::<KeyId, V>::empty(),
    {
        let m = KeyMap { entries: Vec::new() };
        assert(m.view() =~= Map::<KeyId, V>::empty());
        m
    }

    /// Number of entries.
    pub fn len(&self) -> (n: usize)
        ensures
            n == self.entries().len(),
    {
        self.entries.len()
    }

    /// Position of the entry for `key`.
    pub fn index_of(&self, key: &Key) -> (r: Option<usize>)
        requires
            self.wf(),
        ensures
            r is None <==> !self.view().contains_key(key.id()),
            r matches Some(i) ==> i < self.entries().len() && self.entries()[i as int].0.id()
                == key.id(),
    {
        let mut i: usize = 0;
        while i < self.entries.len()
            invariant
                0 <= i <= self.entries@.len(),
                forall|j: int| 0 <= j < i ==> #[trigger] self.entries@[j].0.id() != key.id(),
            decreases self.entries@.len() - i,
        {
            if self.entries[i].0.same_as(key) {
                return Some(i);
            }
            i = i + 1;
        }
        None
    }

    /// Whether `key` has an entry.
    pub fn contains_key(&self, key: &Key) -> (r: bool)
        requires
            self.wf(),
        ensures
            r == self.view().contains_key(key.id()),
    {
        self.index_of(key).is_some()
    }

    /// The value for `key`.
    pub fn get(&self, key: &Key) -> (r: Option<&V>)
        requires
            self.wf(),
        ensures
            r is None <==> !self.view().contains_key(key.id()),
            r matches Some(v) ==> *v == self.view()[key.id()],
    {
        match self.index_of(key) {
            Some(i) => {
                proof {
                    lemma_value_at(self.entries(), i as int);
                }
                Some(&self.entries[i].1)
            },
            None => None,
        }
    }

    /// The entry at position `i`.
    pub fn entry_at(&self, i: usize) -> (r: (&Key, &V))
        requires
            i < self.entries().len(),
        ensures
            *r.0 == self.entries()[i as int].0,
            *r.1 == self.entries()[i as int].1,
    {
        let e = &self.entries[i];
        (&e.0, &e.1)
    }

    /// Binds `key` to `value`: an existing entry for the key keeps its place and gets the
    /// new value, otherwise the entry is appended. Returns whether the key was present.
    pub fn insert(&mut self, key: Key, value: V) -> (was_present: bool)
        requires
            old(self).wf(),
        ensures
            final(self).wf(),
            final(self).view() == old(self).view().insert(key.id(), value),
            was_present == old(self).view().contains_key(key.id()),
            final(self).entries().len() == old(self).entries().len() + (if was_present {
                0int
            } else {
                1int
            }),
            was_present ==> forall|j: int|
                0 <= j < old(self).entries().len() ==> #[trigger] final(self).entries()[j].0
                    == old(self).entries()[j].0,
            !was_present ==> final(self).entries() == old(self).entries().push((key, value)),
            final(self).entries() == entries_after_insert(old(self).entries(), key, value),
    {
        proof {
            reveal(entries_after_insert);
        }
        match self.index_of(&key) {
            Some(i) => {
                let old_key = self.entries[i].0;
                proof {
                    lemma_update(self.entries(), i as int, old_key, value);
                    assert(old_key.id() == key.id());
                    let s = self.entries();
                    assert(has_id(s, key.id()));
                    let j = position_of(s, key.id());
                    assert(s[j].0.id() == key.id());
                    assert(j == i);
                }
                self.entries.set(i, (old_key, value));
                true
            },
            None => {
                proof {
                    lemma_push(self.entries(), key, value);
                }
                self.entries.push((key, value));
                false
            },
        }
    }

    /// Replaces the value at position `i`, keeping its key, and returns the old value.
    pub fn replace_at(&mut self, i: usize, value: V) -> (prev: V)
        requires
            old(self).wf(),
            i < old(self).entries().len(),
        ensures
            final(self).wf(),
            final(self).entries() == old(self).entries().update(
                i as int,
                (old(self).entries()[i as int].0, value),
            ),
            final(self).view() == old(self).view().insert(
                old(self).entries()[i as int].0.id(),
                value,
            ),
            prev == old(self).entries()[i as int].1,
    {
        let ghost before = self.entries();
        let (k, prev) = self.entries.remove(i);
        self.entries.insert(i, (k, value));
        proof {
            assert(self.entries() =~= before.update(i as int, (k, value)));
            lemma_update(before, i as int, k, value);
        }
        prev
    }

    /// Removes the entry for `key`, returning its value.
    pub fn remove(&mut self, key: &Key) -> (r: Option<V>)
        requires
            old(self).wf(),
        ensures
            final(self).wf(),
            final(self).view() == old(self).view().remove(key.id()),
            r is None <==> !old(self).view().contains_key(key.id()),
            r matches Some(v) ==> v == old(self).view()[key.id()],
    {
        match self.index_of(key) {
            Some(i) => {
                proof {
                    lemma_value_at(self.entries(), i as int);
                    lemma_remove(self.entries(), i as int);
                }
                let (_, v) = self.entries.remove(i);
                Some(v)
            },
            None => {
                assert(old(self).view().remove(key.id()) =~= old(self).view());
                None
            },
        }
    }

    /// The value at position `i`, for changing in place; the entry keeps its key.
    pub fn value_at_mut(&mut self, i: usize) -> (r: &mut V)
        requires
            i < old(self).entries().len(),
        ensures
            *r == old(self).entries()[i as int].1,
            final(self).entries() == old(self).entries().update(i as int, (old(self).entries()[i as int].0, *final(r))),
    {
        &mut self.entries[i].1
    }

    /// Removes the entry at position `i` and returns it.
    pub fn remove_at(&mut self, i: usize) -> (r: (Key, V))
        requires
            old(self).wf(),
            i < old(self).entries().len(),
        ensures
            final(self).wf(),
            r == old(self).entries()[i as int],
            final(self).entries() == old(self).entries().remove(i as int),
            final(self).view() == old(self).view().remove(r.0.id()),
    {
        proof {
            lemma_remove(self.entries(), i as int);
        }
        self.entries.remove(i)
    }

    /// Removes every entry.
    pub fn clear(&mut self)
        ensures
            final(self).wf(),
            final(self).view() == Map::<KeyId, V>::empty(),
            final(self).entries().len() == 0,
    {
        self.entries = Vec::new();
        assert(self.view() =~= Map::<KeyId, V>::empty());
    }
}

} // verus!
