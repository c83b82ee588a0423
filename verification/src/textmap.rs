//! A map from strings to values, compared by their characters.
use vstd::prelude::*;
use crate::support::str_eq;

verus! {

/// Whether no two entries have the same key identity.
pub open spec fn unique_texts<V>(s: Seq<(String, V)>) -> bool {
    forall|i: int, j: int|
        0 <= i < s.len() && 0 <= j < s.len() && i != j ==> #[trigger] s[i].0@ != #[trigger] s[j].0@
}

/// Whether some entry has identity `id`.
pub open spec fn has_text<V>(s: Seq<(String, V)>, id: Seq<char>) -> bool {
    exists|i: int| 0 <= i < s.len() && #[trigger] s[i].0@ == id
}

/// The value bound to identity `id` (meaningful when `has_text`).
pub open spec fn text_value_of<V>(s: Seq<(String, V)>, id: Seq<char>) -> V {
    s[choose|i: int| 0 <= i < s.len() && #[trigger] s[i].0@ == id].1
}

/// Position of the entry with text `id` (meaningful when `has_text`).
pub open spec fn text_position_of<V>(s: Seq<(String, V)>, id: Seq<char>) -> int {
    choose|i: int| 0 <= i < s.len() && #[trigger] s[i].0@ == id
}

/// The entries after binding `key` to `value`: the entry with the same text keeps its place
/// and its key and takes the value; without one, the pair is appended.
#[verifier::opaque]
pub open spec fn text_entries_after_insert<V>(s: Seq<(String, V)>, key: String, value: V) -> Seq<(String, V)> {
    if has_text(s, key@) {
        s.update(text_position_of(s, key@), (s[text_position_of(s, key@)].0, value))
    } else {
        s.push((key, value))
    }
}

/// The entries as a map from key identity to value.
pub open spec fn text_entries_map<V>(s: Seq<(String, V)>) -> Map<Seq<char>, V> {
    Map::new(|id: Seq<char>| has_text(s, id), |id: Seq<char>| text_value_of(s, id))
}

/// In entries with unique identities, the value for the identity of entry `i` is entry
/// `i`'s value.
pub proof fn lemma_text_value_at<V>(s: Seq<(String, V)>, i: int)
    requires
        unique_texts(s),
        0 <= i < s.len(),
    ensures
        has_text(s, s[i].0@),
        text_value_of(s, s[i].0@) == s[i].1,
        text_entries_map(s).contains_key(s[i].0@),
        text_entries_map(s)[s[i].0@] == s[i].1,
{
    let id = s[i].0@;
    assert(s[i].0@ == id);
    let j = choose|j: int| 0 <= j < s.len() && #[trigger] s[j].0@ == id;
    assert(i == j);
}

/// Pushing an entry with a fresh identity binds it and keeps the rest.
#[verifier::rlimit(30)]
pub proof fn lemma_text_push<V>(s: Seq<(String, V)>, k: String, v: V)
    requires
        unique_texts(s),
        !has_text(s, k@),
    ensures
        unique_texts(s.push((k, v))),
        text_entries_map(s.push((k, v))) =~= text_entries_map(s).insert(k@, v),
{
    let t = s.push((k, v));
    assert(unique_texts(t)) by {
        assert forall|i: int, j: int|
            0 <= i < t.len() && 0 <= j < t.len() && i != j implies #[trigger] t[i].0@
                != #[trigger] t[j].0@ by {
            if i < s.len() && j < s.len() {
                assert(t[i] == s[i] && t[j] == s[j]);
            } else if i == s.len() {
                assert(t[j] == s[j]);
                assert(t[i].0@ == k@);
                assert(s[j].0@ != k@);
            } else {
                assert(t[i] == s[i]);
                assert(t[j].0@ == k@);
                assert(s[i].0@ != k@);
            }
        }
    }
    assert forall|id: Seq<char>| #[trigger] text_entries_map(t).contains_key(id) == text_entries_map(
        s,
    ).insert(k@, v).contains_key(id) by {
        if has_text(s, id) {
            let i = choose|i: int| 0 <= i < s.len() && #[trigger] s[i].0@ == id;
            assert(t[i] == s[i]);
        }
        if has_text(t, id) && id != k@ {
            let i = choose|i: int| 0 <= i < t.len() && #[trigger] t[i].0@ == id;
            assert(i < s.len());
            assert(t[i] == s[i]);
        }
        if id == k@ {
            assert(t[s.len() as int].0@ == id);
        }
    }
    assert forall|id: Seq<char>| #[trigger] text_entries_map(t).contains_key(id) implies text_entries_map(t)[id]
        == text_entries_map(s).insert(k@, v)[id] by {
        if id == k@ {
            lemma_text_value_at(t, s.len() as int);
        } else {
            let i = choose|i: int| 0 <= i < t.len() && #[trigger] t[i].0@ == id;
            assert(i < s.len());
            assert(t[i] == s[i]);
            lemma_text_value_at(t, i);
            lemma_text_value_at(s, i);
        }
    }
}

/// Replacing the value of entry `i` (keeping its key) rebinds that identity only.
pub proof fn lemma_text_update<V>(s: Seq<(String, V)>, i: int, k: String, v: V)
    requires
        unique_texts(s),
        0 <= i < s.len(),
        s[i].0@ == k@,
    ensures
        unique_texts(s.update(i, (k, v))),
        text_entries_map(s.update(i, (k, v))) =~= text_entries_map(s).insert(k@, v),
{
    let t = s.update(i, (k, v));
    assert(unique_texts(t)) by {
        assert forall|a: int, b: int|
            0 <= a < t.len() && 0 <= b < t.len() && a != b implies #[trigger] t[a].0@
                != #[trigger] t[b].0@ by {
            assert(t[a].0@ == s[a].0@);
            assert(t[b].0@ == s[b].0@);
        }
    }
    assert forall|id: Seq<char>| #[trigger] text_entries_map(t).contains_key(id) == text_entries_map(
        s,
    ).insert(k@, v).contains_key(id) by {
        if has_text(s, id) {
            let j = choose|j: int| 0 <= j < s.len() && #[trigger] s[j].0@ == id;
            assert(t[j].0@ == s[j].0@);
        }
        if has_text(t, id) {
            let j = choose|j: int| 0 <= j < t.len() && #[trigger] t[j].0@ == id;
            assert(t[j].0@ == s[j].0@);
        }
        assert(t[i].0@ == k@);
    }
    assert forall|id: Seq<char>| #[trigger] text_entries_map(t).contains_key(id) implies text_entries_map(t)[id]
        == text_entries_map(s).insert(k@, v)[id] by {
        let j = choose|j: int| 0 <= j < t.len() && #[trigger] t[j].0@ == id;
        assert(t[j].0@ == s[j].0@);
        lemma_text_value_at(t, j);
        if j != i {
            lemma_text_value_at(s, j);
        }
    }
}

/// Removing entry `i` unbinds its identity only.
#[verifier::rlimit(30)]
pub proof fn lemma_text_remove<V>(s: Seq<(String, V)>, i: int)
    requires
        unique_texts(s),
        0 <= i < s.len(),
    ensures
        unique_texts(s.remove(i)),
        text_entries_map(s.remove(i)) =~= text_entries_map(s).remove(s[i].0@),
{
    let t = s.remove(i);
    let rid = s[i].0@;
    assert forall|a: int| 0 <= a < t.len() implies #[trigger] t[a] == s[if a < i { a } else { a + 1 }] by {
    }
    assert(unique_texts(t)) by {
        assert forall|a: int, b: int|
            0 <= a < t.len() && 0 <= b < t.len() && a != b implies #[trigger] t[a].0@
                != #[trigger] t[b].0@ by {
            let sa = if a < i { a } else { a + 1 };
            let sb = if b < i { b } else { b + 1 };
            assert(t[a] == s[sa]);
            assert(t[b] == s[sb]);
        }
    }
    assert forall|id| #[trigger] text_entries_map(t).contains_key(id) == text_entries_map(s).remove(rid).contains_key(id) by {
        if has_text(t, id) {
            let a = choose|a: int| 0 <= a < t.len() && #[trigger] t[a].0@ == id;
            let sa = if a < i { a } else { a + 1 };
            assert(t[a] == s[sa]);
            assert(s[sa].0@ != rid);
        }
        if has_text(s, id) && id != rid {
            let c = choose|c: int| 0 <= c < s.len() && #[trigger] s[c].0@ == id;
            assert(c != i);
            let ta = if c < i { c } else { c - 1 };
            assert(t[ta] == s[c]);
        }
    }
    assert forall|id| #[trigger] text_entries_map(t).contains_key(id) implies text_entries_map(t)[id] == text_entries_map(s).remove(rid)[id] by {
        let a = choose|a: int| 0 <= a < t.len() && #[trigger] t[a].0@ == id;
        let sa = if a < i { a } else { a + 1 };
        assert(t[a] == s[sa]);
        lemma_text_value_at(t, a);
        lemma_text_value_at(s, sa);
    }
}

/// A map from strings to values; keys are compared by their characters.
pub struct TextMap<V> {
    entries: Vec<(String, V)>,
}

impl<V> TextMap<V> {
    /// The entries, in the order they were first inserted.
    pub closed spec fn entries(&self) -> Seq<(String, V)> {
        self.entries@
    }

    /// The map from key identity to value.
    pub open spec fn view(&self) -> Map<Seq<char>, V> {
        text_entries_map(self.entries())
    }

    /// No identity occurs twice.
    pub open spec fn wf(&self) -> bool {
        unique_texts(self.entries())
    }

    /// An empty map.
    pub fn new() -> (m: TextMap<V>)
        ensures
            m.wf(),
            m.entries() == Seq::<(String, V)>::empty(),
            m.view() == Map::<Seq<char>, V>::empty(),
    {
        let m = TextMap { entries: Vec::new() };
        assert(m.view() =~= Map::<Seq<char>, V>::empty());
        m
    }

    /// Number of entries.
    pub fn len(&self) -> (n: usize)
        ensures
            n == self.entries().len(),
    {
        self.entries.len()
    }

    /// Position of the entry for `key`.
    pub fn index_of(&self, key: &str) -> (r: Option<usize>)
        requires
            self.wf(),
        ensures
            r is None <==> !self.view().contains_key(key@),
            r matches Some(i) ==> i < self.entries().len() && self.entries()[i as int].0@
                == key@,
    {
        let mut i: usize = 0;
        while i < self.entries.len()
            invariant
                0 <= i <= self.entries@.len(),
                forall|j: int| 0 <= j < i ==> #[trigger] self.entries@[j].0@ != key@,
            decreases self.entries@.len() - i,
        {
            if str_eq(self.entries[i].0.as_str(), key) {
                return Some(i);
            }
            i = i + 1;
        }
        None
    }

    /// Whether `key` has an entry.
    pub fn contains_key(&self, key: &str) -> (r: bool)
        requires
            self.wf(),
        ensures
            r == self.view().contains_key(key@),
    {
        self.index_of(key).is_some()
    }

    /// The value for `key`.
    pub fn get(&self, key: &str) -> (r: Option<&V>)
        requires
            self.wf(),
        ensures
            r is None <==> !self.view().contains_key(key@),
            r matches Some(v) ==> *v == self.view()[key@],
    {
        match self.index_of(key) {
            Some(i) => {
                proof {
                    lemma_text_value_at(self.entries(), i as int);
                }
                Some(&self.entries[i].1)
            },
            None => None,
        }
    }

    /// The entry at position `i`.
    pub fn entry_at(&self, i: usize) -> (r: (&String, &V))
        requires
            i < self.entries().len(),
        ensures
            *r.0 == self.entries()[i as int].0,
            *r.1 == self.entries()[i as int].1,
    {
        let e = &self.entries[i];
        (&e.0, &e.1)
    }

    /// Binds `key` to `value`: an existing entry for the key keeps its place and gets the
    /// new value, otherwise the entry is appended. Returns whether the key was present.
    pub fn insert(&mut self, key: String, value: V) -> (was_present: bool)
        requires
            old(self).wf(),
        ensures
            final(self).wf(),
            final(self).view() == old(self).view().insert(key@, value),
            was_present == old(self).view().contains_key(key@),
            final(self).entries().len() == old(self).entries().len() + (if was_present {
                0int
            } else {
                1int
            }),
            was_present ==> forall|j: int|
                0 <= j < old(self).entries().len() ==> #[trigger] final(self).entries()[j].0
                    == old(self).entries()[j].0,
            !was_present ==> final(self).entries() == old(self).entries().push((key, value)),
            final(self).entries() == text_entries_after_insert(old(self).entries(), key, value),
    {
        proof {
            reveal(text_entries_after_insert);
        }
        match self.index_of(key.as_str()) {
            Some(i) => {
                proof {
                    lemma_text_value_at(self.entries(), i as int);
                    let s = self.entries();
                    let j = text_position_of(s, key@);
                    assert(s[j].0@ == key@);
                    assert(j == i);
                }
                self.replace_at(i, value);
                true
            },
            None => {
                proof {
                    lemma_text_push(self.entries(), key, value);
                }
                self.entries.push((key, value));
                false
            },
        }
    }

    /// Replaces the value at position `i`, keeping its key, and returns the old value.
    pub fn replace_at(&mut self, i: usize, value: V) -> (prev: V)
        requires
            old(self).wf(),
            i < old(self).entries().len(),
        ensures
            final(self).wf(),
            final(self).entries() == old(self).entries().update(
                i as int,
                (old(self).entries()[i as int].0, value),
            ),
            final(self).view() == old(self).view().insert(
                old(self).entries()[i as int].0@,
                value,
            ),
            prev == old(self).entries()[i as int].1,
    {
        let ghost before = self.entries();
        let (k, prev) = self.entries.remove(i);
        self.entries.insert(i, (k, value));
        proof {
            assert(self.entries() =~= before.update(i as int, (k, value)));
            lemma_text_update(before, i as int, k, value);
        }
        prev
    }

    /// Removes the entry for `key`, returning its value.
    pub fn remove(&mut self, key: &str) -> (r: Option<V>)
        requires
            old(self).wf(),
        ensures
            final(self).wf(),
            final(self).view() == old(self).view().remove(key@),
            r is None <==> !old(self).view().contains_key(key@),
            r matches Some(v) ==> v == old(self).view()[key@],
    {
        match self.index_of(key) {
            Some(i) => {
                proof {
                    lemma_text_value_at(self.entries(), i as int);
                    lemma_text_remove(self.entries(), i as int);
                }
                let (_, v) = self.entries.remove(i);
                Some(v)
            },
            None => {
                assert(old(self).view().remove(key@) =~= old(self).view());
                None
            },
        }
    }

    /// A copy of the map.
    pub fn copy_map(&self) -> (r: TextMap<V>) where V: Copy
        ensures
            r.entries() == self.entries(),
            r.view() == self.view(),
    {
        let mut entries: Vec<(String, V)> = Vec::new();
        let mut i: usize = 0;
        while i < self.entries.len()
            invariant
                0 <= i <= self.entries@.len(),
                entries@ == self.entries@.take(i as int),
            decreases self.entries@.len() - i,
        {
            let (k, v) = &self.entries[i];
            entries.push((k.clone(), *v));
            proof {
                assert(entries@ =~= self.entries@.take(i + 1));
            }
            i = i + 1;
        }
        proof {
            assert(self.entries@.take(self.entries@.len() as int) =~= self.entries@);
        }
        TextMap { entries }
    }

    /// Removes every entry.
    pub fn clear(&mut self)
        ensures
            final(self).wf(),
            final(self).view() == Map::<Seq<char>, V>::empty(),
            final(self).entries().len() == 0,
    {
        self.entries = Vec::new();
        assert(self.view() =~= Map::<Seq<char>, V>::empty());
    }
}

} // verus!
