//! Services to pre-initialize at startup, and the readiness report of a start.
use vstd::prelude::*;
use std::any::TypeId;
use crate::key::Key;
use crate::support::{type_id_eq, str_eq};
use crate::time::Duration;

verus! {

/// The services marked for pre-warming: concrete types and trait names, each once.
pub struct PrewarmSet {
    types: Vec<TypeId>,
    traits: Vec<&'static str>,
}

impl PrewarmSet {
    /// The marked types.
    pub closed spec fn type_set(&self) -> Set<TypeId> {
        self.types@.to_set()
    }

    /// The marked trait names, in order of marking.
    pub closed spec fn trait_names(&self) -> Seq<&'static str> {
        self.traits@
    }

    /// Each type and each trait name is marked once.
    pub closed spec fn wf(&self) -> bool {
        &&& self.types@.no_duplicates()
        &&& forall|i: int, j: int| 0 <= i < j < self.traits@.len() ==> (#[trigger] self.traits@[i])@ != (#[trigger] self.traits@[j])@
    }

    /// Nothing marked.
    pub fn new() -> (s: PrewarmSet)
        ensures
            s.wf(),
            s.type_set() == Set::<TypeId>::empty(),
            s.trait_names().len() == 0,
    {
        let s = PrewarmSet { types: Vec::new(), traits: Vec::new() };
        assert(s.type_set() =~= Set::<TypeId>::empty());
        s
    }

    /// Marks a concrete type (marking it again changes nothing).
    pub fn add_type_id(&mut self, id: TypeId)
        requires
            old(self).wf(),
        ensures
            final(self).wf(),
            final(self).type_set() == old(self).type_set().insert(id),
            final(self).trait_names() == old(self).trait_names(),
    {
        let mut found = false;
        let mut i: usize = 0;
        while i < self.types.len() && !found
            invariant
                0 <= i <= self.types@.len(),
                self.types@ == old(self).types@,
                self.traits@ == old(self).traits@,
                found ==> self.types@.contains(id),
                !found ==> forall|j: int| 0 <= j < i ==> self.types@[j] != id,
            decreases self.types@.len() - i,
        {
            if type_id_eq(&self.types[i], &id) {
                found = true;
                assert(self.types@[i as int] == id);
            }
            i = i + 1;
        }
        if found {
            assert(self.type_set().insert(id) =~= self.type_set());
        } else {
            let ghost before = self.types@;
            self.types.push(id);
            proof {
                assert forall|x: TypeId| #[trigger] self.types@.to_set().contains(x) == before.to_set().insert(id).contains(x) by {
                    if x != id && self.types@.contains(x) {
                        let k = choose|k: int| 0 <= k < self.types@.len() && self.types@[k] == x;
                        assert(before[k] == x);
                    }
                    if before.contains(x) {
                        let k = choose|k: int| 0 <= k < before.len() && before[k] == x;
                        assert(self.types@[k] == x);
                    }
                    if x == id {
                        assert(self.types@[before.len() as int] == id);
                    }
                }
                assert(self.types@.to_set() =~= before.to_set().insert(id));
                assert forall|a: int, b: int| 0 <= a < self.types@.len() && 0 <= b < self.types@.len() && a != b
                    implies self.types@[a] != self.types@[b] by {
                    if a < before.len() && b < before.len() {
                    } else if a == before.len() {
                        assert(self.types@[b] == before[b]);
                    } else {
                        assert(self.types@[a] == before[a]);
                    }
                }
            }
        }
    }

    /// Marks a trait by name (marking it again changes nothing).
    pub fn add_trait_name(&mut self, name: &'static str)
        requires
            old(self).wf(),
        ensures
            final(self).wf(),
            final(self).type_set() == old(self).type_set(),
            (exists|k: int| 0 <= k < old(self).trait_names().len() && (#[trigger] old(self).trait_names()[k])@ == name@)
                ==> final(self).trait_names() == old(self).trait_names(),
            !(exists|k: int| 0 <= k < old(self).trait_names().len() && (#[trigger] old(self).trait_names()[k])@ == name@)
                ==> final(self).trait_names() == old(self).trait_names().push(name),
    {
        let mut found = false;
        let mut i: usize = 0;
        while i < self.traits.len() && !found
            invariant
                0 <= i <= self.traits@.len(),
                self.types@ == old(self).types@,
                self.traits@ == old(self).traits@,
                found ==> exists|k: int| 0 <= k < self.traits@.len() && (#[trigger] self.traits@[k])@ == name@,
                !found ==> forall|j: int| 0 <= j < i ==> (#[trigger] self.traits@[j])@ != name@,
            decreases self.traits@.len() - i,
        {
            if str_eq(self.traits[i], name) {
                found = true;
            }
            i = i + 1;
        }
        if !found {
            self.traits.push(name);
        }
    }

    /// Whether anything is marked.
    pub fn has_services(&self) -> (r: bool)
        requires
            self.wf(),
        ensures
            r == (self.type_set().len() > 0 || self.trait_names().len() > 0),
    {
        proof {
            self.types@.unique_seq_to_set();
        }
        self.types.len() > 0 || self.traits.len() > 0
    }

    /// The keys to pre-warm: a trait key per marked trait name, in order (a concrete type
    /// cannot be named from its identity alone, so types give no key).
    pub fn get_keys(&self) -> (r: Vec<Key>)
        ensures
            r@.len() == self.trait_names().len(),
            forall|i: int| 0 <= i < r@.len() ==> #[trigger] r@[i] == Key::Trait(self.trait_names()[i]),
    {
        let mut keys: Vec<Key> = Vec::new();
        let mut i: usize = 0;
        while i < self.traits.len()
            invariant
                0 <= i <= self.traits@.len(),
                keys@.len() == i,
                forall|j: int| 0 <= j < i ==> #[trigger] keys@[j] == Key::Trait(self.traits@[j]),
            decreases self.traits@.len() - i,
        {
            keys.push(Key::Trait(self.traits[i]));
            i = i + 1;
        }
        keys
    }
}

/// The outcome of readying one service.
pub struct ReadinessResult {
    /// The service key that was checked
    pub key: Key,
    /// Whether the service is ready
    pub success: bool,
    /// Error message if the service failed readiness check
    pub error: Option<String>,
    /// Time taken for the readiness check
    pub duration: Duration,
}

impl ReadinessResult {
    /// A successful check.
    pub fn success(key: Key, duration: Duration) -> (r: ReadinessResult)
        ensures
            r.key == key,
            r.success,
            r.error is None,
            r.duration == duration,
    {
        ReadinessResult { key, success: true, error: None, duration }
    }

    /// A failed check with its error.
    pub fn failure(key: Key, error: String, duration: Duration) -> (r: ReadinessResult)
        ensures
            r.key == key,
            !r.success,
            r.error == Some(error),
            r.duration == duration,
    {
        ReadinessResult { key, success: false, error: Some(error), duration }
    }
}

/// The readiness of every service checked at startup.
pub struct ReadinessReport {
    /// Results for each service
    pub services: Vec<ReadinessResult>,
    /// Total time taken for all checks
    pub total_duration: Duration,
}

/// The number of successful results.
pub open spec fn ready_in(s: Seq<ReadinessResult>) -> nat
    decreases s.len(),
{
    if s.len() == 0 {
        0
    } else {
        ready_in(s.drop_last()) + if s.last().success { 1nat } else { 0nat }
    }
}

/// The failed results, in order.
pub open spec fn failures_in(s: Seq<ReadinessResult>) -> Seq<ReadinessResult>
    decreases s.len(),
{
    if s.len() == 0 {
        Seq::empty()
    } else {
        failures_in(s.drop_last()) + if s.last().success { Seq::empty() } else { seq![s.last()] }
    }
}

pub proof fn lemma_ready_bound(s: Seq<ReadinessResult>)
    ensures
        ready_in(s) <= s.len(),
        ready_in(s) + failures_in(s).len() == s.len(),
        ready_in(s) == s.len() <==> forall|i: int| 0 <= i < s.len() ==> #[trigger] s[i].success,
    decreases s.len(),
{
    if s.len() > 0 {
        lemma_ready_bound(s.drop_last());
        if forall|i: int| 0 <= i < s.len() ==> #[trigger] s[i].success {
            assert forall|i: int| 0 <= i < s.drop_last().len() implies #[trigger] s.drop_last()[i].success by {
                assert(s.drop_last()[i] == s[i]);
            }
        }
        if ready_in(s) == s.len() {
            assert forall|i: int| 0 <= i < s.len() implies #[trigger] s[i].success by {
                if i < s.len() - 1 {
                    assert(s.drop_last()[i] == s[i]);
                }
            }
        }
    }
}

impl ReadinessReport {
    /// Whether every service is ready.
    pub fn all_ready(&self) -> (r: bool)
        ensures
            r == forall|i: int| 0 <= i < self.services@.len() ==> #[trigger] self.services@[i].success,
    {
        proof {
            lemma_ready_bound(self.services@);
        }
        self.ready_count() == self.services.len()
    }

    /// The number of ready services.
    pub fn ready_count(&self) -> (r: usize)
        ensures
            r == ready_in(self.services@),
    {
        let mut n: usize = 0;
        let mut i: usize = 0;
        while i < self.services.len()
            invariant
                0 <= i <= self.services@.len(),
                n == ready_in(self.services@.take(i as int)),
                n <= i,
            decreases self.services@.len() - i,
        {
            proof {
                let s = self.services@;
                assert(s.take(i + 1).drop_last() =~= s.take(i as int));
            }
            if self.services[i].success {
                n = n + 1;
            }
            i = i + 1;
        }
        proof {
            assert(self.services@.take(self.services@.len() as int) =~= self.services@);
        }
        n
    }

    /// The number of services that failed.
    pub fn failed_count(&self) -> (r: usize)
        ensures
            r == failures_in(self.services@).len(),
    {
        proof {
            lemma_ready_bound(self.services@);
        }
        self.services.len() - self.ready_count()
    }

    /// The failed results, in order.
    pub fn failures(&self) -> (r: Vec<&ReadinessResult>)
        ensures
            r@.len() == failures_in(self.services@).len(),
            forall|i: int| 0 <= i < r@.len() ==> *#[trigger] r@[i] == failures_in(self.services@)[i],
    {
        let mut out: Vec<&ReadinessResult> = Vec::new();
        let mut i: usize = 0;
        while i < self.services.len()
            invariant
                0 <= i <= self.services@.len(),
                out@.len() == failures_in(self.services@.take(i as int)).len(),
                forall|j: int| 0 <= j < out@.len() ==> *#[trigger] out@[j] == failures_in(self.services@.take(i as int))[j],
            decreases self.services@.len() - i,
        {
            proof {
                let s = self.services@;
                assert(s.take(i + 1).drop_last() =~= s.take(i as int));
            }
            if !self.services[i].success {
                out.push(&self.services[i]);
            }
            proof {
                let s = self.services@;
                let prev = failures_in(s.take(i as int));
                let next = failures_in(s.take(i + 1));
                if s[i as int].success {
                    assert(next =~= prev);
                } else {
                    assert(next =~= prev.push(s[i as int]));
                }
            }
            i = i + 1;
        }
        proof {
            assert(self.services@.take(self.services@.len() as int) =~= self.services@);
        }
        out
    }
}

/// Every service is ready exactly when no service failed, and the ready and failed counts
/// add up to the number of services.
pub proof fn law_all_ready_iff_no_failures(services: Seq<ReadinessResult>)
    ensures
        (forall|i: int| 0 <= i < services.len() ==> #[trigger] services[i].success) <==> failures_in(services).len() == 0,
        ready_in(services) + failures_in(services).len() == services.len(),
{
    lemma_ready_bound(services);
}

} // verus!
