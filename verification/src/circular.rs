//! Circular dependency detection: the stack of services being resolved.
use vstd::prelude::*;
use crate::support::{str_eq, vec_into_boxed};
use crate::error::DiError;

verus! {

/// The deepest nesting of resolutions that is allowed.
pub const MAX_DEPTH: usize = 1024;

/// Panic payload for circular dependency detection: the complete dependency path,
/// ending with the service that closed the cycle.
#[derive(Debug)]
pub struct CircularPanic {
    /// The complete circular dependency path showing the cycle.
    pub path: Box<[&'static str]>,
}

impl CircularPanic {
    /// A payload carrying `path`.
    pub fn new(path: Vec<&'static str>) -> (r: CircularPanic)
        ensures
            r.path@ == path@,
    {
        CircularPanic { path: vec_into_boxed(path) }
    }

    /// The error that the payload stands for.
    pub fn to_error(&self) -> (e: DiError)
        ensures
            e matches DiError::Circular(p) && p@ == self.path@,
    {
        let mut v: Vec<&'static str> = Vec::new();
        let mut i: usize = 0;
        while i < self.path.len()
            invariant
                0 <= i <= self.path@.len(),
                v@ == self.path@.take(i as int),
            decreases self.path@.len() - i,
        {
            v.push(self.path[i]);
            proof {
                assert(self.path@.take(i + 1) =~= self.path@.take(i as int).push(self.path@[i as int]));
            }
            i = i + 1;
        }
        proof {
            assert(self.path@.take(self.path@.len() as int) =~= self.path@);
        }
        DiError::Circular(v)
    }
}

/// What happened when a service was entered on the resolution stack.
#[derive(Debug)]
pub enum Entry {
    /// The service was pushed; resolution may proceed.
    Entered,
    /// The service was already being resolved: the path from the outermost resolution to
    /// this one, ending with the repeated service. The stack is left as it was, so the
    /// resolutions still open can leave it as usual and it stays usable afterwards.
    Circular(Vec<&'static str>),
    /// The nesting limit was reached; nothing changed.
    DepthExceeded(usize),
}

/// Whether `name` occurs in `names`, comparing characters.
pub open spec fn names_contain(names: Seq<&'static str>, name: &'static str) -> bool {
    exists|i: int| 0 <= i < names.len() && #[trigger] names[i]@ == name@
}

/// The stack of service names being resolved on one thread.
///
/// A reported cycle is a recoverable error: it leaves the stack as it was.
pub struct ResolutionStack {
    stack: Vec<&'static str>,
    depth: usize,
}

impl ResolutionStack {
    /// The names on the stack, outermost first.
    pub closed spec fn names(&self) -> Seq<&'static str> {
        self.stack@
    }

    /// The nesting counter.
    pub closed spec fn current_depth(&self) -> nat {
        self.depth as nat
    }

    /// An empty stack.
    pub fn new() -> (r: ResolutionStack)
        ensures
            r.names() == Seq::<&'static str>::empty(),
            r.current_depth() == 0,
    {
        ResolutionStack { stack: Vec::new(), depth: 0 }
    }

    /// Whether `name` is already being resolved.
    pub fn contains(&self, name: &'static str) -> (r: bool)
        ensures
            r == names_contain(self.names(), name),
    {
        let mut i: usize = 0;
        while i < self.stack.len()
            invariant
                0 <= i <= self.stack@.len(),
                forall|j: int| 0 <= j < i ==> #[trigger] self.stack@[j]@ != name@,
            decreases self.stack@.len() - i,
        {
            if str_eq(self.stack[i], name) {
                return true;
            }
            i = i + 1;
        }
        false
    }

    /// Enters the resolution of `name`.
    ///
    /// A name already on the stack is a cycle: the path is the stack followed by `name`,
    /// and the stack is left as it was. Otherwise, at the nesting limit nothing changes; below it
    /// the name is pushed.
    pub fn enter(&mut self, name: &'static str) -> (r: Entry)
        ensures
            names_contain(old(self).names(), name) ==> {
                &&& r matches Entry::Circular(p) && p@ == old(self).names().push(name)
                &&& *final(self) == *old(self)
            },
            !names_contain(old(self).names(), name) && old(self).current_depth() >= MAX_DEPTH ==> {
                &&& r matches Entry::DepthExceeded(d) && d == old(self).current_depth()
                &&& *final(self) == *old(self)
            },
            !names_contain(old(self).names(), name) && old(self).current_depth() < MAX_DEPTH ==> {
                &&& r is Entered
                &&& final(self).names() == old(self).names().push(name)
                &&& final(self).current_depth() == old(self).current_depth() + 1
            },
    {
        if self.contains(name) {
            let mut path = self.stack.clone();
            path.push(name);
            return Entry::Circular(path);
        }
        if self.depth >= MAX_DEPTH {
            return Entry::DepthExceeded(self.depth);
        }
        self.stack.push(name);
        self.depth = self.depth + 1;
        Entry::Entered
    }

    /// Leaves the resolution of the innermost service: the last name is popped and the
    /// counter decreases, neither below zero.
    pub fn leave(&mut self)
        ensures
            final(self).names() == (if old(self).names().len() > 0 {
                old(self).names().drop_last()
            } else {
                old(self).names()
            }),
            final(self).current_depth() == (if old(self).current_depth() > 0 {
                old(self).current_depth() - 1
            } else {
                0
            }),
    {
        if self.stack.len() > 0 {
            self.stack.pop();
        }
        self.depth = self.depth.saturating_sub(1);
    }

    /// The names on the stack, outermost first.
    pub fn current_path(&self) -> (r: Vec<&'static str>)
        ensures
            r@ == self.names(),
    {
        self.stack.clone()
    }
}

/// Entering a service that is not being resolved, below the nesting limit, and leaving it
/// again restores the stack as it was.
pub proof fn law_enter_leave_restores(
    before: ResolutionStack,
    entered: ResolutionStack,
    after: ResolutionStack,
    name: &'static str,
)
    requires
        !names_contain(before.names(), name),
        before.current_depth() < MAX_DEPTH,
        entered.names() == before.names().push(name),
        entered.current_depth() == before.current_depth() + 1,
        after.names() == entered.names().drop_last(),
        after.current_depth() == entered.current_depth() - 1,
    ensures
        after.names() == before.names(),
        after.current_depth() == before.current_depth(),
{
    assert(before.names().push(name).drop_last() =~= before.names());
}

/// A cycle is a recoverable error: entering `a`, then `b`, then `a` again reports the cycle
/// `a`, `b`, `a` and leaves the stack as it was, so once the two open resolutions are left
/// the stack is as before and `a` can be entered again.
pub proof fn law_cycle_recovers(
    before: ResolutionStack,
    after_a: ResolutionStack,
    after_b: ResolutionStack,
    after_cycle: ResolutionStack,
    path: Seq<&'static str>,
    after_leave_b: ResolutionStack,
    after_leave_a: ResolutionStack,
    a: &'static str,
    b: &'static str,
)
    requires
        !names_contain(before.names(), a),
        !names_contain(before.names(), b),
        a@ != b@,
        before.current_depth() + 2 <= MAX_DEPTH,
        after_a.names() == before.names().push(a),
        after_a.current_depth() == before.current_depth() + 1,
        after_b.names() == after_a.names().push(b),
        after_b.current_depth() == after_a.current_depth() + 1,
        path == after_b.names().push(a),
        after_cycle == after_b,
        after_leave_b.names() == after_cycle.names().drop_last(),
        after_leave_b.current_depth() == after_cycle.current_depth() - 1,
        after_leave_a.names() == after_leave_b.names().drop_last(),
        after_leave_a.current_depth() == after_leave_b.current_depth() - 1,
    ensures
        names_contain(after_b.names(), a),
        path == before.names().push(a).push(b).push(a),
        after_leave_a.names() == before.names(),
        after_leave_a.current_depth() == before.current_depth(),
        !names_contain(after_leave_a.names(), a),
{
    let n = before.names().len();
    assert(after_b.names()[n as int] == a);
    assert(after_b.names().drop_last() =~= after_a.names());
    assert(after_a.names().drop_last() =~= before.names());
}

} // verus!
