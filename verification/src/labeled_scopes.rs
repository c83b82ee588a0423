//! Hierarchical labeled scopes: nested execution contexts (workflow → run → node), each
//! with a label, for tracing and organisation.
use vstd::prelude::*;
use std::sync::Arc;
use crate::support::{arc_clone, arc_ptr_eq, str_eq};
use crate::text::{join_strs, joined, views, to_string};
use crate::textmap::TextMap;

verus! {

/// A scope that can create child scopes with fresh scoped state.
pub trait ChildScope: Sized {
    fn create_child(&self) -> Self;
}

/// A provider of labeled scopes: the entry point for hierarchical workflow contexts.
pub trait LabeledScopeExt<S> {
    /// Creates a new root labeled scope.
    fn create_labeled_scope(&self, label: &'static str) -> LabeledScope<S>;
}

/// A hierarchical scope with a label for context and tracing.
pub struct LabeledScope<S> {
    inner: Arc<LabeledScopeInner<S>>,
}

struct LabeledScopeInner<S> {
    label: &'static str,
    parent: Option<LabeledScope<S>>,
    scope: S,
    depth: usize,
}

/// The labels from the root scope to `s`.
pub open spec fn label_path<S>(s: LabeledScope<S>) -> Seq<&'static str>
    decreases s,
{
    match s.spec_parent() {
        Some(p) => label_path(p).push(s.spec_label()),
        None => seq![s.spec_label()],
    }
}

/// The scopes from `s` up to the root, `s` first.
pub open spec fn scope_chain<S>(s: LabeledScope<S>) -> Seq<LabeledScope<S>>
    decreases s,
{
    match s.spec_parent() {
        Some(p) => seq![s] + scope_chain(p),
        None => seq![s],
    }
}

/// The number of ancestors of `s`.
pub open spec fn scope_depth<S>(s: LabeledScope<S>) -> nat
    decreases s,
{
    match s.spec_parent() {
        Some(p) => scope_depth(p) + 1,
        None => 0,
    }
}

/// The label path has one entry per level.
pub proof fn lemma_label_path_len<S>(s: LabeledScope<S>)
    ensures
        label_path(s).len() == scope_depth(s) + 1,
        label_path(s).last() == s.spec_label(),
    decreases s,
{
    if let Some(p) = s.spec_parent() {
        lemma_label_path_len(p);
    }
}

impl<S> LabeledScope<S> {
    /// This scope's label.
    pub closed spec fn spec_label(self) -> &'static str {
        self.inner.label
    }

    /// This scope's parent.
    pub closed spec fn spec_parent(self) -> Option<LabeledScope<S>> {
        self.inner.parent
    }

    /// The underlying scope.
    pub closed spec fn spec_scope(self) -> S {
        self.inner.scope
    }

    /// The recorded depth agrees with the chain of parents.
    #[verifier::type_invariant]
    closed spec fn depth_matches(self) -> bool {
        self.inner.depth == scope_depth(self)
    }

    /// Creates a new root labeled scope over a regular scope.
    pub fn new(scope: S, label: &'static str) -> (r: LabeledScope<S>)
        ensures
            r.spec_label() == label,
            r.spec_parent() is None,
            r.spec_scope() == scope,
            label_path(r) == seq![label],
            scope_depth(r) == 0,
    {
        LabeledScope {
            inner: Arc::new(LabeledScopeInner { label, parent: None, scope, depth: 0 }),
        }
    }

    /// Another handle to the same scope.
    pub fn clone_handle(&self) -> (r: LabeledScope<S>)
        ensures
            r == *self,
    {
        proof {
            use_type_invariant(self);
        }
        LabeledScope { inner: arc_clone(&self.inner) }
    }

    /// Creates a child scope with the given label.
    pub fn fork(&self, label: &'static str) -> (r: LabeledScope<S>) where S: ChildScope
        requires
            scope_depth(*self) < usize::MAX,
        ensures
            r.spec_label() == label,
            r.spec_parent() == Some(*self),
            label_path(r) == label_path(*self).push(label),
            scope_depth(r) == scope_depth(*self) + 1,
    {
        proof {
            use_type_invariant(self);
        }
        let child_scope = self.inner.scope.create_child();
        LabeledScope {
            inner: Arc::new(
                LabeledScopeInner {
                    label,
                    parent: Some(self.clone_handle()),
                    scope: child_scope,
                    depth: self.inner.depth + 1,
                },
            ),
        }
    }

    /// Returns the label of this scope.
    pub fn label(&self) -> (r: &'static str)
        ensures
            r == self.spec_label(),
    {
        self.inner.label
    }

    /// Returns the depth of this scope (0 for root, 1 for first child, etc.).
    pub fn depth(&self) -> (r: usize)
        ensures
            r == scope_depth(*self),
    {
        proof {
            use_type_invariant(self);
        }
        self.inner.depth
    }

    /// Returns the parent scope, if any.
    pub fn parent(&self) -> (r: Option<&LabeledScope<S>>)
        ensures
            r matches Some(p) ==> self.spec_parent() == Some(*p),
            r is None <==> self.spec_parent() is None,
    {
        match &self.inner.parent {
            Some(p) => Some(p),
            None => None,
        }
    }

    /// Returns all ancestor labels from root to this scope.
    pub fn ancestors(&self) -> (r: Vec<&'static str>)
        ensures
            r@ == label_path(*self),
        decreases scope_depth(*self),
    {
        proof {
            use_type_invariant(self);
        }
        match &self.inner.parent {
            Some(p) => {
                proof {
                    use_type_invariant(p);
                }
                let mut v = p.ancestors();
                v.push(self.inner.label);
                v
            },
            None => {
                let mut v = Vec::new();
                v.push(self.inner.label);
                assert(v@ =~= seq![self.spec_label()]);
                v
            },
        }
    }

    /// Returns the full hierarchical path, labels joined by `/`
    /// (e.g. "workflow/run_001/node_123").
    pub fn full_path(&self) -> (r: String)
        ensures
            r@ == joined(views(label_path(*self)), "/"@),
    {
        let parts = self.ancestors();
        join_strs(&parts, "/")
    }

    /// Finds the nearest scope, starting with this one and going up, whose label is `label`.
    pub fn find_ancestor(&self, label: &str) -> (r: Option<&LabeledScope<S>>)
        ensures
            r is None <==> forall|i: int|
                0 <= i < label_path(*self).len() ==> #[trigger] label_path(*self)[i]@ != label@,
            r matches Some(a) ==> {
                &&& a.spec_label()@ == label@
                &&& label_path(*a).len() <= label_path(*self).len()
                &&& label_path(*a) == label_path(*self).take(label_path(*a).len() as int)
                &&& forall|i: int|
                    label_path(*a).len() <= i < label_path(*self).len() ==> #[trigger] label_path(
                        *self,
                    )[i]@ != label@
            },
        decreases scope_depth(*self),
    {
        proof {
            use_type_invariant(self);
            lemma_label_path_len(*self);
        }
        if str_eq(self.inner.label, label) {
            proof {
                assert(label_path(*self).take(label_path(*self).len() as int) =~= label_path(*self));
                assert(label_path(*self)[label_path(*self).len() - 1] == self.spec_label());
                assert(label_path(*self)[label_path(*self).len() - 1]@ == label@);
            }
            Some(self)
        } else {
            match &self.inner.parent {
                Some(p) => {
                    proof {
                        use_type_invariant(p);
                        lemma_label_path_len(*p);
                    }
                    let r = p.find_ancestor(label);
                    proof {
                        let sp = label_path(*self);
                        let pp = label_path(*p);
                        assert(sp == pp.push(self.spec_label()));
                        match r {
                            Some(a) => {
                                lemma_label_path_len(*a);
                                let la = label_path(*a).len();
                                assert(label_path(*a) =~= sp.take(la as int));
                                assert(sp[la - 1] == label_path(*a)[la - 1]);
                                assert(sp[la - 1]@ == label@);
                                assert forall|i: int|
                                    label_path(*a).len() <= i < sp.len() implies #[trigger] sp[i]@
                                    != label@ by {
                                    if i < pp.len() {
                                        assert(sp[i] == pp[i]);
                                    }
                                }
                            },
                            None => {
                                assert forall|i: int| 0 <= i < sp.len() implies #[trigger] sp[i]@
                                    != label@ by {
                                    if i < pp.len() {
                                        assert(sp[i] == pp[i]);
                                    }
                                }
                            },
                        }
                    }
                    r
                },
                None => {
                    proof {
                        assert(label_path(*self) =~= seq![self.spec_label()]);
                        assert(label_path(*self)[0]@ != label@);
                    }
                    None
                },
            }
        }
    }

    /// Returns true if this scope is found on the chain from `other` up to the root
    /// (a scope is its own ancestor). Scopes are compared by identity; a `true` answer
    /// means this scope is on that chain.
    pub fn is_ancestor_of(&self, other: &LabeledScope<S>) -> (r: bool)
        ensures
            r ==> scope_chain(*other).contains(*self),
        decreases scope_depth(*other),
    {
        proof {
            use_type_invariant(other);
        }
        if arc_ptr_eq(&self.inner, &other.inner) {
            proof {
                assert(scope_chain(*other)[0] == *other);
            }
            true
        } else {
            match &other.inner.parent {
                Some(p) => {
                    proof {
                        use_type_invariant(p);
                    }
                    let r = self.is_ancestor_of(p);
                    proof {
                        if r {
                            let c = scope_chain(*p);
                            let k = choose|k: int| 0 <= k < c.len() && c[k] == *self;
                            assert(scope_chain(*other)[k + 1] == *self);
                        }
                    }
                    r
                },
                None => false,
            }
        }
    }

    /// Returns metadata about this scope for tracing and debugging.
    pub fn metadata(&self) -> (m: ScopeMetadata)
        ensures
            m.label == self.spec_label(),
            m.depth == scope_depth(*self),
            m.full_path@ == joined(views(label_path(*self)), "/"@),
            m.ancestors@ == label_path(*self),
            m.parent_label == match self.spec_parent() {
                Some(p) => Some(p.spec_label()),
                None => None::<&'static str>,
            },
    {
        ScopeMetadata {
            label: self.label(),
            depth: self.depth(),
            full_path: self.full_path(),
            ancestors: self.ancestors(),
            parent_label: match self.parent() {
                Some(p) => Some(p.label()),
                None => None,
            },
        }
    }

    /// Access the underlying scope for service resolution.
    pub fn as_scope(&self) -> (r: &S)
        ensures
            *r == self.spec_scope(),
    {
        &self.inner.scope
    }
}

/// Metadata about a labeled scope for tracing and debugging.
#[derive(Debug, Clone, PartialEq)]
pub struct ScopeMetadata {
    /// The label of this scope
    pub label: &'static str,
    /// The depth in the hierarchy (0 for root)
    pub depth: usize,
    /// The full hierarchical path
    pub full_path: String,
    /// All ancestor labels from root to this scope
    pub ancestors: Vec<&'static str>,
    /// The parent scope's label, if any
    pub parent_label: Option<&'static str>,
}

/// Helper for passing labeled scope context through workflow execution.
pub struct LabeledScopeContext<S> {
    scope: LabeledScope<S>,
}

impl<S> LabeledScopeContext<S> {
    /// The scope this context describes.
    pub closed spec fn spec_scope(self) -> LabeledScope<S> {
        self.scope
    }

    /// Creates a new scope context.
    pub fn new(scope: LabeledScope<S>) -> (r: LabeledScopeContext<S>)
        ensures
            r.spec_scope() == scope,
    {
        LabeledScopeContext { scope }
    }

    /// Returns the current scope's label.
    pub fn current_label(&self) -> (r: &'static str)
        ensures
            r == self.spec_scope().spec_label(),
    {
        self.scope.label()
    }

    /// Returns the current scope's depth.
    pub fn current_depth(&self) -> (r: usize)
        ensures
            r == scope_depth(self.spec_scope()),
    {
        self.scope.depth()
    }

    /// Returns the full hierarchical path.
    pub fn full_path(&self) -> (r: String)
        ensures
            r@ == joined(views(label_path(self.spec_scope())), "/"@),
    {
        self.scope.full_path()
    }

    /// Returns the labeled scope for advanced operations.
    pub fn labeled_scope(&self) -> (r: &LabeledScope<S>)
        ensures
            *r == self.spec_scope(),
    {
        &self.scope
    }

    /// Returns metadata about the current scope.
    pub fn metadata(&self) -> (m: ScopeMetadata)
        ensures
            m.label == self.spec_scope().spec_label(),
            m.depth == scope_depth(self.spec_scope()),
            m.full_path@ == joined(views(label_path(self.spec_scope())), "/"@),
            m.ancestors@ == label_path(self.spec_scope()),
    {
        self.scope.metadata()
    }
}

/// Registry for tracking active labeled scopes, keyed by their full path.
pub struct LabeledScopeRegistry<S> {
    scopes: TextMap<LabeledScope<S>>,
}

/// The full path of a scope.
pub open spec fn path_text<S>(s: LabeledScope<S>) -> Seq<char> {
    joined(views(label_path(s)), "/"@)
}

impl<S> LabeledScopeRegistry<S> {
    /// The registered scopes by full path.
    pub closed spec fn active(&self) -> Map<Seq<char>, LabeledScope<S>> {
        self.scopes.view()
    }

    /// The registered scopes in registration order.
    pub closed spec fn active_list(&self) -> Seq<LabeledScope<S>> {
        self.scopes.entries().map_values(|e: (String, LabeledScope<S>)| e.1)
    }

    /// Internal consistency.
    pub closed spec fn wf(&self) -> bool {
        self.scopes.wf()
    }

    /// Creates a new scope registry.
    pub fn new() -> (r: LabeledScopeRegistry<S>)
        ensures
            r.wf(),
            r.active() == Map::<Seq<char>, LabeledScope<S>>::empty(),
            r.active_list() == Seq::<LabeledScope<S>>::empty(),
    {
        let r = LabeledScopeRegistry { scopes: TextMap::new() };
        assert(r.active_list() =~= Seq::<LabeledScope<S>>::empty());
        r
    }

    /// Registers a labeled scope under its full path (replacing a scope with the same path).
    pub fn register(&mut self, scope: &LabeledScope<S>)
        requires
            old(self).wf(),
        ensures
            final(self).wf(),
            final(self).active() == old(self).active().insert(path_text(*scope), *scope),
    {
        let path = scope.full_path();
        self.scopes.insert(path, scope.clone_handle());
    }

    /// Unregisters the scope registered under this scope's full path.
    pub fn unregister(&mut self, scope: &LabeledScope<S>)
        requires
            old(self).wf(),
        ensures
            final(self).wf(),
            final(self).active() == old(self).active().remove(path_text(*scope)),
    {
        let path = scope.full_path();
        self.scopes.remove(path.as_str());
    }

    /// Returns all currently active scopes, in registration order.
    pub fn active_scopes(&self) -> (r: Vec<LabeledScope<S>>)
        ensures
            r@ == self.active_list(),
    {
        let mut out: Vec<LabeledScope<S>> = Vec::new();
        let n = self.scopes.len();
        let mut i: usize = 0;
        while i < n
            invariant
                n == self.active_list().len(),
                0 <= i <= n,
                out@ == self.active_list().take(i as int),
            decreases n - i,
        {
            let (_, s) = self.scopes.entry_at(i);
            out.push(s.clone_handle());
            proof {
                assert(self.active_list().take(i + 1) =~= self.active_list().take(i as int).push(*s));
            }
            i = i + 1;
        }
        proof {
            assert(self.active_list().take(n as int) =~= self.active_list());
        }
        out
    }

    /// Finds active scopes with the given label.
    pub fn find_by_label(&self, label: &str) -> (r: Vec<LabeledScope<S>>)
        ensures
            r@ == self.active_list().filter(|s: LabeledScope<S>| s.spec_label()@ == label@),
    {
        let r = self.select(SelectBy::Label(label));
        proof {
            assert((|s: LabeledScope<S>| SelectBy::Label(label).matches(s)) =~= (|s: LabeledScope<S>| s.spec_label()@ == label@));
        }
        r
    }

    /// Finds active scopes at the given depth.
    pub fn find_by_depth(&self, depth: usize) -> (r: Vec<LabeledScope<S>>)
        ensures
            r@ == self.active_list().filter(|s: LabeledScope<S>| scope_depth(s) == depth),
    {
        let r = self.select(SelectBy::Depth(depth));
        proof {
            assert((|s: LabeledScope<S>| SelectBy::Depth(depth).matches(s)) =~= (|s: LabeledScope<S>| scope_depth(s) == depth));
        }
        r
    }

    fn select(&self, by: SelectBy) -> (r: Vec<LabeledScope<S>>)
        ensures
            r@ == self.active_list().filter(|s: LabeledScope<S>| by.matches(s)),
    {
        let ghost pred = |s: LabeledScope<S>| by.matches(s);
        let mut out: Vec<LabeledScope<S>> = Vec::new();
        let n = self.scopes.len();
        let ghost all = self.active_list();
        let mut i: usize = 0;
        while i < n
            invariant
                n == all.len(),
                all == self.active_list(),
                0 <= i <= n,
                pred == (|s: LabeledScope<S>| by.matches(s)),
                out@ == all.take(i as int).filter(pred),
            decreases n - i,
        {
            let (_, s) = self.scopes.entry_at(i);
            let keep = match by {
                SelectBy::Label(l) => str_eq(s.label(), l),
                SelectBy::Depth(d) => s.depth() == d,
            };
            proof {
                assert(all[i as int] == *s);
                assert(all.take(i + 1).drop_last() =~= all.take(i as int));
                reveal_with_fuel(Seq::filter, 1);
            }
            if keep {
                out.push(s.clone_handle());
            }
            i = i + 1;
        }
        proof {
            assert(all.take(n as int) =~= all);
        }
        out
    }

    /// Returns the count of active scopes.
    pub fn active_count(&self) -> (r: usize)
        ensures
            r == self.active_list().len(),
    {
        self.scopes.len()
    }

    /// Clears all registered scopes.
    pub fn clear(&mut self)
        ensures
            final(self).wf(),
            final(self).active() == Map::<Seq<char>, LabeledScope<S>>::empty(),
    {
        self.scopes.clear();
    }
}

/// How registered scopes are selected.
enum SelectBy<'a> {
    Label(&'a str),
    Depth(usize),
}

impl<'a> SelectBy<'a> {
    spec fn matches<S>(self, s: LabeledScope<S>) -> bool {
        match self {
            SelectBy::Label(l) => s.spec_label()@ == l@,
            SelectBy::Depth(d) => scope_depth(s) == d,
        }
    }
}

} // verus!
