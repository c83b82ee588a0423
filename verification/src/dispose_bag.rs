//! Disposal hooks, run last-registered first.
use vstd::prelude::*;

verus! {

/// Container for disposal hooks with LIFO execution order.
///
/// Synchronous hooks (`S`) and asynchronous hooks (`A`) are kept apart; each kind is
/// handed out most recent first.
pub struct DisposeBag<S, A> {
    sync: Vec<S>,
    asyncs: Vec<A>,
}

impl<S, A> DisposeBag<S, A> {
    /// The synchronous hooks, oldest first.
    pub closed spec fn sync_hooks(&self) -> Seq<S> {
        self.sync@
    }

    /// The asynchronous hooks, oldest first.
    pub closed spec fn async_hooks(&self) -> Seq<A> {
        self.asyncs@
    }

    /// An empty bag.
    pub fn new() -> (b: DisposeBag<S, A>)
        ensures
            b.sync_hooks() == Seq::<S>::empty(),
            b.async_hooks() == Seq::<A>::empty(),
    {
        DisposeBag { sync: Vec::new(), asyncs: Vec::new() }
    }

    /// Add a synchronous disposal hook.
    pub fn push_sync(&mut self, f: S)
        ensures
            final(self).sync_hooks() == old(self).sync_hooks().push(f),
            final(self).async_hooks() == old(self).async_hooks(),
    {
        self.sync.push(f);
    }

    /// Add an asynchronous disposal hook.
    pub fn push_async(&mut self, f: A)
        ensures
            final(self).async_hooks() == old(self).async_hooks().push(f),
            final(self).sync_hooks() == old(self).sync_hooks(),
    {
        self.asyncs.push(f);
    }

    /// Takes the most recently added synchronous hook.
    pub fn pop_sync(&mut self) -> (r: Option<S>)
        ensures
            old(self).sync_hooks().len() == 0 ==> r is None && final(self).sync_hooks() == old(
                self,
            ).sync_hooks(),
            old(self).sync_hooks().len() > 0 ==> r == Some(old(self).sync_hooks().last())
                && final(self).sync_hooks() == old(self).sync_hooks().drop_last(),
            final(self).async_hooks() == old(self).async_hooks(),
    {
        self.sync.pop()
    }

    /// Takes the most recently added asynchronous hook.
    pub fn pop_async(&mut self) -> (r: Option<A>)
        ensures
            old(self).async_hooks().len() == 0 ==> r is None && final(self).async_hooks() == old(
                self,
            ).async_hooks(),
            old(self).async_hooks().len() > 0 ==> r == Some(old(self).async_hooks().last())
                && final(self).async_hooks() == old(self).async_hooks().drop_last(),
            final(self).sync_hooks() == old(self).sync_hooks(),
    {
        self.asyncs.pop()
    }

    /// Takes every synchronous hook, most recent first, leaving none.
    pub fn drain_sync_reverse(&mut self) -> (r: Vec<S>)
        ensures
            r@ == old(self).sync_hooks().reverse(),
            final(self).sync_hooks() == Seq::<S>::empty(),
            final(self).async_hooks() == old(self).async_hooks(),
    {
        let mut out: Vec<S> = Vec::new();
        let ghost orig = self.sync@;
        while self.sync.len() > 0
            invariant
                orig.len() == self.sync@.len() + out@.len(),
                self.sync@ == orig.take(self.sync@.len() as int),
                out@ == orig.skip(self.sync@.len() as int).reverse(),
                self.asyncs@ == old(self).async_hooks(),
                orig == old(self).sync_hooks(),
            decreases self.sync@.len(),
        {
            let ghost n = self.sync@.len();
            match self.sync.pop() {
                Some(f) => {
                    out.push(f);
                    proof {
                        assert(orig.take(n - 1) =~= orig.take(n as int).drop_last());
                        assert(orig.skip(n - 1).reverse() =~= orig.skip(n as int).reverse().push(orig[n - 1]));
                    }
                },
                None => {},
            }
        }
        proof {
            assert(orig.skip(0) =~= orig);
        }
        out
    }

    /// Check if the bag is empty (no disposers registered).
    pub fn is_empty(&self) -> (r: bool)
        ensures
            r == (self.sync_hooks().len() == 0 && self.async_hooks().len() == 0),
    {
        self.sync.len() == 0 && self.asyncs.len() == 0
    }
}

} // verus!
