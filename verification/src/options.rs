//! Options: immutable, configured settings shared through the container.
use vstd::prelude::*;
use std::sync::Arc;
use crate::support::arc_clone;

verus! {

/// Access to a configured options snapshot.
pub trait IOptions<T>: Send + Sync {
    /// Gets the configured options instance.
    fn get(&self) -> Arc<T>;
}

/// Immutable options wrapper holding the final configured snapshot.
pub struct Options<T> {
    inner: Arc<T>,
}

impl<T> Options<T> {
    /// The options value.
    pub closed spec fn spec_value(&self) -> T {
        *self.inner
    }

    /// Creates a new `Options<T>` wrapping the given value.
    pub fn new(value: T) -> (o: Options<T>)
        ensures
            o.spec_value() == value,
    {
        Options { inner: Arc::new(value) }
    }

    /// Gets a reference to the shared value.
    pub fn value(&self) -> (r: &Arc<T>)
        ensures
            **r == self.spec_value(),
    {
        &self.inner
    }

    /// Gets another handle to the shared value.
    pub fn get(&self) -> (r: Arc<T>)
        ensures
            *r == self.spec_value(),
    {
        arc_clone(&self.inner)
    }
}

impl<T: Send + Sync> IOptions<T> for Options<T> {
    fn get(&self) -> (r: Arc<T>)
        ensures
            *r == self.spec_value(),
    {
        arc_clone(&self.inner)
    }
}

} // verus!
