//! Service lifetimes.
use vstd::prelude::*;

verus! {

/// Service lifetimes controlling instance caching behavior.
///
/// - `Singleton`: one instance per root provider, cached forever
/// - `Scoped`: one instance per scope, cached for the scope's lifetime
/// - `Transient`: a new instance on every resolution, never cached
#[derive(Debug, Clone, Copy, PartialEq, Eq, Structural)]
pub enum Lifetime {
    Singleton,
    Scoped,
    Transient,
}

} // verus!
