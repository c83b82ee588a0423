//! Error types for the dependency injection container.
use vstd::prelude::*;
use crate::text::{push_str, push_decimal, join_strs, joined, views, decimal};

verus! {

/// Dependency injection errors.
#[derive(Debug, Clone)]
pub enum DiError {
    /// Service not registered
    NotFound(&'static str),
    /// Type downcast failed
    TypeMismatch(&'static str),
    /// Circular dependency detected (includes path)
    Circular(Vec<&'static str>),
    /// Invalid lifetime resolution (e.g., scoped from root)
    WrongLifetime(&'static str),
    /// Maximum recursion depth exceeded
    DepthExceeded(usize),
}

/// Result type for DI operations.
pub type DiResult<T> = Result<T, DiError>;

/// The human-readable message of an error.
pub open spec fn error_message(e: DiError) -> Seq<char> {
    match e {
        DiError::NotFound(name) => "Service not found: "@ + name@,
        DiError::TypeMismatch(name) => "Type mismatch for: "@ + name@,
        DiError::Circular(path) => "Circular dependency: "@ + joined(views(path@), " -> "@),
        DiError::WrongLifetime(msg) => "Lifetime error: "@ + msg@,
        DiError::DepthExceeded(depth) => "Max depth "@ + decimal(depth as nat) + " exceeded"@,
    }
}

impl DiError {
    /// The message the error displays.
    pub fn message(&self) -> (r: String)
        ensures
            r@ == error_message(*self),
    {
        let mut s = String::new();
        match self {
            DiError::NotFound(name) => {
                push_str(&mut s, "Service not found: ");
                push_str(&mut s, name);
            },
            DiError::TypeMismatch(name) => {
                push_str(&mut s, "Type mismatch for: ");
                push_str(&mut s, name);
            },
            DiError::Circular(path) => {
                push_str(&mut s, "Circular dependency: ");
                let j = join_strs(path, " -> ");
                push_str(&mut s, j.as_str());
            },
            DiError::WrongLifetime(msg) => {
                push_str(&mut s, "Lifetime error: ");
                push_str(&mut s, msg);
            },
            DiError::DepthExceeded(depth) => {
                push_str(&mut s, "Max depth ");
                push_decimal(&mut s, *depth as u64);
                push_str(&mut s, " exceeded");
            },
        }
        s
    }
}

} // verus!
