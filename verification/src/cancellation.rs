//! Cancellation tokens: a flag that can be raised once and that a child token also sees
//! when any of its ancestors raises it.
use vstd::prelude::*;
use std::sync::Arc;
use std::sync::atomic::{AtomicBool, Ordering};
use std::time::Instant;
use crate::support::{arc_clone, instant_now, nanos_since};
use crate::text::{push_str, to_string};
use crate::time::Duration;

verus! {

/// A token that can be used to signal cancellation across operations.
///
/// A child token is cancelled when it or any of its ancestors is cancelled.
pub struct CancellationToken {
    inner: Arc<CancellationTokenInner>,
}

struct CancellationTokenInner {
    cancelled: AtomicBool,
    parent: Option<CancellationToken>,
    created_at: Instant,
}

/// The number of ancestors of a token.
pub open spec fn token_depth(t: CancellationToken) -> nat
    decreases t,
{
    match t.spec_parent() {
        Some(p) => token_depth(p) + 1,
        None => 0,
    }
}

/// Whether one of the flags read along a token's chain was raised.
pub open spec fn any_raised(flags: Seq<bool>) -> bool {
    flags.contains(true)
}

impl CancellationToken {
    /// The token this one was derived from.
    pub closed spec fn spec_parent(self) -> Option<CancellationToken> {
        self.inner.parent
    }

    /// Creates a new root cancellation token.
    pub fn new() -> (t: CancellationToken)
        ensures
            t.spec_parent() is None,
            token_depth(t) == 0,
    {
        CancellationToken {
            inner: Arc::new(
                CancellationTokenInner {
                    cancelled: AtomicBool::new(false),
                    parent: None,
                    created_at: instant_now(),
                },
            ),
        }
    }

    /// Another handle to the same token (sharing its flag).
    pub fn clone_handle(&self) -> (t: CancellationToken)
        ensures
            t == *self,
    {
        CancellationToken { inner: arc_clone(&self.inner) }
    }

    /// Creates a child token that is cancelled when either it or this token (or any
    /// ancestor of this token) is cancelled.
    pub fn child_token(&self) -> (t: CancellationToken)
        ensures
            t.spec_parent() == Some(*self),
            token_depth(t) == token_depth(*self) + 1,
    {
        CancellationToken {
            inner: Arc::new(
                CancellationTokenInner {
                    cancelled: AtomicBool::new(false),
                    parent: Some(self.clone_handle()),
                    created_at: instant_now(),
                },
            ),
        }
    }

    /// Cancels the token, signaling that associated operations should stop.
    pub fn cancel(&self) {
        self.inner.cancelled.store(true, Ordering::Release);
    }

    /// Reads the flags of this token and of its ancestors, this token first.
    /// The flags may be raised concurrently; nothing is claimed about the values read.
    pub fn observe_flags(&self) -> (flags: Vec<bool>)
        ensures
            flags@.len() == token_depth(*self) + 1,
        decreases token_depth(*self),
    {
        let own = self.inner.cancelled.load(Ordering::Acquire);
        let mut flags: Vec<bool> = Vec::new();
        flags.push(own);
        match &self.inner.parent {
            Some(p) => {
                let rest = p.observe_flags();
                let mut i: usize = 0;
                while i < rest.len()
                    invariant
                        0 <= i <= rest@.len(),
                        flags@.len() == 1 + i,
                    decreases rest@.len() - i,
                {
                    flags.push(rest[i]);
                    i = i + 1;
                }
            },
            None => {},
        }
        flags
    }

    /// Returns true if cancellation has been requested of this token or of an ancestor.
    pub fn is_cancelled(&self) -> bool {
        let flags = self.observe_flags();
        any_flag_raised(&flags)
    }

    /// Returns an error if the token is cancelled: the error says the operation was
    /// cancelled. Whether it comes depends on the flags read, which other handles may raise
    /// at any time.
    pub fn throw_if_cancelled(&self) -> (r: Result<(), CancellationError>)
        ensures
            r matches Err(e) ==> e.spec_message() == cancelled_message(),
    {
        cancellation_outcome(self.is_cancelled())
    }

    /// Returns the elapsed time since this token was created (read from the clock).
    pub fn elapsed(&self) -> Duration {
        Duration::from_nanos_u128(nanos_since(&self.inner.created_at))
    }
}

/// Whether any of the flags read along a token's chain is raised.
pub fn any_flag_raised(flags: &Vec<bool>) -> (r: bool)
    ensures
        r == any_raised(flags@),
{
    let mut i: usize = 0;
    while i < flags.len()
        invariant
            0 <= i <= flags@.len(),
            forall|j: int| 0 <= j < i ==> !#[trigger] flags@[j],
        decreases flags@.len() - i,
    {
        if flags[i] {
            proof {
                assert(flags@[i as int] == true);
            }
            return true;
        }
        i = i + 1;
    }
    proof {
        if flags@.contains(true) {
            let k = choose|k: int| 0 <= k < flags@.len() && flags@[k] == true;
            assert(!flags@[k]);
        }
    }
    false
}

/// The message of the error for a cancelled operation.
pub open spec fn cancelled_message() -> Seq<char> {
    "Operation was cancelled"@
}

/// The result of a cancellation check: an error exactly when cancelled.
pub fn cancellation_outcome(cancelled: bool) -> (r: Result<(), CancellationError>)
    ensures
        r is Err <==> cancelled,
        r matches Err(e) ==> e.spec_message() == cancelled_message(),
{
    if cancelled {
        Err(CancellationError::new("Operation was cancelled"))
    } else {
        Ok(())
    }
}

/// Error type for cancellation operations.
#[derive(Debug, Clone)]
pub struct CancellationError {
    message: String,
}

impl CancellationError {
    /// The message carried by the error.
    pub closed spec fn spec_message(self) -> Seq<char> {
        self.message@
    }

    /// Creates a new cancellation error with the given message.
    pub fn new(message: &str) -> (e: CancellationError)
        ensures
            e.spec_message() == message@,
    {
        CancellationError { message: to_string(message) }
    }

    /// The message carried by the error.
    pub fn message(&self) -> (r: &str)
        ensures
            r@ == self.spec_message(),
    {
        self.message.as_str()
    }

    /// The text the error displays: `Cancellation error: ` followed by the message.
    pub fn to_display_string(&self) -> (r: String)
        ensures
            r@ == "Cancellation error: "@ + self.spec_message(),
    {
        let mut s = String::new();
        push_str(&mut s, "Cancellation error: ");
        push_str(&mut s, self.message.as_str());
        s
    }
}

} // verus!
