//! The lifecycle of a container's services: which phase may start from which state, and
//! the state each phase leaves behind. The phases' asynchronous work runs outside.
use vstd::prelude::*;
use crate::error::DiError;

verus! {

/// Lifecycle states.
#[derive(Debug, Clone, Copy, PartialEq, Eq, Structural)]
pub enum LifecycleState {
    Created,
    Initializing,
    Initialized,
    Starting,
    Started,
    Stopping,
    Stopped,
    Disposing,
    Disposed,
}

/// The phases of the lifecycle.
#[derive(Debug, Clone, Copy, PartialEq, Eq, Structural)]
pub enum LifecyclePhase {
    Initialize,
    Startup,
    Shutdown,
    Dispose,
}

/// Whether a phase may start in a state.
pub open spec fn may_begin(state: LifecycleState, phase: LifecyclePhase) -> bool {
    match phase {
        LifecyclePhase::Initialize => state == LifecycleState::Created,
        LifecyclePhase::Startup => state == LifecycleState::Initialized,
        LifecyclePhase::Shutdown => state == LifecycleState::Started,
        LifecyclePhase::Dispose => state == LifecycleState::Stopped || state == LifecycleState::Initialized,
    }
}

/// The state while a phase runs.
pub open spec fn running_state(phase: LifecyclePhase) -> LifecycleState {
    match phase {
        LifecyclePhase::Initialize => LifecycleState::Initializing,
        LifecyclePhase::Startup => LifecycleState::Starting,
        LifecyclePhase::Shutdown => LifecycleState::Stopping,
        LifecyclePhase::Dispose => LifecycleState::Disposing,
    }
}

/// The state after a phase completed.
pub open spec fn completed_state(phase: LifecyclePhase) -> LifecycleState {
    match phase {
        LifecyclePhase::Initialize => LifecycleState::Initialized,
        LifecyclePhase::Startup => LifecycleState::Started,
        LifecyclePhase::Shutdown => LifecycleState::Stopped,
        LifecyclePhase::Dispose => LifecycleState::Disposed,
    }
}

/// The message of the error for a phase that may not start.
pub open spec fn refusal_message(phase: LifecyclePhase) -> &'static str {
    match phase {
        LifecyclePhase::Initialize => "Already initialized",
        LifecyclePhase::Startup => "Not initialized",
        LifecyclePhase::Shutdown => "Not started",
        LifecyclePhase::Dispose => "Invalid state for disposal",
    }
}

/// Starts a phase: the running state when the phase may start in `state`, otherwise the
/// lifetime error of the phase.
pub fn begin_phase(state: LifecycleState, phase: LifecyclePhase) -> (r: Result<LifecycleState, DiError>)
    ensures
        may_begin(state, phase) ==> r == Ok::<LifecycleState, DiError>(running_state(phase)),
        !may_begin(state, phase) ==> r == Err::<LifecycleState, DiError>(DiError::WrongLifetime(refusal_message(phase))),
{
    match phase {
        LifecyclePhase::Initialize => if state == LifecycleState::Created {
            Ok(LifecycleState::Initializing)
        } else {
            Err(DiError::WrongLifetime("Already initialized"))
        },
        LifecyclePhase::Startup => if state == LifecycleState::Initialized {
            Ok(LifecycleState::Starting)
        } else {
            Err(DiError::WrongLifetime("Not initialized"))
        },
        LifecyclePhase::Shutdown => if state == LifecycleState::Started {
            Ok(LifecycleState::Stopping)
        } else {
            Err(DiError::WrongLifetime("Not started"))
        },
        LifecyclePhase::Dispose => if state == LifecycleState::Stopped || state == LifecycleState::Initialized {
            Ok(LifecycleState::Disposing)
        } else {
            Err(DiError::WrongLifetime("Invalid state for disposal"))
        },
    }
}

/// The state once a phase's work completed.
pub fn complete_phase(phase: LifecyclePhase) -> (r: LifecycleState)
    ensures
        r == completed_state(phase),
{
    match phase {
        LifecyclePhase::Initialize => LifecycleState::Initialized,
        LifecyclePhase::Startup => LifecycleState::Started,
        LifecyclePhase::Shutdown => LifecycleState::Stopped,
        LifecyclePhase::Dispose => LifecycleState::Disposed,
    }
}

/// The next phase of a graceful shutdown in a state: shut down a started container,
/// dispose a stopped or merely initialized one, and otherwise nothing.
pub fn graceful_step(state: LifecycleState) -> (r: Option<LifecyclePhase>)
    ensures
        state == LifecycleState::Started ==> r == Some(LifecyclePhase::Shutdown),
        (state == LifecycleState::Stopped || state == LifecycleState::Initialized) ==> r == Some(LifecyclePhase::Dispose),
        !(state == LifecycleState::Started || state == LifecycleState::Stopped || state == LifecycleState::Initialized)
            ==> r is None,
        r matches Some(p) ==> may_begin(state, p),
{
    if state == LifecycleState::Started {
        Some(LifecyclePhase::Shutdown)
    } else if state == LifecycleState::Stopped || state == LifecycleState::Initialized {
        Some(LifecyclePhase::Dispose)
    } else {
        None
    }
}

/// The full lifecycle, each phase completing, goes from created to disposed, and each
/// phase may start only in the state the previous one completed in.
pub proof fn law_lifecycle_in_order()
    ensures
        may_begin(LifecycleState::Created, LifecyclePhase::Initialize),
        may_begin(completed_state(LifecyclePhase::Initialize), LifecyclePhase::Startup),
        may_begin(completed_state(LifecyclePhase::Startup), LifecyclePhase::Shutdown),
        may_begin(completed_state(LifecyclePhase::Shutdown), LifecyclePhase::Dispose),
        completed_state(LifecyclePhase::Dispose) == LifecycleState::Disposed,
        forall|p: LifecyclePhase| !may_begin(LifecycleState::Disposed, p),
        forall|p: LifecyclePhase| !may_begin(#[trigger] running_state(p), p),
{
}

/// A graceful shutdown of a started container runs shutdown and then disposal, ending
/// disposed.
pub proof fn law_graceful_shutdown_ends_disposed()
    ensures
        completed_state(LifecyclePhase::Shutdown) == LifecycleState::Stopped,
        may_begin(LifecycleState::Stopped, LifecyclePhase::Dispose),
        completed_state(LifecyclePhase::Dispose) == LifecycleState::Disposed,
{
}

} // verus!
