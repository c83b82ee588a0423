//! Values that live for one workflow run.
use vstd::prelude::*;
use std::time::Instant;
use crate::support::{instant_now, nanos_since, unix_time_nanos};
use crate::text::{push_str, push_decimal, decimal, to_string};
use crate::time::Duration;

verus! {

/// The context of one workflow run: its run id, the workflow's name and when it started.
#[derive(Debug)]
pub struct WorkflowContext {
    run_id: String,
    workflow_name: String,
    started_at: Instant,
}

impl WorkflowContext {
    /// The run id.
    pub closed spec fn spec_run_id(&self) -> Seq<char> {
        self.run_id@
    }

    /// The workflow's name.
    pub closed spec fn spec_workflow_name(&self) -> Seq<char> {
        self.workflow_name@
    }

    /// The clock reading taken when the run started.
    pub closed spec fn spec_started_at(&self) -> Instant {
        self.started_at
    }

    /// A context for a new run of the named workflow, started now; its run id is `run-`
    /// followed by the current time in nanoseconds since the Unix epoch.
    pub fn new(workflow_name: &str) -> (c: WorkflowContext)
        ensures
            c.spec_workflow_name() == workflow_name@,
            exists|t: nat| c.spec_run_id() == "run-"@ + decimal(t),
    {
        let stamp = unix_time_nanos();
        let mut run_id = String::new();
        push_str(&mut run_id, "run-");
        push_decimal(&mut run_id, stamp);
        WorkflowContext { run_id, workflow_name: to_string(workflow_name), started_at: instant_now() }
    }

    /// A context with the given run id and workflow name, started now.
    pub fn with_run_id(run_id: &str, workflow_name: &str) -> (c: WorkflowContext)
        ensures
            c.spec_run_id() == run_id@,
            c.spec_workflow_name() == workflow_name@,
    {
        WorkflowContext { run_id: to_string(run_id), workflow_name: to_string(workflow_name), started_at: instant_now() }
    }

    /// The run id.
    pub fn run_id(&self) -> (r: &str)
        ensures
            r@ == self.spec_run_id(),
    {
        self.run_id.as_str()
    }

    /// The workflow's name.
    pub fn workflow_name(&self) -> (r: &str)
        ensures
            r@ == self.spec_workflow_name(),
    {
        self.workflow_name.as_str()
    }

    /// When the run started.
    pub fn started_at(&self) -> (r: &Instant)
        ensures
            *r == self.spec_started_at(),
    {
        &self.started_at
    }

    /// Time since the run started (clamped at the largest span).
    pub fn elapsed(&self) -> Duration {
        Duration::from_nanos_u128(nanos_since(&self.started_at))
    }
}

} // verus!
