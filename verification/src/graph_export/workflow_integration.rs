//! Workflow-specific graph export: the dependency graph with the run's context.
use vstd::prelude::*;
use crate::error::{DiError, DiResult};
use crate::graph_export::{GraphBuilder, ExportFormat, DependencyGraph, is_fresh_graph};
use crate::scope_local::WorkflowContext;
use crate::support::{instant_debug, duration_debug_text};
use crate::text::to_string;
use crate::textmap::TextMap;
use crate::time::Duration;

verus! {

/// Workflow-specific graph: the dependency graph with the run's metadata and execution
/// structure.
pub struct WorkflowGraph {
    /// Base dependency graph
    pub dependency_graph: DependencyGraph,
    /// Workflow execution metadata
    pub workflow_metadata: WorkflowMetadata,
    /// Execution nodes in the workflow
    pub execution_nodes: Vec<ExecutionNode>,
    /// Execution flow between nodes
    pub execution_flow: Vec<ExecutionEdge>,
}

/// Metadata about the workflow execution context.
#[derive(Debug, Clone)]
pub struct WorkflowMetadata {
    /// Workflow identifier
    pub workflow_id: String,
    /// Workflow name
    pub workflow_name: String,
    /// Current run ID
    pub run_id: Option<String>,
    /// Execution status
    pub status: ExecutionStatus,
    /// Start time
    pub started_at: Option<String>,
    /// End time
    pub completed_at: Option<String>,
    /// Total execution time
    pub duration: Option<String>,
}

/// Execution status of the workflow.
#[derive(Debug, Clone, Copy, PartialEq, Eq, Structural)]
pub enum ExecutionStatus {
    NotStarted,
    Running,
    Completed,
    Failed,
    Cancelled,
}

/// A single execution node in the workflow.
pub struct ExecutionNode {
    /// Node identifier
    pub node_id: String,
    /// Node name/title
    pub name: String,
    /// Node type (e.g., "HttpRequest", "DataTransform", etc.)
    pub node_type: String,
    /// Services this node depends on
    pub service_dependencies: Vec<String>,
    /// Execution status of this node
    pub status: ExecutionStatus,
    /// Input/output data types
    pub data_types: Vec<String>,
}

/// Execution flow edge between workflow nodes.
pub struct ExecutionEdge {
    /// Source node
    pub from_node: String,
    /// Target node
    pub to_node: String,
    /// Condition for this flow (if any)
    pub condition: Option<String>,
    /// Data passed between nodes
    pub data_mapping: TextMap<String>,
}

/// The workflow graph of a run: a fresh dependency graph, the run's metadata (status
/// running, started and elapsed times as std's `Debug` gives them), and no execution
/// nodes or flow yet.
pub fn build_workflow_graph(workflow_context: &WorkflowContext) -> (r: DiResult<WorkflowGraph>)
    ensures
        r matches Ok(w) && {
            &&& is_fresh_graph(w.dependency_graph, false)
            &&& w.workflow_metadata.workflow_id@ == workflow_context.spec_workflow_name()
            &&& w.workflow_metadata.workflow_name@ == workflow_context.spec_workflow_name()
            &&& w.workflow_metadata.run_id matches Some(id) && id@ == workflow_context.spec_run_id()
            &&& w.workflow_metadata.status == ExecutionStatus::Running
            &&& w.workflow_metadata.started_at is Some
            &&& w.workflow_metadata.completed_at is None
            &&& w.workflow_metadata.duration matches Some(d) && exists|secs: u64, nanos: u32| d@
                == duration_debug_text(secs, nanos)
            &&& w.execution_nodes@.len() == 0
            &&& w.execution_flow@.len() == 0
        },
{
    let dependency_graph = match GraphBuilder::new().build_graph() {
        Ok(g) => g,
        Err(e) => return Err(e),
    };
    let elapsed: Duration = workflow_context.elapsed();
    let workflow_metadata = WorkflowMetadata {
        workflow_id: to_string(workflow_context.workflow_name()),
        workflow_name: to_string(workflow_context.workflow_name()),
        run_id: Some(to_string(workflow_context.run_id())),
        status: ExecutionStatus::Running,
        started_at: Some(instant_debug(workflow_context.started_at())),
        completed_at: None,
        duration: Some(elapsed.debug_text()),
    };
    Ok(WorkflowGraph {
        dependency_graph,
        workflow_metadata,
        execution_nodes: Vec::new(),
        execution_flow: Vec::new(),
    })
}

/// Exports a workflow graph. JSON and YAML need serialization support, which this layer
/// lacks, and answer so; other formats are not supported for workflows.
pub fn export_workflow_graph(workflow_context: &WorkflowContext, format: ExportFormat) -> (r: DiResult<String>)
    ensures
        format == ExportFormat::Json ==> (r matches Err(DiError::NotFound(m)) && m@
            == "JSON export requires 'graph-export' feature"@),
        format == ExportFormat::Yaml ==> (r matches Err(DiError::NotFound(m)) && m@
            == "YAML export requires 'graph-export' feature"@),
        format != ExportFormat::Json && format != ExportFormat::Yaml ==> (r matches Err(
            DiError::NotFound(m),
        ) && m@ == "Workflow format not supported"@),
{
    let _workflow_graph = match build_workflow_graph(workflow_context) {
        Ok(w) => w,
        Err(e) => return Err(e),
    };
    match format {
        ExportFormat::Json => Err(DiError::NotFound("JSON export requires 'graph-export' feature")),
        ExportFormat::Yaml => Err(DiError::NotFound("YAML export requires 'graph-export' feature")),
        _ => Err(DiError::NotFound("Workflow format not supported")),
    }
}

} // verus!
