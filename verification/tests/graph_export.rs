use ferrous_di::graph_export::workflow_integration::{self, ExecutionStatus};
use ferrous_di::graph_export::{
    exports, DefaultGraphExporter, DependencyGraph, DependencyType, ExportFormat, ExportOptions,
    GraphBuilder, GraphEdge, GraphExporter, GraphMetadata, GraphNode,
};
use ferrous_di::error::DiError;
use ferrous_di::scope_local::WorkflowContext;
use ferrous_di::textmap::TextMap;

#[test]
fn test_graph_edge_creation() {
    let edge = GraphEdge {
        from: "service_1".to_string(),
        to: "service_2".to_string(),
        dependency_type: DependencyType::Required,
        metadata: TextMap::new(),
    };

    assert_eq!(edge.from, "service_1");
    assert_eq!(edge.to, "service_2");
    assert_eq!(edge.dependency_type, DependencyType::Required);
}

#[test]
fn test_export_options_default() {
    let options = ExportOptions::default();
    assert!(options.include_dependencies);
    assert!(options.include_lifetimes);
    assert!(options.include_metadata);
    assert!(!options.include_layout);
    assert!(options.type_filter.is_empty());
    assert!(options.max_depth.is_none());
    assert!(!options.include_internal);
}

#[test]
fn test_workflow_status() {
    assert_eq!(ExecutionStatus::Running, ExecutionStatus::Running);
    assert_ne!(ExecutionStatus::Running, ExecutionStatus::Completed);
}

#[test]
fn test_graph_builder_creation() {
    let builder = GraphBuilder::new();
    // Should not panic and should create successfully
    drop(builder);
}

fn node(id: &str, name: &str, lifetime: &str, is_trait: bool) -> GraphNode {
    GraphNode {
        id: id.to_string(),
        type_display_name: name.to_string(),
        lifetime: lifetime.to_string(),
        is_trait,
        dependencies: vec![],
        metadata: TextMap::new(),
    }
}

fn sample_graph() -> DependencyGraph {
    DependencyGraph {
        nodes: vec![node("a", "Alpha", "Singleton", false), node("b", "Beta", "Other", true)],
        edges: vec![
            GraphEdge {
                from: "a".to_string(),
                to: "b".to_string(),
                dependency_type: DependencyType::Optional,
                metadata: TextMap::new(),
            },
            GraphEdge {
                from: "b".to_string(),
                to: "a".to_string(),
                dependency_type: DependencyType::Multiple,
                metadata: TextMap::new(),
            },
        ],
        metadata: GraphMetadata {
            service_count: 2,
            trait_count: 1,
            singleton_count: 1,
            scoped_count: 0,
            transient_count: 0,
            has_circular_dependencies: false,
            exported_at: "2024-01-01T00:00:00Z".to_string(),
            version: "1.0.0".to_string(),
        },
        layout: None,
    }
}

#[test]
fn dot_export_exact() {
    let exporter = DefaultGraphExporter;
    let out = exporter.export(&sample_graph(), ExportFormat::Dot, &ExportOptions::default()).unwrap();
    let expected = [
        "digraph DependencyGraph {\n  rankdir=TB;\n  node [shape=box];\n\n",
        "  \"a\" [label=\"Alpha\\n(Singleton)\", shape=box, fillcolor=lightblue, style=filled];\n",
        "  \"b\" [label=\"Beta\\n(Other)\", shape=ellipse, fillcolor=white, style=filled];\n",
        "\n",
        "  \"a\" -> \"b\" [style=dashed];\n",
        "  \"b\" -> \"a\" [style=bold];\n",
        "}\n",
    ]
    .concat();
    assert_eq!(out, expected);
}

#[test]
fn mermaid_export_exact_and_filtered() {
    let exporter = DefaultGraphExporter;
    let mut options = ExportOptions::default();
    options.type_filter = vec!["Beta".to_string()];
    let out = exporter.export(&sample_graph(), ExportFormat::Mermaid, &options).unwrap();
    let expected = "graph TD\n  b(Beta)\n  a -.-> b\n  b ==> a\n\n  classDef singleton fill:#e1f5fe\n  classDef scoped fill:#e8f5e8\n  classDef transient fill:#fff3e0\n  class a singleton\n";
    assert_eq!(out, expected);
}

#[test]
fn unsupported_formats_are_errors() {
    let exporter = DefaultGraphExporter;
    match exporter.export(&sample_graph(), ExportFormat::Custom("n8n"), &ExportOptions::default()) {
        Err(DiError::NotFound(m)) => assert_eq!(m, "Unsupported custom format: n8n"),
        _ => panic!("expected an error"),
    }
    assert!(exports::to_json().is_err());
    let dot = exports::to_dot().unwrap();
    assert_eq!(dot, "digraph DependencyGraph {\n  rankdir=TB;\n  node [shape=box];\n\n\n}\n");
}

#[test]
fn built_graph_is_empty_with_layout_on_request() {
    let mut options = ExportOptions::default();
    options.include_layout = true;
    let g = GraphBuilder::new().with_options(options).build_graph().unwrap();
    assert!(g.nodes.is_empty());
    assert_eq!(g.metadata.version, "1.0.0");
    assert_eq!(g.layout.unwrap().algorithm, "hierarchical");
}

#[test]
fn workflow_graph_carries_run_metadata() {
    let ctx = WorkflowContext::with_run_id("run-9", "flow");
    let w = workflow_integration::build_workflow_graph(&ctx).unwrap();
    assert_eq!(w.workflow_metadata.workflow_id, "flow");
    assert_eq!(w.workflow_metadata.run_id.as_deref(), Some("run-9"));
    assert_eq!(w.workflow_metadata.status, ExecutionStatus::Running);
    assert!(w.workflow_metadata.duration.is_some());
    match workflow_integration::export_workflow_graph(&ctx, ExportFormat::Dot) {
        Err(DiError::NotFound(m)) => assert_eq!(m, "Workflow format not supported"),
        _ => panic!("expected an error"),
    }
}

#[test]
fn test_graph_node_creation() {
    let node = GraphNode {
        id: "service_1".to_string(),
        type_display_name: "UserService".to_string(),
        lifetime: "Singleton".to_string(),
        is_trait: false,
        dependencies: vec!["DatabaseService".to_string()],
        metadata: TextMap::new(),
    };

    assert_eq!(node.id, "service_1");
    assert_eq!(node.type_display_name, "UserService");
    assert!(!node.is_trait);
    assert_eq!(node.dependencies.len(), 1);
}

#[test]
fn build_graph_stamps_rfc3339_utc_time() {
    let graph = GraphBuilder::new().build_graph().unwrap();
    let stamp = &graph.metadata.exported_at;
    assert!(stamp.len() >= 25);
    assert!(stamp.contains('T'));
    assert!(stamp.ends_with("+00:00"));
}
