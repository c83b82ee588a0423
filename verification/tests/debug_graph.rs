use std::any::TypeId;
use ferrous_di::debug::analysis::{
    analyze_nodes, build_tree_string, calculate_depths, calculate_reference_counts, find_circular_dependencies,
    find_unused_services, mark_circular_dependencies,
};
use ferrous_di::debug::{DependencyGraphAnalyzer, GraphNode, NodeMetadata, ResolutionTracer, TraceResult};
use ferrous_di::descriptors::ServiceDescriptor;
use ferrous_di::key::Key;
use ferrous_di::lifetime::Lifetime;
use ferrous_di::registry::{Registration, Registry};

fn node(name: &'static str, deps: &[&'static str], dependents: &[&'static str]) -> GraphNode {
    let key = Key::Trait(name);
    GraphNode {
        key,
        descriptor: ServiceDescriptor {
            key,
            lifetime: Lifetime::Singleton,
            impl_type_id: None,
            impl_type_name: None,
            has_metadata: false,
        },
        dependencies: deps.iter().map(|d| Key::Trait(d)).collect(),
        dependents: dependents.iter().map(|d| Key::Trait(d)).collect(),
        metadata: NodeMetadata::default(),
    }
}

#[test]
fn depths_follow_dependents_breadth_first() {
    // a <- b <- c, and a <- c directly: c is one step from the root.
    let mut nodes = vec![
        node("c", &["b", "a"], &[]),
        node("b", &["a"], &["c"]),
        node("a", &[], &["b", "c"]),
        node("lonely", &["missing"], &[]),
    ];
    nodes[3].metadata.depth = 7;
    calculate_depths(&mut nodes);
    assert_eq!(nodes[2].metadata.depth, 0);
    assert_eq!(nodes[1].metadata.depth, 1);
    assert_eq!(nodes[0].metadata.depth, 1);
    // not reached from a root: untouched
    assert_eq!(nodes[3].metadata.depth, 7);
}

#[test]
fn reference_counts_are_dependent_counts() {
    let mut nodes = vec![node("a", &[], &["b", "c"]), node("b", &["a"], &[])];
    calculate_reference_counts(&mut nodes);
    assert_eq!(nodes[0].metadata.reference_count, 2);
    assert_eq!(nodes[1].metadata.reference_count, 0);
}

#[test]
fn cycle_is_found_and_marked() {
    let mut nodes = vec![node("a", &["b"], &["b"]), node("b", &["a"], &["a"]), node("c", &[], &[])];
    let cycles = find_circular_dependencies(&nodes);
    assert_eq!(cycles.len(), 1);
    assert_eq!(cycles[0], vec![Key::Trait("a"), Key::Trait("b")]);
    mark_circular_dependencies(&mut nodes);
    assert!(nodes[0].metadata.is_circular);
    assert!(nodes[1].metadata.is_circular);
    assert!(!nodes[2].metadata.is_circular);
}

#[test]
fn acyclic_graph_has_no_cycles() {
    let nodes = vec![node("a", &["b"], &[]), node("b", &["c"], &["a"]), node("c", &[], &["b"])];
    assert!(find_circular_dependencies(&nodes).is_empty());
}

#[test]
fn unused_services_have_no_dependents() {
    let nodes = vec![node("a", &[], &["b"]), node("b", &["a"], &[])];
    assert_eq!(find_unused_services(&nodes), vec![Key::Trait("b")]);
}

#[test]
fn tree_descends_and_marks_cycles() {
    let nodes = vec![node("a", &["b"], &[]), node("b", &["a", "zzz"], &[])];
    let mut visited = vec![false, false];
    let mut out = String::new();
    build_tree_string(&nodes, &Key::Trait("a"), 0, &mut visited, &mut out);
    assert_eq!(
        out,
        "└─ a [S] (depth: 0, refs: 0)\n  └─ b [S] (depth: 0, refs: 0)\n    └─ a (circular reference)\n"
    );
    assert_eq!(visited, vec![false, false]);
}

#[test]
fn analysis_counts_the_graph() {
    let mut many = node("hub", &["a", "b", "c", "d", "e", "f"], &[]);
    many.metadata.depth = 2;
    let nodes = vec![many, node("a", &[], &["hub"]), node("b", &[], &[])];
    let a = analyze_nodes(&nodes);
    assert_eq!(a.service_count, 3);
    assert_eq!(a.dependency_count, 6);
    assert_eq!(a.max_depth, 2);
    assert_eq!(a.total_depth, 2);
    assert_eq!(a.leaf_services, vec![Key::Trait("a"), Key::Trait("b")]);
    assert_eq!(a.high_dependency_services, vec![(Key::Trait("hub"), 6)]);
    assert!(a.circular_dependencies.is_empty());
    assert_eq!(a.unused_services, vec![Key::Trait("hub"), Key::Trait("b")]);
}

#[test]
fn analyzer_tree_and_dot_over_a_registry() {
    let mut registry: Registry<u8> = Registry::new();
    registry.insert(
        Key::Type(TypeId::of::<u32>(), "u32"),
        Registration::with_metadata(Lifetime::Scoped, 0u8, false, None),
    );
    let analyzer = DependencyGraphAnalyzer::new(registry);
    assert_eq!(
        analyzer.to_tree(&Key::Type(TypeId::of::<u32>(), "u32")),
        "└─ u32 [C] (depth: 0, refs: 0)\n"
    );
    assert_eq!(analyzer.to_tree(&Key::Trait("absent")), "");
    let dot = analyzer.to_dot();
    assert!(dot.contains("\"u32\" [label=\"u32\\nDepth: 0\\nRefs: 0\" fillcolor=lightgreen style=\"filled\"]; \n"));
    let graph = analyzer.build_graph();
    assert_eq!(graph.len(), 1);
    let analysis = analyzer.analyze();
    assert_eq!(analysis.service_count, 1);
    assert_eq!(analysis.unused_services, vec![Key::Type(TypeId::of::<u32>(), "u32")]);
}

#[test]
#[allow(unused_comparisons)]
fn test_dependency_graph_analyzer() {
    let registry: Registry<u8> = Registry::new();
    let analyzer = DependencyGraphAnalyzer::new(registry);
    let analysis = analyzer.analyze();
    assert!(analysis.service_count >= 0);
    assert!(analysis.max_depth >= 0);
}

#[test]
fn test_resolution_tracer() {
    let mut tracer = ResolutionTracer::new();
    let key = Key::Type(TypeId::of::<String>(), "String");

    tracer.enable();
    tracer.trace_start(&key, 0);
    tracer.trace_success(&key);

    let trace = tracer.get_trace();
    assert_eq!(trace.len(), 1);
    assert!(matches!(trace[0].result, TraceResult::Success));
    assert!(trace[0].duration.is_some());

    let formatted = tracer.format_trace();
    assert!(formatted.contains("String"));
    assert!(formatted.contains("✅ Success"));
}

#[test]
fn trace_lines_are_indented_and_timed() {
    let mut tracer = ResolutionTracer::new();
    tracer.enable();
    tracer.trace_start(&Key::Trait("outer"), 0);
    tracer.trace_start(&Key::Trait("inner"), 1);
    tracer.trace_error(&Key::Trait("inner"), "boom");
    let text = tracer.format_trace();
    let lines: Vec<&str> = text.lines().collect();
    assert_eq!(lines[0], "outer - ⏳ Started");
    assert!(lines[1].starts_with("  inner - ❌ Error: boom ("));
    assert!(lines[1].ends_with("ms)"));
}
