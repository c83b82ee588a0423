//! Graph export of the container's structure for visualization, debugging and UIs.
//!
//! DOT and Mermaid texts are built here; JSON and YAML need serde derives on these types,
//! which only the application layer can add, so here they answer as a build without
//! serialization support does.
use vstd::prelude::*;
use crate::error::{DiError, DiResult};
use crate::support::{str_eq, leak_string, unix_time_nanos};
use crate::text::{push_str, to_string};
use crate::textmap::TextMap;

pub mod exports;
pub mod workflow_integration;

verus! {

/// A node in the dependency graph representing a service or trait registration.
pub struct GraphNode {
    /// Unique identifier for this node
    pub id: String,
    /// Display name of the service type
    pub type_display_name: String,
    /// Service lifetime (Singleton, Scoped, Transient)
    pub lifetime: String,
    /// Whether this is a trait registration
    pub is_trait: bool,
    /// List of dependency type names this service requires
    pub dependencies: Vec<String>,
    /// Additional metadata about the service
    pub metadata: TextMap<String>,
}

/// An edge in the dependency graph representing a dependency relationship.
pub struct GraphEdge {
    /// Source node ID (the service that depends on another)
    pub from: String,
    /// Target node ID (the service being depended upon)
    pub to: String,
    /// Type of dependency (required, optional, multiple, etc.)
    pub dependency_type: DependencyType,
    /// Additional metadata about this relationship
    pub metadata: TextMap<String>,
}

/// Types of dependency relationships between services.
#[derive(Debug, Clone, Copy, PartialEq, Eq, Structural)]
pub enum DependencyType {
    /// Required single dependency
    Required,
    /// Optional dependency (might not be present)
    Optional,
    /// Multiple instances of the same service
    Multiple,
    /// Trait dependency
    Trait,
    /// Factory dependency (service creates other services)
    Factory,
    /// Scoped dependency (specific to scope context)
    Scoped,
    /// Decorated dependency (wrapped by decorators)
    Decorated,
}

/// Complete dependency graph export containing all nodes and relationships.
pub struct DependencyGraph {
    /// All service nodes in the graph
    pub nodes: Vec<GraphNode>,
    /// All dependency relationships between nodes
    pub edges: Vec<GraphEdge>,
    /// Graph-level metadata
    pub metadata: GraphMetadata,
    /// Layout information for visualization
    pub layout: Option<GraphLayout>,
}

/// Metadata about the entire dependency graph.
#[derive(Debug, Clone)]
pub struct GraphMetadata {
    /// Total number of registered services
    pub service_count: usize,
    /// Total number of trait registrations
    pub trait_count: usize,
    /// Number of singleton services
    pub singleton_count: usize,
    /// Number of scoped services
    pub scoped_count: usize,
    /// Number of transient services
    pub transient_count: usize,
    /// Whether circular dependencies were detected
    pub has_circular_dependencies: bool,
    /// Export timestamp
    pub exported_at: String,
    /// Export format version
    pub version: String,
}

/// Layout information for graph visualization.
pub struct GraphLayout {
    /// Suggested layout algorithm
    pub algorithm: String,
    /// Layout-specific parameters
    pub parameters: TextMap<String>,
}

/// Graph export configuration options.
pub struct ExportOptions {
    /// Include dependency details in nodes
    pub include_dependencies: bool,
    /// Include lifetime information
    pub include_lifetimes: bool,
    /// Include metadata in export
    pub include_metadata: bool,
    /// Generate layout hints for visualization
    pub include_layout: bool,
    /// Filter to specific service types (empty = all)
    pub type_filter: Vec<String>,
    /// Maximum depth for dependency traversal
    pub max_depth: Option<usize>,
    /// Include internal/system services
    pub include_internal: bool,
}

impl Default for ExportOptions {
    fn default() -> (o: ExportOptions)
        ensures
            o.include_dependencies,
            o.include_lifetimes,
            o.include_metadata,
            !o.include_layout,
            o.type_filter@.len() == 0,
            o.max_depth is None,
            !o.include_internal,
    {
        ExportOptions {
            include_dependencies: true,
            include_lifetimes: true,
            include_metadata: true,
            include_layout: false,
            type_filter: Vec::new(),
            max_depth: None,
            include_internal: false,
        }
    }
}

/// Export formats supported for dependency graphs.
#[derive(Debug, Clone, Copy, PartialEq, Eq)]
pub enum ExportFormat {
    /// JSON format for web UIs and APIs
    Json,
    /// YAML format for human-readable configuration
    Yaml,
    /// DOT format for Graphviz visualization
    Dot,
    /// Mermaid format for documentation
    Mermaid,
    /// Custom format for specific workflow engines
    Custom(&'static str),
}

/// Graph exporter for generating dependency visualizations in a given format.
pub trait GraphExporter {
    /// Exports the dependency graph in the specified format.
    fn export(&self, graph: &DependencyGraph, format: ExportFormat, options: &ExportOptions) -> DiResult<String>;
}

/// Default graph exporter: DOT and Mermaid text.
#[derive(Default)]
pub struct DefaultGraphExporter;

/// Whether a node of this type passes the type filter (an empty filter passes all).
pub open spec fn passes_filter(filter: Seq<String>, type_display_name: Seq<char>) -> bool {
    filter.len() == 0 || exists|i: int| 0 <= i < filter.len() && #[trigger] filter[i]@ == type_display_name
}

/// The DOT fill color of a lifetime.
pub open spec fn dot_color(lifetime: Seq<char>) -> Seq<char> {
    if lifetime == "Singleton"@ {
        "lightblue"@
    } else if lifetime == "Scoped"@ {
        "lightgreen"@
    } else if lifetime == "Transient"@ {
        "lightyellow"@
    } else {
        "white"@
    }
}

/// The DOT line of a node.
pub open spec fn dot_node(n: GraphNode) -> Seq<char> {
    "  \""@ + n.id@ + "\" [label=\""@ + n.type_display_name@ + "\\n("@ + n.lifetime@ + ")\", shape="@
        + (if n.is_trait { "ellipse"@ } else { "box"@ }) + ", fillcolor="@ + dot_color(n.lifetime@)
        + ", style=filled];\n"@
}

/// The DOT lines of the nodes that pass the filter, in order.
pub open spec fn dot_nodes(ns: Seq<GraphNode>, filter: Seq<String>) -> Seq<char>
    decreases ns.len(),
{
    if ns.len() == 0 {
        Seq::empty()
    } else {
        dot_nodes(ns.drop_last(), filter) + if passes_filter(filter, ns.last().type_display_name@) {
            dot_node(ns.last())
        } else {
            Seq::empty()
        }
    }
}

/// The DOT line style of a dependency type.
pub open spec fn dot_style(t: DependencyType) -> Seq<char> {
    match t {
        DependencyType::Required => "solid"@,
        DependencyType::Optional => "dashed"@,
        DependencyType::Multiple => "bold"@,
        DependencyType::Trait => "dotted"@,
        _ => "solid"@,
    }
}

/// The DOT line of an edge.
pub open spec fn dot_edge(e: GraphEdge) -> Seq<char> {
    "  \""@ + e.from@ + "\" -> \""@ + e.to@ + "\" [style="@ + dot_style(e.dependency_type) + "];\n"@
}

/// The DOT lines of the edges, in order.
pub open spec fn dot_edges(es: Seq<GraphEdge>) -> Seq<char>
    decreases es.len(),
{
    if es.len() == 0 {
        Seq::empty()
    } else {
        dot_edges(es.drop_last()) + dot_edge(es.last())
    }
}

/// The whole DOT text of a graph.
pub open spec fn dot_text(g: DependencyGraph, filter: Seq<String>) -> Seq<char> {
    "digraph DependencyGraph {\n"@ + "  rankdir=TB;\n"@ + "  node [shape=box];\n\n"@ + dot_nodes(g.nodes@, filter)
        + "\n"@ + dot_edges(g.edges@) + "}\n"@
}

/// The nodes of `ns` whose type passes the filter, in order.
pub open spec fn nodes_passing(ns: Seq<GraphNode>, filter: Seq<String>) -> Seq<GraphNode>
    decreases ns.len(),
{
    if ns.len() == 0 {
        Seq::empty()
    } else if passes_filter(filter, ns.last().type_display_name@) {
        nodes_passing(ns.drop_last(), filter).push(ns.last())
    } else {
        nodes_passing(ns.drop_last(), filter)
    }
}

/// The node lines of `ns` under a filter are those of the nodes that pass it, unfiltered.
proof fn lemma_dot_nodes_filtered(ns: Seq<GraphNode>, filter: Seq<String>)
    ensures
        dot_nodes(ns, filter) == dot_nodes(nodes_passing(ns, filter), Seq::<String>::empty()),
    decreases ns.len(),
{
    if ns.len() > 0 {
        lemma_dot_nodes_filtered(ns.drop_last(), filter);
        let ps = nodes_passing(ns.drop_last(), filter);
        if passes_filter(filter, ns.last().type_display_name@) {
            assert(ps.push(ns.last()).drop_last() =~= ps);
            assert(passes_filter(Seq::<String>::empty(), ns.last().type_display_name@));
        }
    }
}

/// The type filter of the DOT export keeps exactly the nodes whose type passes it: a graph
/// exported under a filter gives the same text as the graph of only those nodes (same
/// edges) exported without a filter, and an empty filter keeps every node.
pub proof fn law_dot_filter_keeps_passing_nodes(g: DependencyGraph, kept: DependencyGraph, filter: Seq<String>)
    requires
        kept.nodes@ == nodes_passing(g.nodes@, filter),
        kept.edges@ == g.edges@,
    ensures
        dot_text(g, filter) == dot_text(kept, Seq::<String>::empty()),
        nodes_passing(g.nodes@, Seq::<String>::empty()) == g.nodes@,
{
    lemma_dot_nodes_filtered(g.nodes@, filter);
    lemma_nothing_filtered_out(g.nodes@);
}

/// An empty filter keeps every node.
proof fn lemma_nothing_filtered_out(ns: Seq<GraphNode>)
    ensures
        nodes_passing(ns, Seq::<String>::empty()) == ns,
    decreases ns.len(),
{
    if ns.len() > 0 {
        lemma_nothing_filtered_out(ns.drop_last());
        assert(ns.drop_last().push(ns.last()) =~= ns);
    }
}

/// The Mermaid line of a node: round brackets for traits, square ones otherwise.
pub open spec fn mermaid_node(n: GraphNode) -> Seq<char> {
    "  "@ + n.id@ + (if n.is_trait { "("@ } else { "["@ }) + n.type_display_name@ + (if n.is_trait {
        ")"@
    } else {
        "]"@
    }) + "\n"@
}

/// The Mermaid lines of the nodes that pass the filter, in order.
pub open spec fn mermaid_nodes(ns: Seq<GraphNode>, filter: Seq<String>) -> Seq<char>
    decreases ns.len(),
{
    if ns.len() == 0 {
        Seq::empty()
    } else {
        mermaid_nodes(ns.drop_last(), filter) + if passes_filter(filter, ns.last().type_display_name@) {
            mermaid_node(ns.last())
        } else {
            Seq::empty()
        }
    }
}

/// The Mermaid arrow of a dependency type.
pub open spec fn mermaid_arrow(t: DependencyType) -> Seq<char> {
    match t {
        DependencyType::Optional => "-.->"@,
        DependencyType::Multiple => "==>"@,
        _ => "-->"@,
    }
}

/// The Mermaid lines of the edges, in order.
pub open spec fn mermaid_edges(es: Seq<GraphEdge>) -> Seq<char>
    decreases es.len(),
{
    if es.len() == 0 {
        Seq::empty()
    } else {
        mermaid_edges(es.drop_last()) + "  "@ + es.last().from@ + " "@ + mermaid_arrow(
            es.last().dependency_type,
        ) + " "@ + es.last().to@ + "\n"@
    }
}

/// The Mermaid class of a lifetime, if it has one.
pub open spec fn mermaid_class(lifetime: Seq<char>) -> Option<Seq<char>> {
    if lifetime == "Singleton"@ {
        Some("singleton"@)
    } else if lifetime == "Scoped"@ {
        Some("scoped"@)
    } else if lifetime == "Transient"@ {
        Some("transient"@)
    } else {
        None
    }
}

/// The Mermaid class lines of every node with a known lifetime (the type filter does not
/// apply here).
pub open spec fn mermaid_classes(ns: Seq<GraphNode>) -> Seq<char>
    decreases ns.len(),
{
    if ns.len() == 0 {
        Seq::empty()
    } else {
        mermaid_classes(ns.drop_last()) + match mermaid_class(ns.last().lifetime@) {
            Some(c) => "  class "@ + ns.last().id@ + " "@ + c + "\n"@,
            None => Seq::empty(),
        }
    }
}

/// The class definitions that close a Mermaid text.
pub open spec fn mermaid_styles() -> Seq<char> {
    "\n  classDef singleton fill:#e1f5fe\n"@ + "  classDef scoped fill:#e8f5e8\n"@
        + "  classDef transient fill:#fff3e0\n"@
}

/// The whole Mermaid text of a graph.
pub open spec fn mermaid_text(g: DependencyGraph, filter: Seq<String>) -> Seq<char> {
    "graph TD\n"@ + mermaid_nodes(g.nodes@, filter) + mermaid_edges(g.edges@) + mermaid_styles()
        + mermaid_classes(g.nodes@)
}

/// The message of a custom format that is not supported.
pub open spec fn unsupported_format_message(name: Seq<char>) -> Seq<char> {
    "Unsupported custom format: "@ + name
}

/// What the default exporter answers.
pub open spec fn default_export(g: DependencyGraph, format: ExportFormat, filter: Seq<String>, r: DiResult<String>) -> bool {
    match format {
        ExportFormat::Json => r matches Err(DiError::NotFound(m)) && m@
            == "JSON export requires 'graph-export' feature"@,
        ExportFormat::Yaml => r matches Err(DiError::NotFound(m)) && m@
            == "YAML export requires 'graph-export' feature"@,
        ExportFormat::Dot => r matches Ok(s) && s@ == dot_text(g, filter),
        ExportFormat::Mermaid => r matches Ok(s) && s@ == mermaid_text(g, filter),
        ExportFormat::Custom(name) => r matches Err(DiError::NotFound(m)) && m@
            == unsupported_format_message(name@),
    }
}

/// Whether `name` is in the filter list.
fn filter_contains(filter: &Vec<String>, name: &String) -> (r: bool)
    ensures
        r == exists|i: int| 0 <= i < filter@.len() && #[trigger] filter@[i]@ == name@,
{
    let mut i: usize = 0;
    while i < filter.len()
        invariant
            0 <= i <= filter@.len(),
            forall|j: int| 0 <= j < i ==> #[trigger] filter@[j]@ != name@,
        decreases filter@.len() - i,
    {
        if str_eq(filter[i].as_str(), name.as_str()) {
            return true;
        }
        i = i + 1;
    }
    false
}

/// Whether a node of this type passes the filter.
fn admits(filter: &Vec<String>, type_display_name: &String) -> (r: bool)
    ensures
        r == passes_filter(filter@, type_display_name@),
{
    filter.len() == 0 || filter_contains(filter, type_display_name)
}

/// The DOT fill color of a lifetime.
fn dot_color_of(lifetime: &str) -> (r: &'static str)
    ensures
        r@ == dot_color(lifetime@),
{
    if str_eq(lifetime, "Singleton") {
        "lightblue"
    } else if str_eq(lifetime, "Scoped") {
        "lightgreen"
    } else if str_eq(lifetime, "Transient") {
        "lightyellow"
    } else {
        "white"
    }
}

/// The DOT line style of a dependency type.
fn dot_style_of(t: DependencyType) -> (r: &'static str)
    ensures
        r@ == dot_style(t),
{
    match t {
        DependencyType::Required => "solid",
        DependencyType::Optional => "dashed",
        DependencyType::Multiple => "bold",
        DependencyType::Trait => "dotted",
        _ => "solid",
    }
}

/// The Mermaid arrow of a dependency type.
fn mermaid_arrow_of(t: DependencyType) -> (r: &'static str)
    ensures
        r@ == mermaid_arrow(t),
{
    match t {
        DependencyType::Optional => "-.->",
        DependencyType::Multiple => "==>",
        _ => "-->",
    }
}

/// The Mermaid class of a lifetime, if it has one.
fn mermaid_class_of(lifetime: &str) -> (r: Option<&'static str>)
    ensures
        r is None <==> mermaid_class(lifetime@) is None,
        r matches Some(c) ==> mermaid_class(lifetime@) == Some(c@),
{
    if str_eq(lifetime, "Singleton") {
        Some("singleton")
    } else if str_eq(lifetime, "Scoped") {
        Some("scoped")
    } else if str_eq(lifetime, "Transient") {
        Some("transient")
    } else {
        None
    }
}

impl DefaultGraphExporter {
    /// Exports graph as DOT format for Graphviz: the nodes that pass the type filter, then
    /// every edge.
    #[verifier::rlimit(40)]
    #[verifier::spinoff_prover]
    pub fn export_dot(&self, graph: &DependencyGraph, options: &ExportOptions) -> (r: DiResult<String>)
        ensures
            r matches Ok(s) && s@ == dot_text(*graph, options.type_filter@),
    {
        let mut out = String::new();
        push_str(&mut out, "digraph DependencyGraph {\n");
        push_str(&mut out, "  rankdir=TB;\n");
        push_str(&mut out, "  node [shape=box];\n\n");
        let ghost head = out@;
        assert(head =~= "digraph DependencyGraph {\n"@ + "  rankdir=TB;\n"@ + "  node [shape=box];\n\n"@);
        let ns = &graph.nodes;
        let filter = &options.type_filter;
        let mut i: usize = 0;
        while i < ns.len()
            invariant
                0 <= i <= ns@.len(),
                out@ == head + dot_nodes(ns@.take(i as int), filter@),
            decreases ns@.len() - i,
        {
            let node = &ns[i];
            if admits(filter, &node.type_display_name) {
                push_str(&mut out, "  \"");
                push_str(&mut out, node.id.as_str());
                push_str(&mut out, "\" [label=\"");
                push_str(&mut out, node.type_display_name.as_str());
                push_str(&mut out, "\\n(");
                push_str(&mut out, node.lifetime.as_str());
                push_str(&mut out, ")\", shape=");
                push_str(&mut out, if node.is_trait { "ellipse" } else { "box" });
                push_str(&mut out, ", fillcolor=");
                push_str(&mut out, dot_color_of(node.lifetime.as_str()));
                push_str(&mut out, ", style=filled];\n");
            }
            proof {
                assert(ns@.take(i + 1).drop_last() =~= ns@.take(i as int));
                assert(ns@.take(i + 1).last() == ns@[i as int]);
            }
            i = i + 1;
        }
        proof {
            assert(ns@.take(ns@.len() as int) =~= ns@);
        }
        push_str(&mut out, "\n");
        let ghost mid = out@;
        let es = &graph.edges;
        let mut j: usize = 0;
        while j < es.len()
            invariant
                0 <= j <= es@.len(),
                out@ == mid + dot_edges(es@.take(j as int)),
            decreases es@.len() - j,
        {
            let edge = &es[j];
            push_str(&mut out, "  \"");
            push_str(&mut out, edge.from.as_str());
            push_str(&mut out, "\" -> \"");
            push_str(&mut out, edge.to.as_str());
            push_str(&mut out, "\" [style=");
            push_str(&mut out, dot_style_of(edge.dependency_type));
            push_str(&mut out, "];\n");
            proof {
                assert(es@.take(j + 1).drop_last() =~= es@.take(j as int));
                assert(es@.take(j + 1).last() == es@[j as int]);
            }
            j = j + 1;
        }
        proof {
            assert(es@.take(es@.len() as int) =~= es@);
        }
        push_str(&mut out, "}\n");
        Ok(out)
    }

    /// Exports graph as Mermaid format: the nodes that pass the type filter, every edge, the
    /// class definitions, then a class line for every node with a known lifetime.
    #[verifier::rlimit(40)]
    pub fn export_mermaid(&self, graph: &DependencyGraph, options: &ExportOptions) -> (r: DiResult<String>)
        ensures
            r matches Ok(s) && s@ == mermaid_text(*graph, options.type_filter@),
    {
        let mut out = String::new();
        push_str(&mut out, "graph TD\n");
        let ghost head = out@;
        assert(head =~= "graph TD\n"@);
        let ns = &graph.nodes;
        let filter = &options.type_filter;
        let mut i: usize = 0;
        while i < ns.len()
            invariant
                0 <= i <= ns@.len(),
                out@ == head + mermaid_nodes(ns@.take(i as int), filter@),
            decreases ns@.len() - i,
        {
            let node = &ns[i];
            if admits(filter, &node.type_display_name) {
                push_str(&mut out, "  ");
                push_str(&mut out, node.id.as_str());
                push_str(&mut out, if node.is_trait { "(" } else { "[" });
                push_str(&mut out, node.type_display_name.as_str());
                push_str(&mut out, if node.is_trait { ")" } else { "]" });
                push_str(&mut out, "\n");
            }
            proof {
                assert(ns@.take(i + 1).drop_last() =~= ns@.take(i as int));
                assert(ns@.take(i + 1).last() == ns@[i as int]);
            }
            i = i + 1;
        }
        proof {
            assert(ns@.take(ns@.len() as int) =~= ns@);
        }
        let ghost mid = out@;
        let es = &graph.edges;
        let mut j: usize = 0;
        while j < es.len()
            invariant
                0 <= j <= es@.len(),
                out@ == mid + mermaid_edges(es@.take(j as int)),
            decreases es@.len() - j,
        {
            let edge = &es[j];
            push_str(&mut out, "  ");
            push_str(&mut out, edge.from.as_str());
            push_str(&mut out, " ");
            push_str(&mut out, mermaid_arrow_of(edge.dependency_type));
            push_str(&mut out, " ");
            push_str(&mut out, edge.to.as_str());
            push_str(&mut out, "\n");
            proof {
                assert(es@.take(j + 1).drop_last() =~= es@.take(j as int));
                assert(es@.take(j + 1).last() == es@[j as int]);
            }
            j = j + 1;
        }
        proof {
            assert(es@.take(es@.len() as int) =~= es@);
        }
        push_str(&mut out, "\n  classDef singleton fill:#e1f5fe\n");
        push_str(&mut out, "  classDef scoped fill:#e8f5e8\n");
        push_str(&mut out, "  classDef transient fill:#fff3e0\n");
        let ghost tail = out@;
        let mut k: usize = 0;
        while k < ns.len()
            invariant
                0 <= k <= ns@.len(),
                out@ == tail + mermaid_classes(ns@.take(k as int)),
            decreases ns@.len() - k,
        {
            let node = &ns[k];
            match mermaid_class_of(node.lifetime.as_str()) {
                Some(class) => {
                    push_str(&mut out, "  class ");
                    push_str(&mut out, node.id.as_str());
                    push_str(&mut out, " ");
                    push_str(&mut out, class);
                    push_str(&mut out, "\n");
                },
                None => {},
            }
            proof {
                assert(ns@.take(k + 1).drop_last() =~= ns@.take(k as int));
                assert(ns@.take(k + 1).last() == ns@[k as int]);
            }
            k = k + 1;
        }
        proof {
            assert(ns@.take(ns@.len() as int) =~= ns@);
        }
        Ok(out)
    }
}

impl DefaultGraphExporter {
    /// Exports graph as JSON: this exporter has no serializer, so the export is refused
    /// (serialization of a graph is done outside the library).
    fn export_json(&self, graph: &DependencyGraph, options: &ExportOptions) -> (r: DiResult<String>)
        ensures
            r matches Err(DiError::NotFound(m)) && m@ == "JSON export requires 'graph-export' feature"@,
    {
        Err(DiError::NotFound("JSON export requires 'graph-export' feature"))
    }

    /// Exports graph as YAML: refused like JSON.
    fn export_yaml(&self, graph: &DependencyGraph, options: &ExportOptions) -> (r: DiResult<String>)
        ensures
            r matches Err(DiError::NotFound(m)) && m@ == "YAML export requires 'graph-export' feature"@,
    {
        Err(DiError::NotFound("YAML export requires 'graph-export' feature"))
    }
}

impl GraphExporter for DefaultGraphExporter {
    fn export(&self, graph: &DependencyGraph, format: ExportFormat, options: &ExportOptions) -> (r: DiResult<String>)
        ensures
            default_export(*graph, format, options.type_filter@, r),
    {
        match format {
            ExportFormat::Json => self.export_json(graph, options),
            ExportFormat::Yaml => self.export_yaml(graph, options),
            ExportFormat::Dot => self.export_dot(graph, options),
            ExportFormat::Mermaid => self.export_mermaid(graph, options),
            ExportFormat::Custom(name) => {
                let mut message = String::new();
                push_str(&mut message, "Unsupported custom format: ");
                push_str(&mut message, name);
                Err(DiError::NotFound(leak_string(message)))
            },
        }
    }
}

/// The RFC 3339 text chrono gives for the UTC date-time `secs` seconds and `nanos`
/// nanoseconds after the Unix epoch; it depends on these numbers alone.
pub uninterp spec fn rfc3339_of(secs: i64, nanos: u32) -> Seq<char>;

/// chrono's `DateTime::<Utc>::from_timestamp`, whose date-time is turned into text by its
/// `to_rfc3339`. Claimed, as chrono's source shows: a date-time exists for every count of
/// seconds from the epoch up to 10^11 (days within chrono's range) with a nanosecond part
/// below one second, and its text is `rfc3339_of` of the two numbers.
#[verifier::external_body]
fn rfc3339_at(secs: i64, nanos: u32) -> (r: Option<String>)
    ensures
        0 <= secs <= 100_000_000_000 && nanos < 1_000_000_000 ==> r is Some,
        r matches Some(t) ==> t@ == rfc3339_of(secs, nanos),
{
    match chrono::DateTime::<chrono::Utc>::from_timestamp(secs, nanos) {
        Some(t) => Some(t.to_rfc3339()),
        None => None,
    }
}

/// The current UTC time in RFC 3339 form, from the system clock's reading of nanoseconds
/// since the Unix epoch (a clock set before the epoch reads as the epoch).
fn utc_now_rfc3339() -> (r: String)
    ensures
        exists|n: u64| r@ == #[trigger] rfc3339_of((n / 1_000_000_000) as i64, (n % 1_000_000_000) as u32),
{
    let n = unix_time_nanos();
    let secs = n / 1_000_000_000;
    let nanos = n % 1_000_000_000;
    assert(secs <= 100_000_000_000) by (nonlinear_arith)
        requires
            secs == n / 1_000_000_000,
    ;
    match rfc3339_at(secs as i64, nanos as u32) {
        Some(t) => t,
        None => String::new(),
    }
}

/// Builder for dependency graphs of a container, and their export.
pub struct GraphBuilder<E> {
    options: ExportOptions,
    exporter: E,
}

/// What a freshly built graph holds: no nodes or edges, zero counts, no cycles, version
/// `1.0.0`, and a hierarchical layout exactly when layout hints were asked for.
pub open spec fn is_fresh_graph(g: DependencyGraph, include_layout: bool) -> bool {
    &&& g.nodes@.len() == 0
    &&& g.edges@.len() == 0
    &&& g.metadata.service_count == 0
    &&& g.metadata.trait_count == 0
    &&& g.metadata.singleton_count == 0
    &&& g.metadata.scoped_count == 0
    &&& g.metadata.transient_count == 0
    &&& !g.metadata.has_circular_dependencies
    &&& g.metadata.version@ == "1.0.0"@
    &&& (g.layout is Some <==> include_layout)
    &&& (g.layout matches Some(l) ==> l.algorithm@ == "hierarchical"@ && l.parameters.view().len() == 0
        && l.parameters.wf())
}

impl GraphBuilder<DefaultGraphExporter> {
    /// Creates a new graph builder with default options and the default exporter.
    pub fn new() -> (b: GraphBuilder<DefaultGraphExporter>)
        ensures
            b.options().include_dependencies,
            b.options().include_lifetimes,
            b.options().include_metadata,
            !b.options().include_layout,
            b.options().type_filter@.len() == 0,
            b.options().max_depth is None,
            !b.options().include_internal,
    {
        GraphBuilder { options: ExportOptions::default(), exporter: DefaultGraphExporter }
    }
}

impl<E: GraphExporter> GraphBuilder<E> {
    /// The export options.
    pub closed spec fn options(&self) -> ExportOptions {
        self.options
    }

    /// The exporter.
    pub closed spec fn exporter(&self) -> E {
        self.exporter
    }

    /// Sets export options for the graph builder.
    pub fn with_options(self, options: ExportOptions) -> (b: Self)
        ensures
            b.options() == options,
            b.exporter() == self.exporter(),
    {
        GraphBuilder { options, exporter: self.exporter }
    }

    /// Sets a custom graph exporter.
    pub fn with_exporter<F: GraphExporter>(self, exporter: F) -> (b: GraphBuilder<F>)
        ensures
            b.options() == self.options(),
            b.exporter() == exporter,
    {
        GraphBuilder { options: self.options, exporter }
    }

    /// Builds a dependency graph: no registrations are inspected, so the graph is empty,
    /// stamped with the export time.
    pub fn build_graph(&self) -> (r: DiResult<DependencyGraph>)
        ensures
            r matches Ok(g) && is_fresh_graph(g, self.options().include_layout),
            r matches Ok(g) && exists|n: u64| g.metadata.exported_at@ == #[trigger] rfc3339_of(
                (n / 1_000_000_000) as i64,
                (n % 1_000_000_000) as u32,
            ),
    {
        let metadata = GraphMetadata {
            service_count: 0,
            trait_count: 0,
            singleton_count: 0,
            scoped_count: 0,
            transient_count: 0,
            has_circular_dependencies: false,
            exported_at: utc_now_rfc3339(),
            version: to_string("1.0.0"),
        };
        let layout = if self.options.include_layout {
            let parameters: TextMap<String> = TextMap::new();
            Some(GraphLayout { algorithm: to_string("hierarchical"), parameters })
        } else {
            None
        };
        Ok(DependencyGraph { nodes: Vec::new(), edges: Vec::new(), metadata, layout })
    }

    /// Exports the dependency graph in the specified format with the builder's exporter
    /// and options.
    pub fn export(&self, graph: &DependencyGraph, format: ExportFormat) -> (r: DiResult<String>)
        ensures
            call_ensures(E::export, (&self.exporter(), graph, format, &self.options()), r),
    {
        self.exporter.export(graph, format, &self.options)
    }

    /// Builds and exports a dependency graph in one operation.
    pub fn build_and_export(&self, format: ExportFormat) -> (r: DiResult<String>)
        ensures
            exists|g: DependencyGraph|
                is_fresh_graph(g, self.options().include_layout) && call_ensures(
                    E::export,
                    (&self.exporter(), &g, format, &self.options()),
                    r,
                ),
    {
        let graph = match self.build_graph() {
            Ok(g) => g,
            Err(e) => return Err(e),
        };
        self.export(&graph, format)
    }
}

impl GraphBuilder<DefaultGraphExporter> {
    /// Builds and exports with the default exporter: the export of a fresh graph.
    pub fn build_and_export_default(&self, format: ExportFormat) -> (r: DiResult<String>)
        ensures
            exists|g: DependencyGraph| is_fresh_graph(g, self.options().include_layout)
                && default_export(g, format, self.options().type_filter@, r),
    {
        let graph = match self.build_graph() {
            Ok(g) => g,
            Err(e) => return Err(e),
        };
        self.exporter.export(&graph, format, &self.options)
    }
}

} // verus!
