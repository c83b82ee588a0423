//! Debug tooling: the registrations as a dependency graph (its analysis, DOT and tree
//! text), and a tracer of resolution steps.
use vstd::prelude::*;
use std::time::Instant;
use crate::descriptors::ServiceDescriptor;
use crate::key::Key;
use crate::lifetime::Lifetime;
use crate::registry::Registry;
use crate::support::{instant_now, nanos_since};
use crate::text::{push_str, push_decimal, decimal, to_string};
use crate::time::Duration;
use crate::aop::{millis_text, push_millis};

pub mod analysis;

pub use analysis::GraphAnalysis;

use analysis::{
    distinct_keys, names, index_of, calculate_depths, calculate_reference_counts, mark_circular_dependencies,
    reachable, least_depth, reached_within, lemma_reached_zero, lemma_reached_mono, on_cycle, is_cycle,
    lists_dependency, key_index, lemma_key_index, lemma_count_false_none, build_tree_string, tree_text,
    analyze_nodes, dependency_total, depth_total, depth_max, leaf_keys, high_dependency_keys,
    unused_keys,
};

verus! {

/// Dependency graph analyzer and visualizer over a registry.
pub struct DependencyGraphAnalyzer<F> {
    registry: Registry<F>,
}

/// A node of the dependency graph.
#[derive(Debug, Clone)]
pub struct GraphNode {
    /// Service key
    pub key: Key,
    /// Service descriptor
    pub descriptor: ServiceDescriptor,
    /// Direct dependencies
    pub dependencies: Vec<Key>,
    /// Services that depend on this one
    pub dependents: Vec<Key>,
    /// Graph analysis metadata
    pub metadata: NodeMetadata,
}

/// Metadata for graph analysis.
#[derive(Debug, Clone, Copy)]
pub struct NodeMetadata {
    /// Depth from root services
    pub depth: usize,
    /// Number of times this service is depended upon
    pub reference_count: usize,
    /// Whether this node is part of a circular dependency
    pub is_circular: bool,
    /// Estimated resolution cost
    pub resolution_cost: u32,
}

impl Default for NodeMetadata {
    fn default() -> (m: NodeMetadata)
        ensures
            m.depth == 0,
            m.reference_count == 0,
            !m.is_circular,
            m.resolution_cost == 0,
    {
        NodeMetadata { depth: 0, reference_count: 0, is_circular: false, resolution_cost: 0 }
    }
}

/// The node built for a descriptor: no dependencies are extracted from factories, so it
/// has no dependencies or dependents, and therefore depth 0 (every node is a root of the
/// breadth-first depth walk), no references and no cycle.
pub open spec fn node_of(d: ServiceDescriptor, n: GraphNode) -> bool {
    &&& n.key == d.key
    &&& n.descriptor == d
    &&& n.dependencies@.len() == 0
    &&& n.dependents@.len() == 0
    &&& n.metadata.depth == 0
    &&& n.metadata.reference_count == 0
    &&& !n.metadata.is_circular
    &&& n.metadata.resolution_cost == 0
}

/// The DOT fill color of a lifetime.
pub open spec fn lifetime_color(l: Lifetime) -> Seq<char> {
    match l {
        Lifetime::Singleton => "lightblue"@,
        Lifetime::Scoped => "lightgreen"@,
        Lifetime::Transient => "lightyellow"@,
    }
}

/// The one-letter tag of a lifetime in the tree view.
pub open spec fn lifetime_tag(l: Lifetime) -> Seq<char> {
    match l {
        Lifetime::Singleton => "S"@,
        Lifetime::Scoped => "C"@,
        Lifetime::Transient => "T"@,
    }
}

/// The DOT line of a node.
pub open spec fn analyzer_dot_node(n: GraphNode) -> Seq<char> {
    "  \""@ + n.key.spec_display_name()@ + "\" [label=\""@ + n.key.spec_display_name()@ + "\\nDepth: "@
        + decimal(n.metadata.depth as nat) + "\\nRefs: "@ + decimal(n.metadata.reference_count as nat)
        + "\" fillcolor="@ + lifetime_color(n.descriptor.lifetime) + " style=\"filled"@ + (if n.metadata.is_circular {
        ", color=red, penwidth=2"@
    } else {
        Seq::empty()
    }) + "\"]; \n"@
}

/// The DOT lines of the nodes, in order.
pub open spec fn analyzer_dot_nodes(ns: Seq<GraphNode>) -> Seq<char>
    decreases ns.len(),
{
    if ns.len() == 0 {
        Seq::empty()
    } else {
        analyzer_dot_nodes(ns.drop_last()) + analyzer_dot_node(ns.last())
    }
}

/// The DOT edge lines of a node: one per dependency.
pub open spec fn analyzer_dot_deps(from: Seq<char>, deps: Seq<Key>) -> Seq<char>
    decreases deps.len(),
{
    if deps.len() == 0 {
        Seq::empty()
    } else {
        analyzer_dot_deps(from, deps.drop_last()) + "  \""@ + from + "\" -> \""@ + deps.last().spec_display_name()@
            + "\";\n"@
    }
}

/// The DOT edge lines of all nodes, in order.
pub open spec fn analyzer_dot_edges(ns: Seq<GraphNode>) -> Seq<char>
    decreases ns.len(),
{
    if ns.len() == 0 {
        Seq::empty()
    } else {
        analyzer_dot_edges(ns.drop_last()) + analyzer_dot_deps(ns.last().key.spec_display_name()@, ns.last().dependencies@)
    }
}

/// The whole DOT text of a list of nodes.
pub open spec fn analyzer_dot_text(ns: Seq<GraphNode>) -> Seq<char> {
    "digraph DependencyGraph {\n"@ + "  rankdir=TB;\n"@ + "  node [shape=box, style=rounded];\n\n"@
        + analyzer_dot_nodes(ns) + "\n"@ + analyzer_dot_edges(ns) + "}\n"@
}

/// `n` copies of two spaces.
pub open spec fn indent(n: nat) -> Seq<char>
    decreases n,
{
    if n == 0 {
        Seq::empty()
    } else {
        indent((n - 1) as nat) + "  "@
    }
}

/// The tree line of a node at depth 0.
pub open spec fn tree_line(n: GraphNode) -> Seq<char> {
    "└─ "@ + n.key.spec_display_name()@ + " ["@ + lifetime_tag(n.descriptor.lifetime) + "] (depth: "@
        + decimal(n.metadata.depth as nat) + ", refs: "@ + decimal(n.metadata.reference_count as nat) + ")\n"@
}

/// Appends `n` copies of two spaces.
fn push_indent(s: &mut String, n: usize)
    ensures
        final(s)@ == old(s)@ + indent(n as nat),
{
    let ghost start = s@;
    let mut i: usize = 0;
    while i < n
        invariant
            0 <= i <= n,
            s@ == start + indent(i as nat),
        decreases n - i,
    {
        push_str(s, "  ");
        i = i + 1;
    }
}

/// Appends the DOT line of a node.
fn push_dot_node(dot: &mut String, node: &GraphNode)
    ensures
        final(dot)@ == old(dot)@ + analyzer_dot_node(*node),
{
    let name = node.key.display_name();
    let color = match node.descriptor.lifetime {
        Lifetime::Singleton => "lightblue",
        Lifetime::Scoped => "lightgreen",
        Lifetime::Transient => "lightyellow",
    };
    push_str(dot, "  \"");
    push_str(dot, name);
    push_str(dot, "\" [label=\"");
    push_str(dot, name);
    push_str(dot, "\\nDepth: ");
    push_decimal(dot, node.metadata.depth as u64);
    push_str(dot, "\\nRefs: ");
    push_decimal(dot, node.metadata.reference_count as u64);
    push_str(dot, "\" fillcolor=");
    push_str(dot, color);
    push_str(dot, " style=\"filled");
    if node.metadata.is_circular {
        push_str(dot, ", color=red, penwidth=2");
    } else {
        assert(dot@ + Seq::<char>::empty() =~= dot@);
    }
    push_str(dot, "\"]; \n");
}

/// Appends the DOT edge lines of a node.
fn push_dot_deps(dot: &mut String, node: &GraphNode)
    ensures
        final(dot)@ == old(dot)@ + analyzer_dot_deps(node.key.spec_display_name()@, node.dependencies@),
{
    let from = node.key.display_name();
    let ghost before = dot@;
    let mut j: usize = 0;
    while j < node.dependencies.len()
        invariant
            0 <= j <= node.dependencies@.len(),
            dot@ == before + analyzer_dot_deps(from@, node.dependencies@.take(j as int)),
        decreases node.dependencies@.len() - j,
    {
        push_str(dot, "  \"");
        push_str(dot, from);
        push_str(dot, "\" -> \"");
        push_str(dot, node.dependencies[j].display_name());
        push_str(dot, "\";\n");
        proof {
            let ds = node.dependencies@;
            assert(ds.take(j + 1).drop_last() =~= ds.take(j as int));
            assert(ds.take(j + 1).last() == ds[j as int]);
        }
        j = j + 1;
    }
    proof {
        assert(node.dependencies@.take(node.dependencies@.len() as int) =~= node.dependencies@);
    }
}

/// Descriptor `j` is the last one with its key.
pub open spec fn last_with_key(ds: Seq<ServiceDescriptor>, j: int) -> bool {
    &&& 0 <= j < ds.len()
    &&& forall|j2: int| j < j2 < ds.len() ==> #[trigger] ds[j2].key.id() != ds[j].key.id()
}

/// Node `n` is the node of the last descriptor with its key.
pub open spec fn has_source(ds: Seq<ServiceDescriptor>, n: GraphNode) -> bool {
    exists|j: int| last_with_key(ds, j) && #[trigger] node_of(ds[j], n)
}

/// Some node carries key `k`.
pub open spec fn has_node(ns: Seq<GraphNode>, k: Key) -> bool {
    exists|i: int| #[trigger] names(ns, i, k)
}

/// `ns` maps each registered key to one node: that of the last descriptor with the key
/// (a later registration of a key replaces an earlier one).
pub open spec fn graph_of(ds: Seq<ServiceDescriptor>, ns: Seq<GraphNode>) -> bool {
    &&& distinct_keys(ns)
    &&& forall|i: int| 0 <= i < ns.len() ==> #[trigger] has_source(ds, ns[i])
    &&& forall|j: int| 0 <= j < ds.len() ==> #[trigger] has_node(ns, ds[j].key)
}

/// On nodes without dependencies or dependents, every node is a root at depth 0 and no
/// node lies on a cycle.
proof fn lemma_flat_graph(ns: Seq<GraphNode>, v: int)
    requires
        0 <= v < ns.len(),
        forall|i: int| 0 <= i < ns.len() ==> (#[trigger] ns[i]).dependencies@.len() == 0,
    ensures
        reachable(ns, v),
        forall|d: nat| least_depth(ns, v, d) ==> d == 0,
        !on_cycle(ns, v),
{
    lemma_reached_zero(ns, v);
    assert(reached_within(ns, v, 0));
    assert forall|d: nat| least_depth(ns, v, d) implies d == 0 by {
        if d > 0 {
            lemma_reached_mono(ns, v, 0, (d - 1) as nat);
        }
    }
    if on_cycle(ns, v) {
        let (c, k) = choose|c: Seq<Key>, k: int| #[trigger] is_cycle(ns, c) && 0 <= k < c.len() && #[trigger] c[k].id() == ns[v].key.id();
        let i = choose|i: int| #[trigger] names(ns, i, c.last()) && lists_dependency(ns[i], c[0]);
        assert(ns[i].dependencies@.len() == 0);
    }
}

impl<F> DependencyGraphAnalyzer<F> {
    /// The analyzed registry.
    pub closed spec fn registry(&self) -> Registry<F> {
        self.registry
    }

    /// Create a new dependency graph analyzer.
    pub fn new(registry: Registry<F>) -> (a: DependencyGraphAnalyzer<F>)
        ensures
            a.registry() == registry,
    {
        DependencyGraphAnalyzer { registry }
    }

    /// Build the complete dependency graph: a node per registered key (no dependencies are
    /// extracted from factories), then depths, reference counts and cycle marks.
    #[verifier::rlimit(40)]
    pub fn build_graph(&self) -> (r: Vec<GraphNode>)
        requires
            self.registry().wf(),
        ensures
            graph_of(self.registry().descriptors(), r@),
    {
        let descriptors = self.registry.descriptors_vec();
        let ghost ds = descriptors@;
        let mut nodes: Vec<GraphNode> = Vec::new();
        let mut k: usize = 0;
        while k < descriptors.len()
            invariant
                0 <= k <= ds.len(),
                ds == descriptors@,
                graph_of(ds.take(k as int), nodes@),
            decreases ds.len() - k,
        {
            let d = descriptors[k];
            let node = GraphNode {
                key: d.key,
                descriptor: d,
                dependencies: Vec::new(),
                dependents: Vec::new(),
                metadata: NodeMetadata::default(),
            };
            let ghost before = nodes@;
            let ghost dk = ds.take(k as int);
            let ghost dk1 = ds.take(k + 1);
            proof {
                assert(dk1 =~= dk.push(d));
            }
            match index_of(&nodes, &d.key) {
                Some(i) => {
                    nodes.set(i, node);
                    proof {
                        assert forall|a: int, b: int|
                            0 <= a < nodes@.len() && 0 <= b < nodes@.len() && a != b implies #[trigger] nodes@[a].key.id()
                            != #[trigger] nodes@[b].key.id() by {
                            assert(before[a].key.id() != before[b].key.id());
                        }
                        assert forall|a: int| 0 <= a < nodes@.len() implies #[trigger] has_source(dk1, nodes@[a]) by {
                            if a == i as int {
                                assert(last_with_key(dk1, k as int));
                                assert(node_of(dk1[k as int], nodes@[a]));
                            } else {
                                assert(has_source(dk, before[a]));
                                let j = choose|j: int| last_with_key(dk, j) && #[trigger] node_of(dk[j], before[a]);
                                assert(before[a].key.id() != before[i as int].key.id());
                                assert(last_with_key(dk1, j));
                                assert(node_of(dk1[j], nodes@[a]));
                            }
                        }
                        assert forall|j: int| 0 <= j < dk1.len() implies #[trigger] has_node(nodes@, dk1[j].key) by {
                            if j == k as int {
                                assert(names(nodes@, i as int, dk1[j].key));
                            } else {
                                assert(has_node(before, dk[j].key));
                                let a = choose|a: int| #[trigger] names(before, a, dk[j].key);
                                assert(names(nodes@, a, dk1[j].key));
                            }
                        }
                    }
                },
                None => {
                    nodes.push(node);
                    proof {
                        assert forall|a: int, b: int|
                            0 <= a < nodes@.len() && 0 <= b < nodes@.len() && a != b implies #[trigger] nodes@[a].key.id()
                            != #[trigger] nodes@[b].key.id() by {
                            if a < before.len() && b < before.len() {
                                assert(before[a].key.id() != before[b].key.id());
                            } else if a < before.len() {
                                assert(before[a].key.id() != d.key.id());
                            } else {
                                assert(before[b].key.id() != d.key.id());
                            }
                        }
                        assert forall|a: int| 0 <= a < nodes@.len() implies #[trigger] has_source(dk1, nodes@[a]) by {
                            if a == before.len() {
                                assert(last_with_key(dk1, k as int));
                                assert(node_of(dk1[k as int], nodes@[a]));
                            } else {
                                assert(has_source(dk, before[a]));
                                let j = choose|j: int| last_with_key(dk, j) && #[trigger] node_of(dk[j], before[a]);
                                assert(before[a].key.id() != d.key.id());
                                assert(last_with_key(dk1, j));
                                assert(node_of(dk1[j], nodes@[a]));
                            }
                        }
                        assert forall|j: int| 0 <= j < dk1.len() implies #[trigger] has_node(nodes@, dk1[j].key) by {
                            if j == k as int {
                                assert(names(nodes@, before.len() as int, dk1[j].key));
                            } else {
                                assert(has_node(before, dk[j].key));
                                let a = choose|a: int| #[trigger] names(before, a, dk[j].key);
                                assert(names(nodes@, a, dk1[j].key));
                            }
                        }
                    }
                },
            }
            k = k + 1;
        }
        proof {
            assert(ds.take(ds.len() as int) =~= ds);
        }
        let ghost built = nodes@;
        proof {
            assert forall|i: int| 0 <= i < built.len() implies (#[trigger] built[i]).dependencies@.len() == 0 by {
                assert(has_source(ds, built[i]));
                let j = choose|j: int| last_with_key(ds, j) && #[trigger] node_of(ds[j], built[i]);
            }
        }
        calculate_depths(&mut nodes);
        let ghost deep = nodes@;
        calculate_reference_counts(&mut nodes);
        let ghost counted = nodes@;
        mark_circular_dependencies(&mut nodes);
        proof {
            assert forall|i: int| 0 <= i < nodes@.len() implies #[trigger] has_source(ds, nodes@[i]) by {
                assert(has_source(ds, built[i]));
                let j = choose|j: int| last_with_key(ds, j) && #[trigger] node_of(ds[j], built[i]);
                lemma_flat_graph(built, i);
                assert(deep[i] == deep[i]);
                assert(least_depth(built, i, deep[i].metadata.depth as nat));
                assert(counted[i] == counted[i]);
                assert(nodes@[i] == nodes@[i]);
                assert forall|w: int| 0 <= w < counted.len() implies (#[trigger] counted[w]).dependencies@.len() == 0 by {
                    assert(built[w] == built[w]);
                    assert(deep[w] == deep[w]);
                }
                lemma_flat_graph(counted, i);
                assert(node_of(ds[j], nodes@[i]));
            }
            assert forall|a: int, b: int|
                0 <= a < nodes@.len() && 0 <= b < nodes@.len() && a != b implies #[trigger] nodes@[a].key.id()
                != #[trigger] nodes@[b].key.id() by {
                assert(built[a].key.id() != built[b].key.id());
                assert(deep[a] == deep[a] && deep[b] == deep[b]);
                assert(counted[a] == counted[a] && counted[b] == counted[b]);
            }
            assert forall|j: int| 0 <= j < ds.len() implies #[trigger] has_node(nodes@, ds[j].key) by {
                assert(has_node(built, ds[j].key));
                let a = choose|a: int| #[trigger] names(built, a, ds[j].key);
                assert(deep[a] == deep[a]);
                assert(counted[a] == counted[a]);
                assert(names(nodes@, a, ds[j].key));
            }
        }
        nodes
    }

    /// Analyze the complete dependency graph.
    pub fn analyze(&self) -> (a: GraphAnalysis)
        requires
            self.registry().wf(),
        ensures
            exists|ns: Seq<GraphNode>| #[trigger] graph_of(self.registry().descriptors(), ns) && {
                &&& a.service_count == ns.len()
                &&& a.dependency_count == dependency_total(ns)
                &&& a.max_depth == depth_max(ns)
                &&& a.total_depth == depth_total(ns)
                &&& a.leaf_services@ == leaf_keys(ns)
                &&& a.high_dependency_services@ == high_dependency_keys(ns)
                &&& forall|k: int| 0 <= k < a.circular_dependencies@.len() ==> is_cycle(ns, #[trigger] a.circular_dependencies@[k]@)
                &&& (a.circular_dependencies@.len() == 0 <==> forall|c: Seq<Key>| !#[trigger] is_cycle(ns, c))
                &&& a.unused_services@ == unused_keys(ns)
            },
    {
        let nodes = self.build_graph();
        proof {
            lemma_flat_totals(nodes@, self.registry().descriptors());
        }
        analyze_nodes(&nodes)
    }

    /// Generate a DOT graph representation for visualization.
    #[verifier::rlimit(40)]
    pub fn to_dot(&self) -> (r: String)
        requires
            self.registry().wf(),
        ensures
            exists|ns: Seq<GraphNode>| #[trigger] graph_of(self.registry().descriptors(), ns) && r@ == analyzer_dot_text(ns),
    {
        let nodes = self.build_graph();
        let mut dot = String::new();
        push_str(&mut dot, "digraph DependencyGraph {\n");
        push_str(&mut dot, "  rankdir=TB;\n");
        push_str(&mut dot, "  node [shape=box, style=rounded];\n\n");
        let ghost head = dot@;
        assert(head =~= "digraph DependencyGraph {\n"@ + "  rankdir=TB;\n"@ + "  node [shape=box, style=rounded];\n\n"@);
        let mut i: usize = 0;
        while i < nodes.len()
            invariant
                0 <= i <= nodes@.len(),
                dot@ == head + analyzer_dot_nodes(nodes@.take(i as int)),
            decreases nodes@.len() - i,
        {
            push_dot_node(&mut dot, &nodes[i]);
            proof {
                assert(nodes@.take(i + 1).drop_last() =~= nodes@.take(i as int));
                assert(nodes@.take(i + 1).last() == nodes@[i as int]);
            }
            i = i + 1;
        }
        proof {
            assert(nodes@.take(nodes@.len() as int) =~= nodes@);
        }
        push_str(&mut dot, "\n");
        let ghost mid = dot@;
        let mut k: usize = 0;
        while k < nodes.len()
            invariant
                0 <= k <= nodes@.len(),
                dot@ == mid + analyzer_dot_edges(nodes@.take(k as int)),
            decreases nodes@.len() - k,
        {
            push_dot_deps(&mut dot, &nodes[k]);
            proof {
                assert(nodes@.take(k + 1).drop_last() =~= nodes@.take(k as int));
                assert(nodes@.take(k + 1).last() == nodes@[k as int]);
            }
            k = k + 1;
        }
        proof {
            assert(nodes@.take(nodes@.len() as int) =~= nodes@);
        }
        push_str(&mut dot, "}\n");
        assert(dot@ == analyzer_dot_text(nodes@));
        dot
    }

    /// Generate a text-based tree representation rooted at `root_key`. Nodes have no
    /// dependencies to descend into, so this is the root's line, or nothing when the key has
    /// no registration.
    pub fn to_tree(&self, root_key: &Key) -> (r: String)
        requires
            self.registry().wf(),
        ensures
            exists|ns: Seq<GraphNode>| #[trigger] graph_of(self.registry().descriptors(), ns)
                && r@ == tree_text(ns, *root_key, 0, Seq::new(ns.len(), |i: int| false)),
            (exists|i: int| 0 <= i < self.registry().descriptors().len()
                && #[trigger] self.registry().descriptors()[i].key.id() == root_key.id()) ==> exists|n: GraphNode|
                #![trigger tree_line(n)]
                n.key.id() == root_key.id() && node_of(n.descriptor, n) && r@ == tree_line(n),
            !(exists|i: int| 0 <= i < self.registry().descriptors().len()
                && #[trigger] self.registry().descriptors()[i].key.id() == root_key.id()) ==> r@.len() == 0,
    {
        let nodes = self.build_graph();
        let ghost ns = nodes@;
        let ghost ds = self.registry().descriptors();
        let mut visited: Vec<bool> = Vec::new();
        let mut i: usize = 0;
        while i < nodes.len()
            invariant
                0 <= i <= nodes@.len(),
                visited@ == Seq::new(i as nat, |j: int| false),
            decreases nodes@.len() - i,
        {
            visited.push(false);
            proof {
                assert(visited@ =~= Seq::new((i + 1) as nat, |j: int| false));
            }
            i = i + 1;
        }
        proof {
            lemma_count_false_none(visited@);
        }
        let mut result = String::new();
        build_tree_string(&nodes, root_key, 0, &mut visited, &mut result);
        proof {
            let vis = Seq::new(ns.len(), |j: int| false);
            assert(result@ =~= tree_text(ns, *root_key, 0, vis));
            if exists|i: int| 0 <= i < ds.len() && #[trigger] ds[i].key.id() == root_key.id() {
                let j = choose|i: int| 0 <= i < ds.len() && #[trigger] ds[i].key.id() == root_key.id();
                assert(has_node(ns, ds[j].key));
                let a = choose|a: int| #[trigger] names(ns, a, ds[j].key);
                assert(names(ns, a, *root_key));
                lemma_key_index(ns, *root_key, a);
                assert(has_source(ds, ns[a]));
                let jj = choose|jj: int| last_with_key(ds, jj) && #[trigger] node_of(ds[jj], ns[a]);
                assert(ns[a].dependencies@ =~= Seq::<Key>::empty());
                assert(indent(0) =~= Seq::<char>::empty());
                assert(result@ =~= tree_line(ns[a]));
                assert(node_of(ns[a].descriptor, ns[a]));
            } else {
                if exists|a: int| #[trigger] names(ns, a, *root_key) {
                    let a = choose|a: int| #[trigger] names(ns, a, *root_key);
                    assert(has_source(ds, ns[a]));
                    let jj = choose|jj: int| last_with_key(ds, jj) && #[trigger] node_of(ds[jj], ns[a]);
                    assert(ds[jj].key.id() == root_key.id());
                }
                assert(result@.len() == 0);
            }
        }
        result
    }
}

/// In a graph built from descriptors, nothing is counted: no dependencies, depth 0.
proof fn lemma_flat_totals(ns: Seq<GraphNode>, ds: Seq<ServiceDescriptor>)
    requires
        graph_of(ds, ns),
    ensures
        dependency_total(ns) == 0,
        depth_total(ns) == 0,
    decreases ns.len(),
{
    if ns.len() > 0 {
        lemma_flat_prefix(ns, ds, ns);
    }
}

/// Both totals vanish on nodes that each come from a descriptor.
proof fn lemma_flat_prefix(ps: Seq<GraphNode>, ds: Seq<ServiceDescriptor>, ns: Seq<GraphNode>)
    requires
        ps.len() <= ns.len(),
        forall|i: int| 0 <= i < ps.len() ==> ps[i] == ns[i],
        forall|i: int| 0 <= i < ns.len() ==> #[trigger] has_source(ds, ns[i]),
    ensures
        dependency_total(ps) == 0,
        depth_total(ps) == 0,
    decreases ps.len(),
{
    if ps.len() > 0 {
        let last = ps.len() - 1;
        assert(has_source(ds, ns[last]));
        let j = choose|j: int| last_with_key(ds, j) && #[trigger] node_of(ds[j], ns[last]);
        assert(ps.last() == ns[last]);
        lemma_flat_prefix(ps.drop_last(), ds, ns);
    }
}

/// Result of one traced resolution step.
#[derive(Debug, Clone)]
pub enum TraceResult {
    /// Resolution started
    Started,
    /// Resolution completed successfully
    Success,
    /// Resolution failed with error
    Error(String),
    /// Resolution was cached
    Cached,
}

/// One traced resolution step.
#[derive(Debug)]
pub struct TraceEntry {
    /// Service key being resolved
    pub key: Key,
    /// Resolution depth (nesting level)
    pub depth: usize,
    /// Timestamp when resolution started
    pub timestamp: Instant,
    /// Resolution duration (set when resolution completes)
    pub duration: Option<Duration>,
    /// Resolution result
    pub result: TraceResult,
}

/// The text of a step's outcome.
pub open spec fn trace_result_text(r: TraceResult) -> Seq<char> {
    match r {
        TraceResult::Started => "⏳ Started"@,
        TraceResult::Success => "✅ Success"@,
        TraceResult::Error(err) => "❌ Error: "@ + err@,
        TraceResult::Cached => "💾 Cached"@,
    }
}

/// The line of one traced step: indented by its depth, the service, the outcome and, once
/// completed, the time in milliseconds with two decimals.
pub open spec fn trace_line(e: TraceEntry) -> Seq<char> {
    indent(e.depth as nat) + e.key.spec_display_name()@ + " - "@ + trace_result_text(e.result) + match e.duration {
        Some(d) => " ("@ + millis_text(d.total_nanos() as nat) + "ms)"@,
        None => Seq::empty(),
    } + "\n"@
}

/// The lines of the steps, in order.
pub open spec fn trace_text(es: Seq<TraceEntry>) -> Seq<char>
    decreases es.len(),
{
    if es.len() == 0 {
        Seq::empty()
    } else {
        trace_text(es.drop_last()) + trace_line(es.last())
    }
}

/// Appends the line of one traced step.
fn push_trace_line(result: &mut String, entry: &TraceEntry)
    ensures
        final(result)@ == old(result)@ + trace_line(*entry),
{
    let ghost start = result@;
    push_indent(result, entry.depth);
    push_str(result, entry.key.display_name());
    push_str(result, " - ");
    match &entry.result {
        TraceResult::Started => push_str(result, "⏳ Started"),
        TraceResult::Success => push_str(result, "✅ Success"),
        TraceResult::Error(err) => {
            push_str(result, "❌ Error: ");
            push_str(result, err.as_str());
        },
        TraceResult::Cached => push_str(result, "💾 Cached"),
    }
    let ghost mid = result@;
    match entry.duration {
        Some(d) => {
            push_str(result, " (");
            push_millis(result, d);
            push_str(result, "ms)");
        },
        None => {
            assert(result@ =~= mid + Seq::<char>::empty());
        },
    }
    push_str(result, "\n");
    proof {
        assert(result@ =~= start + trace_line(*entry));
    }
}

/// Service resolution tracer for debugging resolution paths.
pub struct ResolutionTracer {
    trace_entries: Vec<TraceEntry>,
    enabled: bool,
}

/// The position of the last entry for a key, if any.
pub open spec fn last_for(es: Seq<TraceEntry>, id: crate::key::KeyId) -> Option<int>
    decreases es.len(),
{
    if es.len() == 0 {
        None
    } else if es.last().key.id() == id {
        Some(es.len() - 1)
    } else {
        last_for(es.drop_last(), id)
    }
}

/// How a completion step changes the entries: the last entry for the key (if any) gets a
/// duration and the given result; the other entries stay.
pub open spec fn completed(old_es: Seq<TraceEntry>, new_es: Seq<TraceEntry>, id: crate::key::KeyId, result: TraceResult) -> bool {
    &&& new_es.len() == old_es.len()
    &&& match last_for(old_es, id) {
        None => new_es == old_es,
        Some(i) => {
            &&& forall|j: int| 0 <= j < old_es.len() && j != i ==> #[trigger] new_es[j] == old_es[j]
            &&& new_es[i].key == old_es[i].key
            &&& new_es[i].depth == old_es[i].depth
            &&& new_es[i].timestamp == old_es[i].timestamp
            &&& new_es[i].duration is Some
            &&& new_es[i].result == result
        },
    }
}

proof fn lemma_last_for(es: Seq<TraceEntry>, id: crate::key::KeyId)
    ensures
        last_for(es, id) matches Some(i) ==> 0 <= i < es.len() && es[i].key.id() == id
            && forall|j: int| i < j < es.len() ==> #[trigger] es[j].key.id() != id,
        last_for(es, id) is None <==> forall|j: int| 0 <= j < es.len() ==> #[trigger] es[j].key.id() != id,
    decreases es.len(),
{
    if es.len() > 0 {
        lemma_last_for(es.drop_last(), id);
        assert forall|j: int| 0 <= j < es.len() - 1 implies es.drop_last()[j] == #[trigger] es[j] by {}
        if last_for(es, id) is None {
            assert forall|j: int| 0 <= j < es.len() implies #[trigger] es[j].key.id() != id by {
                if j < es.len() - 1 {
                    assert(es.drop_last()[j] == es[j]);
                }
            }
        }
    }
}

impl ResolutionTracer {
    /// The entries, in chronological order.
    pub closed spec fn entries(&self) -> Seq<TraceEntry> {
        self.trace_entries@
    }

    /// Whether tracing is enabled.
    pub closed spec fn is_enabled(&self) -> bool {
        self.enabled
    }

    /// Create a new, disabled resolution tracer with no entries.
    pub fn new() -> (t: ResolutionTracer)
        ensures
            t.entries().len() == 0,
            !t.is_enabled(),
    {
        ResolutionTracer { trace_entries: Vec::new(), enabled: false }
    }

    /// Enable tracing.
    pub fn enable(&mut self)
        ensures
            final(self).is_enabled(),
            final(self).entries() == old(self).entries(),
    {
        self.enabled = true;
    }

    /// Disable tracing.
    pub fn disable(&mut self)
        ensures
            !final(self).is_enabled(),
            final(self).entries() == old(self).entries(),
    {
        self.enabled = false;
    }

    /// Record the start of service resolution (when enabled).
    pub fn trace_start(&mut self, key: &Key, depth: usize)
        ensures
            final(self).is_enabled() == old(self).is_enabled(),
            !old(self).is_enabled() ==> final(self).entries() == old(self).entries(),
            old(self).is_enabled() ==> {
                &&& final(self).entries().len() == old(self).entries().len() + 1
                &&& final(self).entries().drop_last() == old(self).entries()
                &&& final(self).entries().last().key == *key
                &&& final(self).entries().last().depth == depth
                &&& final(self).entries().last().duration is None
                &&& final(self).entries().last().result is Started
            },
    {
        if !self.enabled {
            return;
        }
        self.trace_entries.push(TraceEntry {
            key: *key,
            depth,
            timestamp: instant_now(),
            duration: None,
            result: TraceResult::Started,
        });
        proof {
            assert(self.entries().drop_last() =~= old(self).entries());
        }
    }

    /// Completes the last entry for the key with its elapsed time and the given result.
    fn complete(&mut self, key: &Key, result: TraceResult)
        ensures
            final(self).is_enabled() == old(self).is_enabled(),
            completed(old(self).entries(), final(self).entries(), key.id(), result),
    {
        proof {
            lemma_last_for(self.entries(), key.id());
        }
        let n = self.trace_entries.len();
        let mut i: usize = n;
        while i > 0
            invariant
                0 <= i <= n,
                n == self.trace_entries@.len(),
                self.trace_entries@ == old(self).entries(),
                self.enabled == old(self).is_enabled(),
                forall|j: int| i <= j < n ==> #[trigger] self.trace_entries@[j].key.id() != key.id(),
            decreases i,
        {
            i = i - 1;
            if self.trace_entries[i].key.same_as(key) {
                proof {
                    let es = old(self).entries();
                    lemma_last_for(es, key.id());
                    assert(es[i as int].key.id() == key.id());
                    match last_for(es, key.id()) {
                        Some(k) => {
                            if k > i {
                                assert(self.trace_entries@[k].key.id() != key.id());
                            }
                            if k < i {
                                assert(es[i as int].key.id() != key.id());
                            }
                        },
                        None => {
                            assert(es[i as int].key.id() != key.id());
                        },
                    }
                    assert(last_for(es, key.id()) == Some(i as int));
                }
                let elapsed = Duration::from_nanos_u128(nanos_since(&self.trace_entries[i].timestamp));
                let ghost before = self.trace_entries@;
                let old_entry = self.trace_entries.remove(i);
                let entry = TraceEntry {
                    key: old_entry.key,
                    depth: old_entry.depth,
                    timestamp: old_entry.timestamp,
                    duration: Some(elapsed),
                    result,
                };
                let ghost ge = entry;
                self.trace_entries.insert(i, entry);
                proof {
                    assert(self.trace_entries@ =~= before.update(i as int, ge));
                }
                return;
            }
        }
        proof {
            lemma_last_for(old(self).entries(), key.id());
            assert(last_for(old(self).entries(), key.id()) is None);
        }
    }

    /// Record successful service resolution (when enabled).
    pub fn trace_success(&mut self, key: &Key)
        ensures
            final(self).is_enabled() == old(self).is_enabled(),
            !old(self).is_enabled() ==> final(self).entries() == old(self).entries(),
            old(self).is_enabled() ==> completed(old(self).entries(), final(self).entries(), key.id(), TraceResult::Success),
    {
        if !self.enabled {
            return;
        }
        self.complete(key, TraceResult::Success);
    }

    /// Record failed service resolution (when enabled).
    pub fn trace_error(&mut self, key: &Key, error: &str)
        ensures
            final(self).is_enabled() == old(self).is_enabled(),
            !old(self).is_enabled() ==> final(self).entries() == old(self).entries(),
            old(self).is_enabled() ==> exists|e: String| e@ == error@ && completed(old(self).entries(), final(self).entries(), key.id(), TraceResult::Error(e)),
    {
        if !self.enabled {
            return;
        }
        let e = to_string(error);
        self.complete(key, TraceResult::Error(e));
    }

    /// Record cached service resolution (when enabled).
    pub fn trace_cached(&mut self, key: &Key)
        ensures
            final(self).is_enabled() == old(self).is_enabled(),
            !old(self).is_enabled() ==> final(self).entries() == old(self).entries(),
            old(self).is_enabled() ==> completed(old(self).entries(), final(self).entries(), key.id(), TraceResult::Cached),
    {
        if !self.enabled {
            return;
        }
        self.complete(key, TraceResult::Cached);
    }

    /// The trace as an indented list, one line per step.
    pub fn format_trace(&self) -> (r: String)
        ensures
            r@ == trace_text(self.entries()),
    {
        let mut result = String::new();
        let mut i: usize = 0;
        while i < self.trace_entries.len()
            invariant
                0 <= i <= self.trace_entries@.len(),
                result@ == trace_text(self.trace_entries@.take(i as int)),
            decreases self.trace_entries@.len() - i,
        {
            push_trace_line(&mut result, &self.trace_entries[i]);
            proof {
                assert(self.trace_entries@.take(i + 1).drop_last() =~= self.trace_entries@.take(i as int));
                assert(self.trace_entries@.take(i + 1).last() == self.trace_entries@[i as int]);
            }
            i = i + 1;
        }
        proof {
            assert(self.trace_entries@.take(self.trace_entries@.len() as int) =~= self.trace_entries@);
        }
        result
    }

    /// Get all trace entries.
    pub fn get_trace(&self) -> (r: &[TraceEntry])
        ensures
            r@ == self.entries(),
    {
        self.trace_entries.as_slice()
    }

    /// Clear the trace history.
    pub fn clear(&mut self)
        ensures
            final(self).entries().len() == 0,
            final(self).is_enabled() == old(self).is_enabled(),
    {
        self.trace_entries.clear();
    }
}

impl Default for ResolutionTracer {
    fn default() -> (t: ResolutionTracer)
        ensures
            t.entries().len() == 0,
            !t.is_enabled(),
    {
        Self::new()
    }
}

} // verus!
