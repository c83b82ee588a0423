//! Graph walks over dependency-graph nodes: breadth-first depths, reference counts,
//! depth-first cycle search, unused services and the indented tree text.
use vstd::prelude::*;
use crate::key::Key;
use crate::text::{push_str, push_decimal};
use super::{GraphNode, indent, tree_line, push_indent};

verus! {

/// No two nodes share a key.
pub open spec fn distinct_keys(ns: Seq<GraphNode>) -> bool {
    forall|i: int, j: int|
        0 <= i < ns.len() && 0 <= j < ns.len() && i != j ==> #[trigger] ns[i].key.id() != #[trigger] ns[j].key.id()
}

/// `b` keeps everything of `a` but its metadata.
pub open spec fn same_shape(a: GraphNode, b: GraphNode) -> bool {
    &&& b.key == a.key
    &&& b.descriptor == a.descriptor
    &&& b.dependencies@ == a.dependencies@
    &&& b.dependents@ == a.dependents@
}

/// Number of `false` entries.
pub open spec fn count_false(s: Seq<bool>) -> nat
    decreases s.len(),
{
    if s.len() == 0 {
        0
    } else {
        count_false(s.drop_last()) + if s.last() { 0nat } else { 1nat }
    }
}

/// Setting one `false` entry to `true` lowers the count by one.
pub proof fn lemma_count_false_set(s: Seq<bool>, i: int)
    requires
        0 <= i < s.len(),
        !s[i],
    ensures
        count_false(s.update(i, true)) + 1 == count_false(s),
    decreases s.len(),
{
    if i == s.len() - 1 {
        assert(s.update(i, true).drop_last() =~= s.drop_last());
    } else {
        lemma_count_false_set(s.drop_last(), i);
        assert(s.update(i, true).drop_last() =~= s.drop_last().update(i, true));
    }
}

/// Turning entries to `true` never raises the count.
pub proof fn lemma_count_false_mono(s: Seq<bool>, t: Seq<bool>)
    requires
        s.len() == t.len(),
        forall|i: int| 0 <= i < s.len() && #[trigger] s[i] ==> t[i],
    ensures
        count_false(t) <= count_false(s),
    decreases s.len(),
{
    if s.len() > 0 {
        lemma_count_false_mono(s.drop_last(), t.drop_last());
    }
}

/// All `false`: the count is the length.
pub proof fn lemma_count_false_none(s: Seq<bool>)
    requires
        forall|i: int| 0 <= i < s.len() ==> !#[trigger] s[i],
    ensures
        count_false(s) == s.len(),
    decreases s.len(),
{
    if s.len() > 0 {
        lemma_count_false_none(s.drop_last());
    }
}

/// Node `v` is among the dependents listed by node `u`.
pub open spec fn dependent_edge(ns: Seq<GraphNode>, u: int, v: int) -> bool {
    exists|j: int| 0 <= j < ns[u].dependents@.len() && #[trigger] ns[u].dependents@[j].id() == ns[v].key.id()
}

/// A root of the depth walk: a node with no dependencies.
pub open spec fn is_root(n: GraphNode) -> bool {
    n.dependencies@.len() == 0
}

/// The `k`-th step of `p` goes from a node to one of its dependents.
pub open spec fn dependent_step(ns: Seq<GraphNode>, p: Seq<int>, k: int) -> bool {
    dependent_edge(ns, p[k], p[k + 1])
}

/// `p` is a walk from a root to `v`, each step from a node to one of its dependents.
pub open spec fn walk_to(ns: Seq<GraphNode>, p: Seq<int>, v: int) -> bool {
    &&& p.len() >= 1
    &&& forall|k: int| 0 <= k < p.len() ==> 0 <= #[trigger] p[k] < ns.len()
    &&& is_root(ns[p[0]])
    &&& forall|k: int| 0 <= k < p.len() - 1 ==> #[trigger] dependent_step(ns, p, k)
    &&& p.last() == v
}

/// Node `v` is reached from a root in at most `l` steps from a node to one of its dependents.
pub open spec fn reached_within(ns: Seq<GraphNode>, v: int, l: nat) -> bool {
    exists|p: Seq<int>| #[trigger] walk_to(ns, p, v) && p.len() <= l + 1
}

/// Node `v` is reached from a root at all.
pub open spec fn reachable(ns: Seq<GraphNode>, v: int) -> bool {
    exists|l: nat| #[trigger] reached_within(ns, v, l)
}

/// `d` is the fewest steps in which `v` is reached from a root.
pub open spec fn least_depth(ns: Seq<GraphNode>, v: int, d: nat) -> bool {
    reached_within(ns, v, d) && (d == 0 || !reached_within(ns, v, (d - 1) as nat))
}

/// In no steps exactly the roots are reached.
pub proof fn lemma_reached_zero(ns: Seq<GraphNode>, v: int)
    requires
        0 <= v < ns.len(),
    ensures
        reached_within(ns, v, 0) <==> is_root(ns[v]),
{
    if is_root(ns[v]) {
        let p = seq![v];
        assert(walk_to(ns, p, v));
    }
}

/// More steps reach at least as much.
pub proof fn lemma_reached_mono(ns: Seq<GraphNode>, v: int, l: nat, m: nat)
    requires
        reached_within(ns, v, l),
        l <= m,
    ensures
        reached_within(ns, v, m),
{
    let p = choose|p: Seq<int>| #[trigger] walk_to(ns, p, v) && p.len() <= l + 1;
    assert(walk_to(ns, p, v) && p.len() <= m + 1);
}

/// One more step reaches the dependents of what was reached.
pub proof fn lemma_reached_extend(ns: Seq<GraphNode>, u: int, v: int, l: nat)
    requires
        reached_within(ns, u, l),
        0 <= v < ns.len(),
        dependent_edge(ns, u, v),
    ensures
        reached_within(ns, v, l + 1),
{
    let p = choose|p: Seq<int>| #[trigger] walk_to(ns, p, u) && p.len() <= l + 1;
    let q = p.push(v);
    assert forall|k: int| 0 <= k < q.len() - 1 implies #[trigger] dependent_step(ns, q, k) by {
        if k < p.len() - 1 {
            assert(dependent_step(ns, p, k));
        }
    }
    assert(walk_to(ns, q, v));
}

/// What is reached in one more step, and was not reached before, is a dependent of
/// something reached before.
pub proof fn lemma_reached_back(ns: Seq<GraphNode>, v: int, l: nat)
    requires
        reached_within(ns, v, l + 1),
        !reached_within(ns, v, l),
    ensures
        exists|u: int| 0 <= u < ns.len() && #[trigger] reached_within(ns, u, l) && dependent_edge(ns, u, v),
{
    let p = choose|p: Seq<int>| #[trigger] walk_to(ns, p, v) && p.len() <= l + 2;
    assert(p.len() == l + 2);
    let q = p.drop_last();
    let u = q.last();
    assert forall|k: int| 0 <= k < q.len() - 1 implies #[trigger] dependent_step(ns, q, k) by {
        assert(dependent_step(ns, p, k));
    }
    assert(walk_to(ns, q, u));
    assert(dependent_step(ns, p, p.len() - 2));
    assert(reached_within(ns, u, l));
}

/// When no node is first reached in exactly `l` steps, no node is first reached later.
pub proof fn lemma_reached_stops(ns: Seq<GraphNode>, l: nat, m: nat, v: int)
    requires
        forall|u: int| 0 <= u < ns.len() ==> !#[trigger] least_depth(ns, u, l),
        l <= m,
        0 <= v < ns.len(),
        reached_within(ns, v, m),
    ensures
        reached_within(ns, v, l),
    decreases m - l,
{
    if l < m {
        if reached_within(ns, v, (m - 1) as nat) {
            lemma_reached_stops(ns, l, (m - 1) as nat, v);
        } else {
            lemma_reached_back(ns, v, (m - 1) as nat);
            let u = choose|u: int|
                0 <= u < ns.len() && #[trigger] reached_within(ns, u, (m - 1) as nat) && dependent_edge(ns, u, v);
            lemma_reached_stops(ns, l, (m - 1) as nat, u);
            assert(!least_depth(ns, u, l));
            if l == 0 {
                assert(false);
            } else {
                lemma_reached_extend(ns, u, v, (l - 1) as nat);
            }
        }
    }
}

/// The nodes reached within `l + 1` steps: those reached within `l`, and the dependents of
/// the nodes first reached in exactly `l` steps.
pub proof fn lemma_reached_step(ns: Seq<GraphNode>, l: nat, v: int)
    requires
        0 <= v < ns.len(),
    ensures
        reached_within(ns, v, l + 1) <==> (reached_within(ns, v, l) || exists|u: int|
            0 <= u < ns.len() && #[trigger] least_depth(ns, u, l) && dependent_edge(ns, u, v)),
{
    if reached_within(ns, v, l + 1) && !reached_within(ns, v, l) {
        lemma_reached_back(ns, v, l);
        let u = choose|u: int|
            0 <= u < ns.len() && #[trigger] reached_within(ns, u, l) && dependent_edge(ns, u, v);
        if l > 0 && reached_within(ns, u, (l - 1) as nat) {
            lemma_reached_extend(ns, u, v, (l - 1) as nat);
        }
        assert(least_depth(ns, u, l));
    }
    if reached_within(ns, v, l) {
        lemma_reached_mono(ns, v, l, l + 1);
    }
    if exists|u: int| 0 <= u < ns.len() && #[trigger] least_depth(ns, u, l) && dependent_edge(ns, u, v) {
        let u = choose|u: int| 0 <= u < ns.len() && #[trigger] least_depth(ns, u, l) && dependent_edge(ns, u, v);
        lemma_reached_extend(ns, u, v, l);
    }
}

/// Breadth-first depths grow by at most one from a node to each of its dependents: a
/// dependent is never deeper than one step below the node it depends on.
pub proof fn law_depth_step(ns: Seq<GraphNode>, u: int, v: int, du: nat, dv: nat)
    requires
        0 <= u < ns.len(),
        0 <= v < ns.len(),
        dependent_edge(ns, u, v),
        least_depth(ns, u, du),
        least_depth(ns, v, dv),
    ensures
        dv <= du + 1,
{
    lemma_reached_extend(ns, u, v, du);
    if dv > du + 1 {
        lemma_reached_mono(ns, v, du + 1, (dv - 1) as nat);
    }
}

/// The position of a key among the nodes.
pub fn index_of(nodes: &Vec<GraphNode>, key: &Key) -> (r: Option<usize>)
    ensures
        match r {
            Some(i) => i < nodes@.len() && nodes@[i as int].key.id() == key.id(),
            None => forall|i: int| 0 <= i < nodes@.len() ==> #[trigger] nodes@[i].key.id() != key.id(),
        },
{
    let mut i: usize = 0;
    while i < nodes.len()
        invariant
            0 <= i <= nodes@.len(),
            forall|j: int| 0 <= j < i ==> #[trigger] nodes@[j].key.id() != key.id(),
        decreases nodes@.len() - i,
    {
        if nodes[i].key.same_as(key) {
            return Some(i);
        }
        i = i + 1;
    }
    None
}

/// Sets each node's reference count to the number of its dependents.
pub fn calculate_reference_counts(nodes: &mut Vec<GraphNode>)
    ensures
        final(nodes)@.len() == old(nodes)@.len(),
        forall|i: int| 0 <= i < old(nodes)@.len() ==> {
            let (a, b) = (old(nodes)@[i], #[trigger] final(nodes)@[i]);
            &&& same_shape(a, b)
            &&& b.metadata.reference_count == a.dependents@.len()
            &&& b.metadata.depth == a.metadata.depth
            &&& b.metadata.is_circular == a.metadata.is_circular
            &&& b.metadata.resolution_cost == a.metadata.resolution_cost
        },
{
    let ghost start = nodes@;
    let mut i: usize = 0;
    while i < nodes.len()
        invariant
            0 <= i <= nodes@.len(),
            nodes@.len() == start.len(),
            forall|j: int| 0 <= j < start.len() ==> {
                let (a, b) = (start[j], #[trigger] nodes@[j]);
                &&& same_shape(a, b)
                &&& b.metadata.reference_count == (if j < i { a.dependents@.len() } else { a.metadata.reference_count as nat })
                &&& b.metadata.depth == a.metadata.depth
                &&& b.metadata.is_circular == a.metadata.is_circular
                &&& b.metadata.resolution_cost == a.metadata.resolution_cost
            },
        decreases nodes@.len() - i,
    {
        let count = nodes[i].dependents.len();
        nodes[i].metadata.reference_count = count;
        i = i + 1;
    }
}


/// The nodes keep their shape and all metadata but the depth.
pub open spec fn keeps_all_but_depth(ns: Seq<GraphNode>, cur: Seq<GraphNode>) -> bool {
    &&& cur.len() == ns.len()
    &&& forall|w: int| 0 <= w < ns.len() ==> {
        let (a, b) = (ns[w], #[trigger] cur[w]);
        &&& same_shape(a, b)
        &&& b.metadata.reference_count == a.metadata.reference_count
        &&& b.metadata.is_circular == a.metadata.is_circular
        &&& b.metadata.resolution_cost == a.metadata.resolution_cost
    }
}

/// Marks the unvisited dependents of node `u` as visited at depth `level + 1` and queues them.
fn visit_dependents(
    nodes: &mut Vec<GraphNode>,
    u: usize,
    level: usize,
    visited: &mut Vec<bool>,
    next: &mut Vec<usize>,
    count: &mut usize,
    Ghost(ns): Ghost<Seq<GraphNode>>,
)
    requires
        keeps_all_but_depth(ns, old(nodes)@),
        distinct_keys(ns),
        u < ns.len(),
        ns.len() <= usize::MAX,
        level < usize::MAX,
        old(visited)@.len() == ns.len(),
        *old(count) + count_false(old(visited)@) == ns.len(),
    ensures
        keeps_all_but_depth(ns, final(nodes)@),
        final(visited)@.len() == ns.len(),
        *final(count) + count_false(final(visited)@) == ns.len(),
        *final(count) == *old(count) + final(next)@.len() - old(next)@.len(),
        final(next)@.len() >= old(next)@.len(),
        final(next)@.take(old(next)@.len() as int) == old(next)@,
        forall|w: int| 0 <= w < ns.len() ==> (#[trigger] final(visited)@[w] <==> (old(visited)@[w] || dependent_edge(ns, u as int, w))),
        forall|w: int| 0 <= w < ns.len() ==> if final(visited)@[w] && !old(visited)@[w] {
            &&& #[trigger] final(nodes)@[w].metadata.depth == level + 1
            &&& final(next)@.contains(w as usize)
        } else {
            final(nodes)@[w].metadata.depth == old(nodes)@[w].metadata.depth
        },
        forall|k: int| old(next)@.len() <= k < final(next)@.len() ==> {
            let w = #[trigger] final(next)@[k] as int;
            &&& 0 <= w < ns.len()
            &&& !old(visited)@[w]
            &&& final(visited)@[w]
        },
{
    let ghost nodes0 = nodes@;
    let ghost visited0 = visited@;
    let ghost next0 = next@;
    let ghost count0 = *count;
    let m = nodes[u].dependents.len();
    let mut j: usize = 0;
    while j < m
        invariant
            0 <= j <= m,
            m == ns[u as int].dependents@.len(),
            u < ns.len(),
            ns.len() <= usize::MAX,
            level < usize::MAX,
            distinct_keys(ns),
            keeps_all_but_depth(ns, nodes@),
            visited@.len() == ns.len(),
            visited0.len() == ns.len(),
            *count + count_false(visited@) == ns.len(),
            *count == count0 + next@.len() - next0.len(),
            next@.len() >= next0.len(),
            next@.take(next0.len() as int) == next0,
            forall|w: int| 0 <= w < ns.len() ==> (#[trigger] visited@[w] <==> (visited0[w] || exists|jj: int|
                0 <= jj < j && #[trigger] ns[u as int].dependents@[jj].id() == ns[w].key.id())),
            forall|w: int| 0 <= w < ns.len() ==> if visited@[w] && !visited0[w] {
                &&& #[trigger] nodes@[w].metadata.depth == level + 1
                &&& next@.contains(w as usize)
            } else {
                nodes@[w].metadata.depth == nodes0[w].metadata.depth
            },
            forall|k: int| next0.len() <= k < next@.len() ==> {
                let w = #[trigger] next@[k] as int;
                &&& 0 <= w < ns.len()
                &&& !visited0[w]
                &&& visited@[w]
            },
        decreases m - j,
    {
        let key = nodes[u].dependents[j];
        assert(key == ns[u as int].dependents@[j as int]);
        match index_of(nodes, &key) {
            Some(v) => {
                assert(nodes@[v as int].key == ns[v as int].key);
                if !visited[v] {
                    let ghost nodes1 = nodes@;
                    let ghost next1 = next@;
                    proof {
                        lemma_count_false_set(visited@, v as int);
                    }
                    visited.set(v, true);
                    nodes[v].metadata.depth = level + 1;
                    next.push(v);
                    *count = *count + 1;
                    proof {
                        assert(next@.take(next0.len() as int) =~= next0);
                        assert(next@[next@.len() - 1] == v);
                        assert(next@ == next1.push(v));
                        assert forall|w: int| 0 <= w < ns.len() && w != v as int implies #[trigger] nodes@[w] == nodes1[w] by {}
                        assert forall|x: usize| next1.contains(x) implies #[trigger] next@.contains(x) by {
                            let k = choose|k: int| 0 <= k < next1.len() && next1[k] == x;
                            assert(next@[k] == x);
                        }
                        assert(next@.contains(v));
                        assert forall|w: int| 0 <= w < ns.len() implies if visited@[w] && !visited0[w] {
                            &&& #[trigger] nodes@[w].metadata.depth == level + 1
                            &&& next@.contains(w as usize)
                        } else {
                            nodes@[w].metadata.depth == nodes0[w].metadata.depth
                        } by {
                            if w != v as int {
                                assert(nodes@[w] == nodes1[w]);
                                if visited@[w] && !visited0[w] {
                                    assert(nodes1[w].metadata.depth == level + 1);
                                    assert(next1.contains(w as usize));
                                }
                            }
                        }
                    }
                }
                proof {
                    assert forall|w: int| 0 <= w < ns.len() implies (#[trigger] visited@[w] <==> (visited0[w]
                        || exists|jj: int| 0 <= jj < j + 1 && #[trigger] ns[u as int].dependents@[jj].id() == ns[w].key.id())) by {
                        if w == v as int {
                            assert(ns[u as int].dependents@[j as int].id() == ns[w].key.id());
                        } else {
                            assert(ns[w].key.id() != ns[v as int].key.id());
                        }
                    }
                }
            },
            None => {
                proof {
                    assert forall|w: int| 0 <= w < ns.len() implies (#[trigger] visited@[w] <==> (visited0[w]
                        || exists|jj: int| 0 <= jj < j + 1 && #[trigger] ns[u as int].dependents@[jj].id() == ns[w].key.id())) by {
                        assert(nodes@[w].key == ns[w].key);
                    }
                }
            },
        }
        j = j + 1;
    }
}


/// Sets the depth of every node reached from a root (a node with no dependencies) by
/// stepping from nodes to their dependents, breadth-first: the fewest steps from a root.
/// A node not reached keeps its depth; nothing else changes.
pub fn calculate_depths(nodes: &mut Vec<GraphNode>)
    requires
        distinct_keys(old(nodes)@),
    ensures
        keeps_all_but_depth(old(nodes)@, final(nodes)@),
        forall|v: int| 0 <= v < old(nodes)@.len() ==> if reachable(old(nodes)@, v) {
            least_depth(old(nodes)@, v, #[trigger] final(nodes)@[v].metadata.depth as nat)
        } else {
            final(nodes)@[v].metadata.depth == old(nodes)@[v].metadata.depth
        },
{
    let ghost ns = nodes@;
    let n = nodes.len();
    let mut visited: Vec<bool> = Vec::new();
    let mut i: usize = 0;
    while i < n
        invariant
            0 <= i <= n,
            visited@.len() == i,
            forall|j: int| 0 <= j < i ==> !#[trigger] visited@[j],
        decreases n - i,
    {
        visited.push(false);
        i = i + 1;
    }
    proof {
        lemma_count_false_none(visited@);
    }
    let mut frontier: Vec<usize> = Vec::new();
    let mut count: usize = 0;
    let mut r: usize = 0;
    while r < n
        invariant
            0 <= r <= n,
            n == ns.len(),
            distinct_keys(ns),
            keeps_all_but_depth(ns, nodes@),
            visited@.len() == n,
            count + count_false(visited@) == n,
            count == frontier@.len(),
            forall|w: int| 0 <= w < n ==> (#[trigger] visited@[w] <==> (w < r && is_root(ns[w]))),
            forall|w: int| 0 <= w < n ==> #[trigger] nodes@[w].metadata.depth == (if visited@[w] { 0 } else { ns[w].metadata.depth }),
            forall|k: int| 0 <= k < frontier@.len() ==> {
                let w = #[trigger] frontier@[k] as int;
                0 <= w < r && is_root(ns[w])
            },
            forall|w: int| 0 <= w < r && is_root(ns[w]) ==> #[trigger] frontier@.contains(w as usize),
        decreases n - r,
    {
        if nodes[r].dependencies.len() == 0 {
            let ghost nodes1 = nodes@;
            let ghost front1 = frontier@;
            proof {
                lemma_count_false_set(visited@, r as int);
            }
            visited.set(r, true);
            nodes[r].metadata.depth = 0;
            frontier.push(r);
            count = count + 1;
            proof {
                assert forall|w: int| 0 <= w < n && w != r as int implies #[trigger] nodes@[w] == nodes1[w] by {}
                assert forall|w: int| 0 <= w < r + 1 && is_root(ns[w]) implies #[trigger] frontier@.contains(w as usize) by {
                    if w == r as int {
                        assert(frontier@[frontier@.len() - 1] == r);
                    } else {
                        assert(front1.contains(w as usize));
                        let k = choose|k: int| 0 <= k < front1.len() && front1[k] == w as usize;
                        assert(frontier@[k] == w as usize);
                    }
                }
            }
        } else {
            proof {
                assert(!is_root(ns[r as int]));
            }
        }
        r = r + 1;
    }
    let mut level: usize = 0;
    proof {
        assert forall|w: int| 0 <= w < n implies (#[trigger] visited@[w] <==> reached_within(ns, w, 0)) by {
            lemma_reached_zero(ns, w);
        }
        assert forall|k: int| 0 <= k < frontier@.len() implies #[trigger] least_depth(ns, frontier@[k] as int, 0) by {
            lemma_reached_zero(ns, frontier@[k] as int);
        }
        assert forall|w: int| 0 <= w < n && #[trigger] least_depth(ns, w, 0) implies frontier@.contains(w as usize) by {
            lemma_reached_zero(ns, w);
        }
    }
    while frontier.len() > 0
        invariant
            n == ns.len(),
            distinct_keys(ns),
            keeps_all_but_depth(ns, nodes@),
            visited@.len() == n,
            count + count_false(visited@) == n,
            level <= n,
            frontier@.len() > 0 ==> level < count,
            forall|w: int| 0 <= w < n ==> (#[trigger] visited@[w] <==> reached_within(ns, w, level as nat)),
            forall|w: int| 0 <= w < n ==> if #[trigger] visited@[w] {
                least_depth(ns, w, nodes@[w].metadata.depth as nat)
            } else {
                nodes@[w].metadata.depth == ns[w].metadata.depth
            },
            forall|k: int| 0 <= k < frontier@.len() ==> {
                let w = #[trigger] frontier@[k] as int;
                0 <= w < n && least_depth(ns, w, level as nat)
            },
            forall|w: int| 0 <= w < n && #[trigger] least_depth(ns, w, level as nat) ==> frontier@.contains(w as usize),
        decreases n - level,
    {
        let mut next: Vec<usize> = Vec::new();
        let ghost visited0 = visited@;
        let ghost nodes0 = nodes@;
        let ghost count0 = count;
        let mut fi: usize = 0;
        while fi < frontier.len()
            invariant
                0 <= fi <= frontier@.len(),
                n == ns.len(),
                distinct_keys(ns),
                level < count0,
                level < n,
                keeps_all_but_depth(ns, nodes@),
                visited@.len() == n,
                visited0.len() == n,
                count + count_false(visited@) == n,
                count == count0 + next@.len(),
                forall|k: int| 0 <= k < frontier@.len() ==> {
                    let w = #[trigger] frontier@[k] as int;
                    0 <= w < n && least_depth(ns, w, level as nat)
                },
                forall|w: int| 0 <= w < n ==> (#[trigger] visited@[w] <==> (visited0[w] || exists|k: int|
                    0 <= k < fi && #[trigger] dependent_edge(ns, frontier@[k] as int, w))),
                forall|w: int| 0 <= w < n ==> (#[trigger] visited0[w] <==> reached_within(ns, w, level as nat)),
                forall|w: int| 0 <= w < n ==> if #[trigger] visited@[w] && !visited0[w] {
                    &&& nodes@[w].metadata.depth == level + 1
                    &&& next@.contains(w as usize)
                } else {
                    nodes@[w].metadata.depth == nodes0[w].metadata.depth
                },
                forall|k: int| 0 <= k < next@.len() ==> {
                    let w = #[trigger] next@[k] as int;
                    &&& 0 <= w < n
                    &&& !visited0[w]
                    &&& visited@[w]
                },
            decreases frontier@.len() - fi,
        {
            let u = frontier[fi];
            let ghost visited1 = visited@;
            let ghost nodes1 = nodes@;
            let ghost next1 = next@;
            visit_dependents(nodes, u, level, &mut visited, &mut next, &mut count, Ghost(ns));
            proof {
                assert forall|w: int| 0 <= w < n implies (#[trigger] visited@[w] <==> (visited0[w] || exists|k: int|
                    0 <= k < fi + 1 && #[trigger] dependent_edge(ns, frontier@[k] as int, w))) by {
                    if dependent_edge(ns, u as int, w) {
                        assert(dependent_edge(ns, frontier@[fi as int] as int, w));
                    }
                    if exists|k: int| 0 <= k < fi + 1 && #[trigger] dependent_edge(ns, frontier@[k] as int, w) {
                        let k = choose|k: int| 0 <= k < fi + 1 && #[trigger] dependent_edge(ns, frontier@[k] as int, w);
                        if k < fi {
                            assert(visited1[w]);
                        }
                    }
                }
                assert forall|w: int| 0 <= w < n implies if #[trigger] visited@[w] && !visited0[w] {
                    &&& nodes@[w].metadata.depth == level + 1
                    &&& next@.contains(w as usize)
                } else {
                    nodes@[w].metadata.depth == nodes0[w].metadata.depth
                } by {
                    assert(visited1[w] <==> (visited0[w] || exists|k: int|
                        0 <= k < fi && #[trigger] dependent_edge(ns, frontier@[k] as int, w)));
                    if visited1[w] && !visited0[w] {
                        assert(nodes1[w].metadata.depth == level + 1);
                    } else {
                        assert(nodes1[w].metadata.depth == nodes0[w].metadata.depth);
                    }
                    if visited1[w] && !visited0[w] {
                        assert(next1.contains(w as usize));
                        let k = choose|k: int| 0 <= k < next1.len() && next1[k] == w as usize;
                        assert(next@.take(next1.len() as int)[k] == w as usize);
                        assert(next@[k] == w as usize);
                    }
                }
                assert forall|k: int| 0 <= k < next@.len() implies {
                    let w = #[trigger] next@[k] as int;
                    &&& 0 <= w < n
                    &&& !visited0[w]
                    &&& visited@[w]
                } by {
                    if k < next1.len() {
                        assert(next@.take(next1.len() as int)[k] == next1[k]);
                    }
                }
            }
            fi = fi + 1;
        }
        proof {
            assert forall|w: int| 0 <= w < n implies (#[trigger] visited@[w] <==> reached_within(ns, w, (level + 1) as nat)) by {
                lemma_reached_step(ns, level as nat, w);
                if exists|u: int| 0 <= u < ns.len() && #[trigger] least_depth(ns, u, level as nat) && dependent_edge(ns, u, w) {
                    let u = choose|u: int| 0 <= u < ns.len() && #[trigger] least_depth(ns, u, level as nat) && dependent_edge(ns, u, w);
                    assert(frontier@.contains(u as usize));
                    let k = choose|k: int| 0 <= k < frontier@.len() && frontier@[k] == u as usize;
                    assert(dependent_edge(ns, frontier@[k] as int, w));
                }
                if exists|k: int| 0 <= k < frontier@.len() && #[trigger] dependent_edge(ns, frontier@[k] as int, w) {
                    let k = choose|k: int| 0 <= k < frontier@.len() && #[trigger] dependent_edge(ns, frontier@[k] as int, w);
                    let u = frontier@[k] as int;
                    assert(least_depth(ns, u, level as nat));
                }
            }
            assert forall|w: int| 0 <= w < n implies if #[trigger] visited@[w] {
                least_depth(ns, w, nodes@[w].metadata.depth as nat)
            } else {
                nodes@[w].metadata.depth == ns[w].metadata.depth
            } by {
                if visited@[w] && !visited0[w] {
                    assert(reached_within(ns, w, (level + 1) as nat));
                    assert(!reached_within(ns, w, level as nat));
                }
            }
            assert forall|k: int| 0 <= k < next@.len() implies {
                let w = #[trigger] next@[k] as int;
                0 <= w < n && least_depth(ns, w, (level + 1) as nat)
            } by {
                let w = next@[k] as int;
                assert(visited@[w]);
                assert(reached_within(ns, w, (level + 1) as nat));
            }
            assert forall|w: int| 0 <= w < n && #[trigger] least_depth(ns, w, (level + 1) as nat) implies next@.contains(w as usize) by {
                assert(visited@[w]);
                assert(!visited0[w]);
            }
        }
        frontier = next;
        level = level + 1;
    }
    proof {
        assert forall|v: int| 0 <= v < n implies if reachable(ns, v) {
            least_depth(ns, v, #[trigger] nodes@[v].metadata.depth as nat)
        } else {
            nodes@[v].metadata.depth == ns[v].metadata.depth
        } by {
            assert forall|u: int| 0 <= u < n implies !#[trigger] least_depth(ns, u, level as nat) by {
                if least_depth(ns, u, level as nat) {
                    assert(frontier@.contains(u as usize));
                }
            }
            if reachable(ns, v) {
                let l = choose|l: nat| #[trigger] reached_within(ns, v, l);
                if l <= level {
                    lemma_reached_mono(ns, v, l, level as nat);
                } else {
                    lemma_reached_stops(ns, level as nat, l, v);
                }
                assert(visited@[v]);
            } else {
                if visited@[v] {
                    assert(reached_within(ns, v, level as nat));
                }
            }
        }
    }
}


/// Node `v` is among the dependencies listed by node `u`.
pub open spec fn dependency_edge(ns: Seq<GraphNode>, u: int, v: int) -> bool {
    exists|j: int| 0 <= j < ns[u].dependencies@.len() && #[trigger] ns[u].dependencies@[j].id() == ns[v].key.id()
}

/// The `k`-th step of `p` goes from a node to one of its dependencies.
pub open spec fn dependency_step(ns: Seq<GraphNode>, p: Seq<usize>, k: int) -> bool {
    dependency_edge(ns, p[k] as int, p[k + 1] as int)
}

/// `p` lists nodes each of which depends on the next.
pub open spec fn dependency_chain(ns: Seq<GraphNode>, p: Seq<usize>) -> bool {
    &&& forall|k: int| 0 <= k < p.len() ==> #[trigger] p[k] < ns.len()
    &&& forall|k: int| 0 <= k < p.len() - 1 ==> #[trigger] dependency_step(ns, p, k)
}

/// Node `i` carries key `a`.
pub open spec fn names(ns: Seq<GraphNode>, i: int, a: Key) -> bool {
    0 <= i < ns.len() && ns[i].key.id() == a.id()
}

/// Node `n` lists a dependency with key `b`.
pub open spec fn lists_dependency(n: GraphNode, b: Key) -> bool {
    exists|j: int| 0 <= j < n.dependencies@.len() && #[trigger] n.dependencies@[j].id() == b.id()
}

/// The node of key `a` lists `b` among its dependencies.
pub open spec fn key_depends(ns: Seq<GraphNode>, a: Key, b: Key) -> bool {
    exists|i: int| #[trigger] names(ns, i, a) && lists_dependency(ns[i], b)
}

/// The `k`-th key of `c` depends on the next one.
pub open spec fn cycle_step(ns: Seq<GraphNode>, c: Seq<Key>, k: int) -> bool {
    key_depends(ns, c[k], c[k + 1])
}

/// `c` is a dependency cycle: each key's node depends on the next key, the last on the first.
pub open spec fn is_cycle(ns: Seq<GraphNode>, c: Seq<Key>) -> bool {
    &&& c.len() > 0
    &&& forall|k: int| 0 <= k < c.len() - 1 ==> #[trigger] cycle_step(ns, c, k)
    &&& key_depends(ns, c.last(), c[0])
}

/// The keys of the nodes of `p` from position `start` on.
pub open spec fn chain_keys(ns: Seq<GraphNode>, p: Seq<usize>, start: int) -> Seq<Key> {
    Seq::new((p.len() - start) as nat, |k: int| ns[p[start + k] as int].key)
}

/// The first position of `v` in `path`.
fn position_in(path: &Vec<usize>, v: usize) -> (r: Option<usize>)
    ensures
        match r {
            Some(p) => p < path@.len() && path@[p as int] == v,
            None => !path@.contains(v),
        },
{
    let mut i: usize = 0;
    while i < path.len()
        invariant
            0 <= i <= path@.len(),
            forall|k: int| 0 <= k < i ==> #[trigger] path@[k] != v,
        decreases path@.len() - i,
    {
        if path[i] == v {
            return Some(i);
        }
        i = i + 1;
    }
    None
}

/// The keys of the nodes of `path` from position `start` on.
fn keys_from(nodes: &Vec<GraphNode>, path: &Vec<usize>, start: usize) -> (r: Vec<Key>)
    requires
        start <= path@.len(),
        forall|k: int| 0 <= k < path@.len() ==> #[trigger] path@[k] < nodes@.len(),
    ensures
        r@ == chain_keys(nodes@, path@, start as int),
{
    let mut out: Vec<Key> = Vec::new();
    let mut i: usize = start;
    while i < path.len()
        invariant
            start <= i <= path@.len(),
            forall|k: int| 0 <= k < path@.len() ==> #[trigger] path@[k] < nodes@.len(),
            out@ == chain_keys(nodes@, path@, start as int).take(i - start),
        decreases path@.len() - i,
    {
        out.push(nodes[path[i]].key);
        proof {
            assert(out@ =~= chain_keys(nodes@, path@, start as int).take(i + 1 - start));
        }
        i = i + 1;
    }
    proof {
        assert(out@ =~= chain_keys(nodes@, path@, start as int));
    }
    out
}

/// Closing a chain at a node it already holds gives a cycle.
proof fn lemma_closed_chain(ns: Seq<GraphNode>, p: Seq<usize>, start: int, j: int)
    requires
        dependency_chain(ns, p),
        0 <= start < p.len(),
        0 <= j < ns[p.last() as int].dependencies@.len(),
        ns[p.last() as int].dependencies@[j].id() == ns[p[start] as int].key.id(),
    ensures
        is_cycle(ns, chain_keys(ns, p, start)),
{
    let c = chain_keys(ns, p, start);
    assert forall|k: int| 0 <= k < c.len() - 1 implies #[trigger] cycle_step(ns, c, k) by {
        assert(dependency_step(ns, p, start + k));
        let a = p[start + k] as int;
        let jj = choose|jj: int| 0 <= jj < ns[a].dependencies@.len()
            && #[trigger] ns[a].dependencies@[jj].id() == ns[p[start + k + 1] as int].key.id();
        assert(names(ns, a, c[k]));
        assert(ns[a].dependencies@[jj].id() == c[k + 1].id());
        assert(lists_dependency(ns[a], c[k + 1]));
    }
    let last = p.last() as int;
    assert(c.last() == ns[last].key);
    assert(names(ns, last, c.last()));
    assert(lists_dependency(ns[last], c[0]));
}

/// The state of a depth-first search that has found no cycle: a node is visited exactly
/// when it is on the path or finished; nodes on the path are unfinished; finishing times
/// are below `clock`; a finished node's dependencies finished before it.
pub open spec fn search_state(ns: Seq<GraphNode>, visited: Seq<bool>, path: Seq<usize>, fin: Seq<int>, clock: int) -> bool {
    &&& visited.len() == ns.len()
    &&& fin.len() == ns.len()
    &&& clock >= 0
    &&& forall|x: int| 0 <= x < ns.len() ==> (#[trigger] visited[x] <==> (path.contains(x as usize) || fin[x] >= 0))
    &&& forall|x: int| 0 <= x < ns.len() && #[trigger] path.contains(x as usize) ==> fin[x] < 0
    &&& forall|x: int| 0 <= x < ns.len() ==> #[trigger] fin[x] < clock
    &&& forall|x: int, y: int|
        0 <= x < ns.len() && 0 <= y < ns.len() && fin[x] >= 0 && #[trigger] dependency_edge(ns, x, y) ==> 0 <= fin[y] < fin[x]
}

/// `later` keeps every finishing time of `earlier`.
pub open spec fn keeps_finished(earlier: Seq<int>, later: Seq<int>) -> bool {
    &&& later.len() == earlier.len()
    &&& forall|x: int| 0 <= x < earlier.len() && #[trigger] earlier[x] >= 0 ==> later[x] == earlier[x]
}

/// Depth-first search from node `u` for a dependency cycle through the nodes on `path`
/// and those not yet visited; returns the first cycle met, as keys from where it closes.
/// The ghost finishing times witness, when no cycle is met, that the nodes finished so far
/// only depend on nodes finished before them.
fn dfs_find_cycle(
    nodes: &Vec<GraphNode>,
    u: usize,
    visited: &mut Vec<bool>,
    path: &mut Vec<usize>,
    Ghost(track): Ghost<bool>,
    Ghost(fin): Ghost<Seq<int>>,
    Ghost(clock): Ghost<int>,
) -> (r: (Option<Vec<Key>>, Ghost<Seq<int>>, Ghost<int>))
    requires
        u < nodes@.len(),
        old(visited)@.len() == nodes@.len(),
        !old(visited)@[u as int],
        dependency_chain(nodes@, old(path)@),
        old(path)@.len() > 0 ==> dependency_edge(nodes@, old(path)@.last() as int, u as int),
        track ==> distinct_keys(nodes@),
        track ==> search_state(nodes@, old(visited)@, old(path)@, fin, clock),
    ensures
        final(visited)@.len() == nodes@.len(),
        forall|i: int| 0 <= i < nodes@.len() && old(visited)@[i] ==> #[trigger] final(visited)@[i],
        final(visited)@[u as int],
        r.0 is None ==> final(path)@ == old(path)@,
        r.0 matches Some(c) ==> is_cycle(nodes@, c@),
        r.0 is None && track ==> {
            &&& search_state(nodes@, final(visited)@, final(path)@, r.1@, r.2@)
            &&& keeps_finished(fin, r.1@)
            &&& r.1@[u as int] >= 0
        },
    decreases count_false(visited@),
{
    let ghost v0 = visited@;
    let ghost p0 = path@;
    let n_nodes = nodes.len();
    proof {
        lemma_count_false_set(visited@, u as int);
    }
    visited.set(u, true);
    path.push(u);
    let ghost p1 = path@;
    assert(visited@ == v0.update(u as int, true));
    assert(p1 == p0.push(u));
    proof {
        assert forall|k: int| 0 <= k < p1.len() - 1 implies #[trigger] dependency_step(nodes@, p1, k) by {
            if k < p0.len() - 1 {
                assert(dependency_step(nodes@, p0, k));
            }
        }
        assert(dependency_chain(nodes@, p1));
        if track {
            assert forall|x: int| 0 <= x < nodes@.len() implies (#[trigger] visited@[x] <==> (p1.contains(x as usize)
                || fin[x] >= 0)) by {
                assert(x < n_nodes);
                if x != u as int {
                    assert(visited@[x] == v0[x]);
                }
                if p1.contains(x as usize) && x != u as int {
                    let k = choose|k: int| 0 <= k < p1.len() && p1[k] == x as usize;
                    assert(k != p0.len());
                    assert(p0[k] == x as usize);
                }
                if p0.contains(x as usize) {
                    let k = choose|k: int| 0 <= k < p0.len() && p0[k] == x as usize;
                    assert(p1[k] == x as usize);
                }
                assert(p1[p1.len() - 1] == u);
            }
            assert forall|x: int| 0 <= x < nodes@.len() && #[trigger] p1.contains(x as usize) implies fin[x] < 0 by {
                if x != u as int {
                    let k = choose|k: int| 0 <= k < p1.len() && p1[k] == x as usize;
                    assert(p0[k] == x as usize);
                    assert(p0.contains(x as usize));
                }
            }
        }
    }
    let mut result: Option<Vec<Key>> = None;
    let ghost mut fin_cur = fin;
    let ghost mut clock_cur = clock;
    let m = nodes[u].dependencies.len();
    let mut j: usize = 0;
    while j < m && result.is_none()
        invariant
            0 <= j <= m,
            m == nodes@[u as int].dependencies@.len(),
            u < nodes@.len(),
            visited@.len() == nodes@.len(),
            v0.len() == nodes@.len(),
            v0 == old(visited)@,
            forall|i: int| 0 <= i < nodes@.len() && v0[i] ==> #[trigger] visited@[i],
            visited@[u as int],
            count_false(visited@) < count_false(v0),
            p1 == p0.push(u),
            dependency_chain(nodes@, p1),
            result is None ==> path@ == p1,
            result matches Some(c) ==> is_cycle(nodes@, c@),
            track ==> distinct_keys(nodes@),
            result is None && track ==> {
                &&& search_state(nodes@, visited@, p1, fin_cur, clock_cur)
                &&& keeps_finished(fin, fin_cur)
                &&& forall|jj: int, y: int|
                    0 <= jj < j && 0 <= y < nodes@.len() && #[trigger] nodes@[u as int].dependencies@[jj].id()
                        == #[trigger] nodes@[y].key.id() ==> fin_cur[y] >= 0
            },
        decreases m - j,
    {
        let d = nodes[u].dependencies[j];
        match index_of(nodes, &d) {
            Some(v) => {
                assert(dependency_edge(nodes@, u as int, v as int)) by {
                    assert(nodes@[u as int].dependencies@[j as int].id() == nodes@[v as int].key.id());
                }
                if !visited[v] {
                    let ghost vb = visited@;
                    assert(path@.last() == u);
                    let (found, Ghost(fin_next), Ghost(clock_next)) = dfs_find_cycle(
                        nodes,
                        v,
                        visited,
                        path,
                        Ghost(track),
                        Ghost(fin_cur),
                        Ghost(clock_cur),
                    );
                    proof {
                        lemma_count_false_mono(vb, visited@);
                        if found is None && track {
                            assert forall|jj: int, y: int|
                                0 <= jj < j + 1 && 0 <= y < nodes@.len() && #[trigger] nodes@[u as int].dependencies@[jj].id()
                                    == #[trigger] nodes@[y].key.id() implies fin_next[y] >= 0 by {
                                if jj < j {
                                    assert(fin_cur[y] >= 0);
                                } else {
                                    assert(y == v as int) by {
                                        if y != v as int {
                                            assert(nodes@[y].key.id() != nodes@[v as int].key.id());
                                        }
                                    }
                                }
                            }
                            assert forall|x: int| 0 <= x < fin.len() && #[trigger] fin[x] >= 0 implies fin_next[x] == fin[x] by {
                                assert(fin_cur[x] == fin[x]);
                            }
                        }
                        fin_cur = fin_next;
                        clock_cur = clock_next;
                    }
                    result = found;
                } else {
                    match position_in(path, v) {
                        Some(p) => {
                            let c = keys_from(nodes, path, p);
                            proof {
                                assert(path@.last() == u);
                                lemma_closed_chain(nodes@, path@, p as int, j as int);
                            }
                            result = Some(c);
                        },
                        None => {
                            proof {
                                if track {
                                    assert(visited@[v as int]);
                                    assert(fin_cur[v as int] >= 0);
                                    assert forall|jj: int, y: int|
                                        0 <= jj < j + 1 && 0 <= y < nodes@.len() && #[trigger] nodes@[u as int].dependencies@[jj].id()
                                            == #[trigger] nodes@[y].key.id() implies fin_cur[y] >= 0 by {
                                        if jj == j && y != v as int {
                                            assert(nodes@[y].key.id() != nodes@[v as int].key.id());
                                        }
                                    }
                                }
                            }
                        },
                    }
                }
            },
            None => {
                proof {
                    if track {
                        assert forall|jj: int, y: int|
                            0 <= jj < j + 1 && 0 <= y < nodes@.len() && #[trigger] nodes@[u as int].dependencies@[jj].id()
                                == #[trigger] nodes@[y].key.id() implies fin_cur[y] >= 0 by {
                            if jj == j {
                                assert(nodes@[y].key.id() != d.id());
                            }
                        }
                    }
                }
            },
        }
        j = j + 1;
    }
    let ghost mut fin_out = fin_cur;
    let ghost mut clock_out = clock_cur;
    if result.is_none() {
        path.pop();
        proof {
            assert(path@ =~= p0);
            if track {
                fin_out = fin_cur.update(u as int, clock_cur);
                clock_out = clock_cur + 1;
                let ns = nodes@;
                assert(fin_cur[u as int] < 0) by {
                    assert(p1.contains(u));
                }
                assert forall|x: int| 0 <= x < ns.len() implies (#[trigger] visited@[x] <==> (p0.contains(x as usize)
                    || fin_out[x] >= 0)) by {
                    assert(x < n_nodes);
                    if x != u as int {
                        assert(visited@[x] <==> (p1.contains(x as usize) || fin_cur[x] >= 0));
                    }
                    if p0.contains(x as usize) {
                        let k = choose|k: int| 0 <= k < p0.len() && p0[k] == x as usize;
                        assert(p1[k] == x as usize);
                    }
                    if p1.contains(x as usize) && x != u as int {
                        let k = choose|k: int| 0 <= k < p1.len() && p1[k] == x as usize;
                        assert(k < p0.len());
                        assert(p0[k] == x as usize);
                    }
                }
                assert forall|x: int| 0 <= x < ns.len() && #[trigger] p0.contains(x as usize) implies fin_out[x] < 0 by {
                    let k = choose|k: int| 0 <= k < p0.len() && p0[k] == x as usize;
                    assert(p1[k] == x as usize);
                    assert(p1.contains(x as usize));
                    if x == u as int {
                        assert(!v0[u as int]);
                    }
                }
                assert forall|x: int, y: int|
                    0 <= x < ns.len() && 0 <= y < ns.len() && fin_out[x] >= 0 && #[trigger] dependency_edge(ns, x, y)
                    implies 0 <= fin_out[y] < fin_out[x] by {
                    if x == u as int {
                        let jj = choose|jj: int| 0 <= jj < ns[x].dependencies@.len() && #[trigger] ns[x].dependencies@[jj].id() == ns[y].key.id();
                        assert(fin_cur[y] >= 0);
                        assert(y != u as int);
                    } else {
                        assert(fin_cur[x] >= 0);
                        assert(0 <= fin_cur[y] < fin_cur[x]);
                        if y == u as int {
                            assert(false);
                        }
                    }
                }
                assert forall|x: int| 0 <= x < fin.len() && #[trigger] fin[x] >= 0 implies fin_out[x] == fin[x] by {
                    assert(fin_cur[x] == fin[x]);
                    if x == u as int {
                        assert(v0[u as int]);
                    }
                }
            }
        }
    }
    (result, Ghost(fin_out), Ghost(clock_out))
}

/// Finishing times decrease along dependency links, so following links never returns to
/// where it started.
proof fn lemma_finished_acyclic(ns: Seq<GraphNode>, fin: Seq<int>, c: Seq<Key>)
    requires
        fin.len() == ns.len(),
        forall|x: int| 0 <= x < ns.len() ==> #[trigger] fin[x] >= 0,
        forall|x: int, y: int|
            0 <= x < ns.len() && 0 <= y < ns.len() && fin[x] >= 0 && #[trigger] dependency_edge(ns, x, y) ==> 0 <= fin[y] < fin[x],
    ensures
        !is_cycle(ns, c),
{
    if is_cycle(ns, c) {
        let n: int = c.len() as int;
        let w = |k: int| choose|i: int| #[trigger] names(ns, i, c[k]) && lists_dependency(ns[i], if k + 1 < n { c[k + 1] } else { c[0] });
        assert forall|k: int| 0 <= k < n implies names(ns, #[trigger] w(k), c[k]) && lists_dependency(ns[w(k)], if k + 1 < n { c[k + 1] } else { c[0] }) by {
            if k + 1 < n {
                assert(cycle_step(ns, c, k));
            }
        }
        assert forall|k: int| 0 <= k < n implies fin[#[trigger] w(k)] > fin[w(if k + 1 < n { k + 1 } else { 0 })] by {
            let next = if k + 1 < n { k + 1 } else { 0 };
            let a = w(k);
            let b = w(next);
            assert(names(ns, a, c[k]));
            assert(names(ns, b, c[next]));
            let jj = choose|jj: int| 0 <= jj < ns[a].dependencies@.len() && #[trigger] ns[a].dependencies@[jj].id() == c[next].id();
            assert(ns[a].dependencies@[jj].id() == ns[b].key.id());
            assert(dependency_edge(ns, a, b));
        }
        lemma_descending(fin, w, n, n - 1);
        assert(fin[w(n - 1)] > fin[w(0)]);
    }
}

/// Along a strictly descending run, the first value exceeds the `k`-th by at least `k`.
proof fn lemma_descending(fin: Seq<int>, w: spec_fn(int) -> int, n: int, k: int)
    requires
        0 <= k < n,
        forall|i: int| 0 <= i < n ==> fin[#[trigger] w(i)] > fin[w(if i + 1 < n { i + 1 } else { 0 })],
    ensures
        fin[w(0)] >= fin[w(k)] + k,
    decreases k,
{
    if k > 0 {
        lemma_descending(fin, w, n, k - 1);
        assert(fin[w(k - 1)] > fin[w(k)]);
    }
}

/// Every dependency cycle met by a depth-first search from each node not yet visited, in
/// node order. When no two nodes share a key, a search that meets no cycle has shown that
/// there is none.
pub fn find_circular_dependencies(nodes: &Vec<GraphNode>) -> (r: Vec<Vec<Key>>)
    ensures
        forall|k: int| 0 <= k < r@.len() ==> is_cycle(nodes@, #[trigger] r@[k]@),
        distinct_keys(nodes@) && r@.len() == 0 ==> forall|c: Seq<Key>| !#[trigger] is_cycle(nodes@, c),
{
    let n = nodes.len();
    let ghost track = distinct_keys(nodes@);
    let mut visited: Vec<bool> = Vec::new();
    let mut i: usize = 0;
    while i < n
        invariant
            0 <= i <= n,
            visited@.len() == i,
            forall|x: int| 0 <= x < i ==> !#[trigger] visited@[x],
        decreases n - i,
    {
        visited.push(false);
        i = i + 1;
    }
    let ghost mut fin: Seq<int> = Seq::new(n as nat, |x: int| -1);
    let ghost mut clock: int = 0;
    proof {
        let empty = Seq::<usize>::empty();
        assert forall|x: int| 0 <= x < n implies (#[trigger] visited@[x] <==> (empty.contains(x as usize) || fin[x] >= 0)) by {}
    }
    let mut chains: Vec<Vec<Key>> = Vec::new();
    let mut k: usize = 0;
    while k < n
        invariant
            0 <= k <= n,
            n == nodes@.len(),
            visited@.len() == n,
            track == distinct_keys(nodes@),
            forall|c: int| 0 <= c < chains@.len() ==> is_cycle(nodes@, #[trigger] chains@[c]@),
            track && chains@.len() == 0 ==> {
                &&& search_state(nodes@, visited@, Seq::<usize>::empty(), fin, clock)
                &&& forall|x: int| 0 <= x < k ==> #[trigger] visited@[x]
            },
        decreases n - k,
    {
        if !visited[k] {
            let mut path: Vec<usize> = Vec::new();
            let ghost t = track && chains@.len() == 0;
            let ghost vb = visited@;
            let (found, Ghost(fin_next), Ghost(clock_next)) = dfs_find_cycle(
                nodes,
                k,
                &mut visited,
                &mut path,
                Ghost(t),
                Ghost(fin),
                Ghost(clock),
            );
            proof {
                if t && found is None {
                    fin = fin_next;
                    clock = clock_next;
                    assert(path@ =~= Seq::<usize>::empty());
                    assert forall|x: int| 0 <= x < k + 1 implies #[trigger] visited@[x] by {
                        if x < k {
                            assert(vb[x]);
                        }
                    }
                }
            }
            match found {
                Some(c) => {
                    chains.push(c);
                    proof {
                        assert(chains@[chains@.len() - 1] == c);
                    }
                },
                None => {},
            }
        }
        k = k + 1;
    }
    proof {
        if track && chains@.len() == 0 {
            assert forall|x: int| 0 <= x < n implies #[trigger] fin[x] >= 0 by {
                assert(visited@[x]);
                assert(!Seq::<usize>::empty().contains(x as usize));
            }
            assert forall|c: Seq<Key>| !#[trigger] is_cycle(nodes@, c) by {
                lemma_finished_acyclic(nodes@, fin, c);
            }
        }
    }
    chains
}

/// Node `v` lies on some dependency cycle.
pub open spec fn on_cycle(ns: Seq<GraphNode>, v: int) -> bool {
    exists|c: Seq<Key>, k: int| #[trigger] is_cycle(ns, c) && 0 <= k < c.len() && #[trigger] c[k].id() == ns[v].key.id()
}

/// The nodes keep their shape and all metadata but the cycle mark, which is only ever set,
/// and only on nodes that lie on a dependency cycle.
pub open spec fn marks_cycles(ns: Seq<GraphNode>, cur: Seq<GraphNode>) -> bool {
    &&& cur.len() == ns.len()
    &&& forall|v: int| 0 <= v < ns.len() ==> {
        let (a, b) = (ns[v], #[trigger] cur[v]);
        &&& same_shape(a, b)
        &&& b.metadata.depth == a.metadata.depth
        &&& b.metadata.reference_count == a.metadata.reference_count
        &&& b.metadata.resolution_cost == a.metadata.resolution_cost
        &&& a.metadata.is_circular ==> b.metadata.is_circular
        &&& b.metadata.is_circular ==> (a.metadata.is_circular || on_cycle(ns, v))
    }
}

/// Marks every node of every dependency cycle that the search finds.
pub fn mark_circular_dependencies(nodes: &mut Vec<GraphNode>)
    ensures
        marks_cycles(old(nodes)@, final(nodes)@),
        distinct_keys(old(nodes)@) && (exists|c: Seq<Key>| #[trigger] is_cycle(old(nodes)@, c)) ==> exists|v: int|
            0 <= v < final(nodes)@.len() && #[trigger] final(nodes)@[v].metadata.is_circular,
{
    let ghost ns = nodes@;
    let chains = find_circular_dependencies(nodes);
    let mut ci: usize = 0;
    while ci < chains.len()
        invariant
            0 <= ci <= chains@.len(),
            forall|k: int| 0 <= k < chains@.len() ==> is_cycle(ns, #[trigger] chains@[k]@),
            marks_cycles(ns, nodes@),
            ci > 0 ==> exists|v: int| 0 <= v < nodes@.len() && #[trigger] nodes@[v].metadata.is_circular,
        decreases chains@.len() - ci,
    {
        let chain = &chains[ci];
        assert(is_cycle(ns, chain@));
        let mut ki: usize = 0;
        while ki < chain.len()
            invariant
                0 <= ki <= chain@.len(),
                is_cycle(ns, chain@),
                marks_cycles(ns, nodes@),
                ci > 0 || ki > 0 ==> exists|v: int| 0 <= v < nodes@.len() && #[trigger] nodes@[v].metadata.is_circular,
            decreases chain@.len() - ki,
        {
            let key = chain[ki];
            proof {
                if ki == 0 {
                    let c = chain@;
                    if c.len() > 1 {
                        assert(cycle_step(ns, c, 0));
                    }
                    let w = choose|i: int| #[trigger] names(ns, i, c[0]) && lists_dependency(ns[i], if c.len() > 1 { c[1] } else { c[0] });
                    assert(nodes@[w].key == ns[w].key);
                }
            }
            match index_of(nodes, &key) {
                Some(i) => {
                    let ghost before = nodes@;
                    nodes[i].metadata.is_circular = true;
                    proof {
                        assert(ns[i as int].key == before[i as int].key);
                        assert(on_cycle(ns, i as int)) by {
                            assert(chain@[ki as int].id() == ns[i as int].key.id());
                        }
                        assert forall|v: int| 0 <= v < ns.len() && v != i as int implies #[trigger] nodes@[v] == before[v] by {}
                        assert(nodes@[i as int].metadata.is_circular);
                    }
                },
                None => {},
            }
            ki = ki + 1;
        }
        ci = ci + 1;
    }
    proof {
        if distinct_keys(ns) && (exists|c: Seq<Key>| #[trigger] is_cycle(ns, c)) {
            let c = choose|c: Seq<Key>| #[trigger] is_cycle(ns, c);
            assert(chains@.len() > 0);
        }
    }
}

/// Every unused service: a node that lists no dependents and has no
/// references, in node order.
pub open spec fn unused_keys(ns: Seq<GraphNode>) -> Seq<Key>
    decreases ns.len(),
{
    if ns.len() == 0 {
        Seq::empty()
    } else {
        let rest = unused_keys(ns.drop_last());
        let n = ns.last();
        if n.dependents@.len() == 0 && n.metadata.reference_count == 0 {
            rest.push(n.key)
        } else {
            rest
        }
    }
}

/// Find services that are never used as dependencies.
pub fn find_unused_services(nodes: &Vec<GraphNode>) -> (r: Vec<Key>)
    ensures
        r@ == unused_keys(nodes@),
{
    let mut out: Vec<Key> = Vec::new();
    let mut i: usize = 0;
    while i < nodes.len()
        invariant
            0 <= i <= nodes@.len(),
            out@ == unused_keys(nodes@.take(i as int)),
        decreases nodes@.len() - i,
    {
        proof {
            assert(nodes@.take(i + 1).drop_last() =~= nodes@.take(i as int));
            assert(nodes@.take(i + 1).last() == nodes@[i as int]);
        }
        if nodes[i].dependents.len() == 0 && nodes[i].metadata.reference_count == 0 {
            out.push(nodes[i].key);
        }
        i = i + 1;
    }
    proof {
        assert(nodes@.take(nodes@.len() as int) =~= nodes@);
    }
    out
}


/// The position of key `k` among the nodes, or -1 when no node carries it.
pub open spec fn key_index(ns: Seq<GraphNode>, k: Key) -> int {
    if exists|i: int| #[trigger] names(ns, i, k) {
        choose|i: int| #[trigger] names(ns, i, k)
    } else {
        -1
    }
}

/// With distinct keys, the node found for a key is its position.
pub proof fn lemma_key_index(ns: Seq<GraphNode>, k: Key, i: int)
    requires
        distinct_keys(ns),
        names(ns, i, k),
    ensures
        key_index(ns, k) == i,
{
    let j = key_index(ns, k);
    assert(names(ns, j, k));
    if j != i {
        assert(ns[i].key.id() != ns[j].key.id());
    }
}

/// The tree line of a key met again below itself.
pub open spec fn circular_line(k: Key, d: nat) -> Seq<char> {
    indent(d) + "└─ "@ + k.spec_display_name()@ + " (circular reference)\n"@
}

/// The tree text below key `k` at depth `d`, with `vis` marking the nodes on the way down:
/// a node met again gives a circular-reference line, a key without a node gives nothing,
/// and a node gives its line followed by the trees of its dependencies one level deeper.
pub open spec fn tree_text(ns: Seq<GraphNode>, k: Key, d: nat, vis: Seq<bool>) -> Seq<char>
    decreases count_false(vis), 0nat,
{
    let i = key_index(ns, k);
    if i < 0 || i >= vis.len() {
        Seq::empty()
    } else if vis[i] {
        circular_line(k, d)
    } else {
        proof {
            lemma_count_false_set(vis, i);
        }
        indent(d) + tree_line(ns[i]) + deps_text(ns, ns[i].dependencies@, d + 1, vis.update(i, true))
    }
}

/// The trees of a list of dependencies, in order.
pub open spec fn deps_text(ns: Seq<GraphNode>, deps: Seq<Key>, d: nat, vis: Seq<bool>) -> Seq<char>
    decreases count_false(vis), deps.len(),
{
    if deps.len() == 0 {
        Seq::empty()
    } else {
        deps_text(ns, deps.drop_last(), d, vis) + tree_text(ns, deps.last(), d, vis)
    }
}

/// Appends the tree text below `key` at `depth`.
pub fn build_tree_string(nodes: &Vec<GraphNode>, key: &Key, depth: usize, visited: &mut Vec<bool>, result: &mut String)
    requires
        distinct_keys(nodes@),
        old(visited)@.len() == nodes@.len(),
        depth + count_false(old(visited)@) <= usize::MAX,
    ensures
        final(visited)@ == old(visited)@,
        final(result)@ == old(result)@ + tree_text(nodes@, *key, depth as nat, old(visited)@),
    decreases count_false(visited@),
{
    let ghost v0 = visited@;
    let ghost r0 = result@;
    match index_of(nodes, key) {
        None => {
            proof {
                if exists|i: int| #[trigger] names(nodes@, i, *key) {
                    let i = choose|i: int| #[trigger] names(nodes@, i, *key);
                    assert(nodes@[i].key.id() != key.id());
                }
                assert(tree_text(nodes@, *key, depth as nat, v0) =~= Seq::<char>::empty());
                assert(result@ =~= r0 + Seq::<char>::empty());
            }
        },
        Some(i) => {
            proof {
                assert(names(nodes@, i as int, *key));
                lemma_key_index(nodes@, *key, i as int);
            }
            if visited[i] {
                push_indent(result, depth);
                push_str(result, "└─ ");
                push_str(result, key.display_name());
                push_str(result, " (circular reference)\n");
                proof {
                    assert(result@ =~= r0 + circular_line(*key, depth as nat));
                }
            } else {
                let node = &nodes[i];
                let tag = match node.descriptor.lifetime {
                    crate::lifetime::Lifetime::Singleton => "S",
                    crate::lifetime::Lifetime::Scoped => "C",
                    crate::lifetime::Lifetime::Transient => "T",
                };
                push_indent(result, depth);
                push_str(result, "└─ ");
                push_str(result, node.key.display_name());
                push_str(result, " [");
                push_str(result, tag);
                push_str(result, "] (depth: ");
                push_decimal(result, node.metadata.depth as u64);
                push_str(result, ", refs: ");
                push_decimal(result, node.metadata.reference_count as u64);
                push_str(result, ")\n");
                let ghost head = result@;
                proof {
                    assert(head =~= r0 + indent(depth as nat) + tree_line(nodes@[i as int]));
                    lemma_count_false_set(visited@, i as int);
                }
                visited.set(i, true);
                let ghost v1 = visited@;
                let deps = &nodes[i].dependencies;
                let m = deps.len();
                let mut j: usize = 0;
                while j < m
                    invariant
                        0 <= j <= m,
                        m == deps@.len(),
                        deps@ == nodes@[i as int].dependencies@,
                        distinct_keys(nodes@),
                        visited@ == v1,
                        v1.len() == nodes@.len(),
                        v0 == old(visited)@,
                        count_false(v1) + 1 == count_false(v0),
                        depth + count_false(v0) <= usize::MAX,
                        result@ == head + deps_text(nodes@, deps@.take(j as int), (depth + 1) as nat, v1),
                    decreases m - j,
                {
                    build_tree_string(nodes, &deps[j], depth + 1, visited, result);
                    proof {
                        assert(deps@.take(j + 1).drop_last() =~= deps@.take(j as int));
                        assert(deps@.take(j + 1).last() == deps@[j as int]);
                    }
                    j = j + 1;
                }
                proof {
                    assert(deps@.take(m as int) =~= deps@);
                }
                visited.set(i, false);
                proof {
                    assert(visited@ =~= v0);
                }
            }
        },
    }
}


/// Total number of listed dependencies.
pub open spec fn dependency_total(ns: Seq<GraphNode>) -> nat
    decreases ns.len(),
{
    if ns.len() == 0 {
        0
    } else {
        dependency_total(ns.drop_last()) + ns.last().dependencies@.len()
    }
}

/// Sum of the depths.
pub open spec fn depth_total(ns: Seq<GraphNode>) -> nat
    decreases ns.len(),
{
    if ns.len() == 0 {
        0
    } else {
        depth_total(ns.drop_last()) + ns.last().metadata.depth as nat
    }
}

/// Largest depth, 0 for no nodes.
pub open spec fn depth_max(ns: Seq<GraphNode>) -> nat
    decreases ns.len(),
{
    if ns.len() == 0 {
        0
    } else {
        let rest = depth_max(ns.drop_last());
        if ns.last().metadata.depth > rest {
            ns.last().metadata.depth as nat
        } else {
            rest
        }
    }
}

/// Keys of the nodes without dependencies, in node order.
pub open spec fn leaf_keys(ns: Seq<GraphNode>) -> Seq<Key>
    decreases ns.len(),
{
    if ns.len() == 0 {
        Seq::empty()
    } else {
        let rest = leaf_keys(ns.drop_last());
        if ns.last().dependencies@.len() == 0 {
            rest.push(ns.last().key)
        } else {
            rest
        }
    }
}

/// More dependencies than this make a service a potential bottleneck.
pub const HIGH_DEPENDENCY_THRESHOLD: usize = 5;

/// Keys and dependency counts of the nodes with more dependencies than the threshold, in
/// node order.
pub open spec fn high_dependency_keys(ns: Seq<GraphNode>) -> Seq<(Key, usize)>
    decreases ns.len(),
{
    if ns.len() == 0 {
        Seq::empty()
    } else {
        let rest = high_dependency_keys(ns.drop_last());
        let n = ns.last();
        if n.dependencies@.len() > HIGH_DEPENDENCY_THRESHOLD {
            rest.push((n.key, n.dependencies@.len() as usize))
        } else {
            rest
        }
    }
}

/// Analysis results for a dependency graph. The average depth is `total_depth` over
/// `service_count`.
pub struct GraphAnalysis {
    /// Total number of services
    pub service_count: usize,
    /// Total number of dependencies
    pub dependency_count: usize,
    /// Maximum dependency depth
    pub max_depth: usize,
    /// Sum of the depths of all services
    pub total_depth: usize,
    /// Services with no dependencies (leaf nodes)
    pub leaf_services: Vec<Key>,
    /// Services with many dependencies (potential bottlenecks)
    pub high_dependency_services: Vec<(Key, usize)>,
    /// Circular dependency chains found
    pub circular_dependencies: Vec<Vec<Key>>,
    /// Services that are never used
    pub unused_services: Vec<Key>,
}

/// Analyzes a list of nodes.
pub fn analyze_nodes(nodes: &Vec<GraphNode>) -> (a: GraphAnalysis)
    requires
        dependency_total(nodes@) <= usize::MAX,
        depth_total(nodes@) <= usize::MAX,
    ensures
        a.service_count == nodes@.len(),
        a.dependency_count == dependency_total(nodes@),
        a.max_depth == depth_max(nodes@),
        a.total_depth == depth_total(nodes@),
        a.leaf_services@ == leaf_keys(nodes@),
        a.high_dependency_services@ == high_dependency_keys(nodes@),
        forall|k: int| 0 <= k < a.circular_dependencies@.len() ==> is_cycle(nodes@, #[trigger] a.circular_dependencies@[k]@),
        distinct_keys(nodes@) ==> (a.circular_dependencies@.len() == 0 <==> forall|c: Seq<Key>| !#[trigger] is_cycle(nodes@, c)),
        a.unused_services@ == unused_keys(nodes@),
{
    let mut dependency_count: usize = 0;
    let mut total_depth: usize = 0;
    let mut max_depth: usize = 0;
    let mut leaves: Vec<Key> = Vec::new();
    let mut high: Vec<(Key, usize)> = Vec::new();
    let mut i: usize = 0;
    while i < nodes.len()
        invariant
            0 <= i <= nodes@.len(),
            dependency_total(nodes@) <= usize::MAX,
            depth_total(nodes@) <= usize::MAX,
            dependency_count == dependency_total(nodes@.take(i as int)),
            total_depth == depth_total(nodes@.take(i as int)),
            max_depth == depth_max(nodes@.take(i as int)),
            leaves@ == leaf_keys(nodes@.take(i as int)),
            high@ == high_dependency_keys(nodes@.take(i as int)),
        decreases nodes@.len() - i,
    {
        proof {
            assert(nodes@.take(i + 1).drop_last() =~= nodes@.take(i as int));
            assert(nodes@.take(i + 1).last() == nodes@[i as int]);
            lemma_totals_prefix(nodes@, i + 1);
        }
        let node = &nodes[i];
        let deps = node.dependencies.len();
        dependency_count = dependency_count + deps;
        total_depth = total_depth + node.metadata.depth;
        if node.metadata.depth > max_depth {
            max_depth = node.metadata.depth;
        }
        if deps == 0 {
            leaves.push(node.key);
        }
        if deps > HIGH_DEPENDENCY_THRESHOLD {
            high.push((node.key, deps));
        }
        i = i + 1;
    }
    proof {
        assert(nodes@.take(nodes@.len() as int) =~= nodes@);
    }
    let circular = find_circular_dependencies(nodes);
    proof {
        if circular@.len() > 0 {
            assert(is_cycle(nodes@, circular@[0]@));
        }
    }
    let unused = find_unused_services(nodes);
    GraphAnalysis {
        service_count: nodes.len(),
        dependency_count,
        max_depth,
        total_depth,
        leaf_services: leaves,
        high_dependency_services: high,
        circular_dependencies: circular,
        unused_services: unused,
    }
}

/// The totals of a prefix do not exceed those of the whole.
proof fn lemma_totals_prefix(ns: Seq<GraphNode>, k: int)
    requires
        0 <= k <= ns.len(),
    ensures
        dependency_total(ns.take(k)) <= dependency_total(ns),
        depth_total(ns.take(k)) <= depth_total(ns),
    decreases ns.len(),
{
    if k < ns.len() {
        assert(ns.drop_last().take(k) =~= ns.take(k));
        lemma_totals_prefix(ns.drop_last(), k);
    } else {
        assert(ns.take(k) =~= ns);
    }
}

} // verus!
