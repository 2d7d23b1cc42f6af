//! What a server knows of the network: its edges and the types of its nodes.

use crate::packet::{NodeId, NodeType};
use crate::route::{
    is_route, is_shortest_route, joined, law_shortest_route_is_simple, reachable,
};
use std::collections::{HashMap, HashSet};
use vstd::prelude::*;

verus! {

broadcast use vstd::std_specs::hash::group_hash_axioms;

/// The known part of the network. No edge is held twice, every edge goes both ways, and the types
/// of both its ends are known.
pub struct NetworkGraph {
    topology: Vec<(NodeId, NodeId)>,
    node_types: HashMap<NodeId, NodeType>,
}

/// The model of a [`NetworkGraph`].
#[verifier::ext_equal]
pub struct GraphView {
    pub edges: Set<(NodeId, NodeId)>,
    pub types: Map<NodeId, NodeType>,
}

/// The edges between neighbours of a path, in both directions.
pub open spec fn path_edges(trace: Seq<(NodeId, NodeType)>) -> Set<(NodeId, NodeId)> {
    Set::new(|e: (NodeId, NodeId)| path_joins(trace, e.0, e.1) || path_joins(trace, e.1, e.0))
}

/// Somewhere on the path the one node is followed by the other.
pub open spec fn path_joins(trace: Seq<(NodeId, NodeType)>, a: NodeId, b: NodeId) -> bool {
    exists|i: int| 0 <= i < trace.len() - 1 && #[trigger] follows(trace, i, a, b)
}

/// The nodes at `i` and after it.
pub open spec fn follows(trace: Seq<(NodeId, NodeType)>, i: int, a: NodeId, b: NodeId) -> bool {
    trace[i].0 == a && trace[i + 1].0 == b
}

/// Node types, overwritten by those on a path; the later entry on the path wins.
pub open spec fn typed_by(
    types: Map<NodeId, NodeType>,
    trace: Seq<(NodeId, NodeType)>,
) -> Map<NodeId, NodeType>
    decreases trace.len(),
{
    if trace.len() == 0 {
        types
    } else {
        typed_by(types, trace.drop_last()).insert(trace.last().0, trace.last().1)
    }
}

impl GraphView {
    /// Nothing is known.
    pub open spec fn unknown() -> GraphView {
        GraphView { edges: Set::empty(), types: Map::empty() }
    }

    /// A path was reported.
    pub open spec fn with_path(self, trace: Seq<(NodeId, NodeType)>) -> GraphView {
        GraphView {
            edges: self.edges.union(path_edges(trace)),
            types: typed_by(self.types, trace),
        }
    }

    /// A node is gone, with every edge at it.
    pub open spec fn without_node(self, node: NodeId) -> GraphView {
        GraphView {
            edges: self.edges.filter(|e: (NodeId, NodeId)| e.0 != node && e.1 != node),
            types: self.types.remove(node),
        }
    }

    /// The edges, taken in either direction, that lead to a node which is not excluded.
    pub open spec fn detours(self, excluded: Set<NodeId>) -> Set<(NodeId, NodeId)> {
        Set::new(
            |e: (NodeId, NodeId)|
                (self.edges.contains(e) || self.edges.contains((e.1, e.0)))
                    && !excluded.contains(e.1),
        )
    }

    /// A route to the target may enter this node: its type is known, and it is a drone or
    /// the target itself.
    pub open spec fn relays(self, node: NodeId, target: NodeId) -> bool {
        self.types.contains_key(node) && (self.types[node] == NodeType::Drone || node == target)
    }

    /// Those of the given edges that a route to the target may take.
    pub open spec fn relayed(self, edges: Set<(NodeId, NodeId)>, target: NodeId) -> Set<
        (NodeId, NodeId),
    > {
        edges.filter(|e: (NodeId, NodeId)| self.relays(e.1, target))
    }
}

impl View for NetworkGraph {
    type V = GraphView;

    closed spec fn view(&self) -> GraphView {
        GraphView { edges: self.topology@.to_set(), types: self.node_types@ }
    }
}

impl Clone for NetworkGraph {
    fn clone(&self) -> (res: Self)
        ensures
            res@ == self@,
            self.wf() ==> res.wf(),
    {
        let mut topology: Vec<(NodeId, NodeId)> = Vec::new();
        let mut i: usize = 0;
        while i < self.topology.len()
            invariant
                i <= self.topology@.len(),
                topology@ == self.topology@.take(i as int),
            decreases self.topology.len() - i,
        {
            topology.push(self.topology[i]);
            assert(self.topology@.take(i + 1) =~= self.topology@.take(i as int).push(
                self.topology@[i as int],
            ));
            i = i + 1;
        }
        assert(self.topology@.take(self.topology@.len() as int) =~= self.topology@);
        NetworkGraph { topology, node_types: self.node_types.clone() }
    }
}

impl NetworkGraph {
    /// No edge is held twice, every edge goes both ways, and the types of both its ends are
    /// known.
    pub closed spec fn wf(&self) -> bool {
        self.topology@.no_duplicates() && bidirectional(self@) && ends_typed(self@)
    }

    pub fn new() -> (res: NetworkGraph)
        ensures
            res.wf(),
            res@ == GraphView::unknown(),
    {
        let res = NetworkGraph { topology: Vec::new(), node_types: HashMap::new() };
        assert(res@.edges =~= Set::empty());
        res
    }

    fn has_edge(&self, a: NodeId, b: NodeId) -> (res: bool)
        ensures
            res == self@.edges.contains((a, b)),
    {
        let mut i: usize = 0;
        while i < self.topology.len()
            invariant
                i <= self.topology@.len(),
                forall|j: int| 0 <= j < i ==> self.topology@[j] != (a, b),
            decreases self.topology.len() - i,
        {
            let (x, y) = self.topology[i];
            if x == a && y == b {
                assert(self.topology@.contains(self.topology@[i as int]));
                return true;
            }
            i = i + 1;
        }
        false
    }

    fn add_edge(&mut self, a: NodeId, b: NodeId)
        requires
            old(self).topology@.no_duplicates(),
        ensures
            final(self).topology@.no_duplicates(),
            final(self)@ == (GraphView { edges: old(self)@.edges.insert((a, b)), ..old(self)@ }),
    {
        let ghost before = self.topology@;
        if !self.has_edge(a, b) {
            self.topology.push((a, b));
            proof {
                before.lemma_push_to_set_commute((a, b));
            }
        }
        assert(self@.edges =~= before.to_set().insert((a, b)));
    }

    /// Learns from a path: neighbours on it are joined in both directions, and every node on
    /// it has the type that the path gives it.
    pub fn update(&mut self, trace: &Vec<(NodeId, NodeType)>)
        requires
            old(self).wf(),
            trace@.len() > 0,
        ensures
            final(self).wf(),
            final(self)@ == old(self)@.with_path(trace@),
    {
        let ghost before = self@;
        let mut i: usize = 0;
        while i < trace.len() - 1
            invariant
                0 < trace@.len(),
                i <= trace@.len() - 1,
                self.topology@.no_duplicates(),
                self@.types == before.types,
                self@.edges == before.edges.union(path_edges(trace@.take(i + 1))),
            decreases trace.len() - i,
        {
            let a = trace[i].0;
            let b = trace[i + 1].0;
            self.add_edge(a, b);
            self.add_edge(b, a);
            proof {
                lemma_longer_path(trace@, i as int);
                assert(self@.edges =~= before.edges.union(path_edges(trace@.take(i + 2))));
            }
            i = i + 1;
        }
        proof {
            assert(trace@.take(trace@.len() as int) =~= trace@);
        }
        let mut i: usize = 0;
        while i < trace.len()
            invariant
                i <= trace@.len(),
                self.topology@.no_duplicates(),
                self@.edges == before.edges.union(path_edges(trace@)),
                self@.types == typed_by(before.types, trace@.take(i as int)),
            decreases trace.len() - i,
        {
            let (node, node_type) = trace[i];
            self.node_types.insert(node, node_type);
            assert(trace@.take(i + 1).drop_last() =~= trace@.take(i as int));
            i = i + 1;
        }
        proof {
            assert(trace@.take(trace@.len() as int) =~= trace@);
            law_edge_ends_are_typed(before, trace@, 0);
        }
    }

    /// Forgets a node and every edge at it.
    pub fn remove_node(&mut self, node: NodeId)
        requires
            old(self).wf(),
        ensures
            final(self).wf(),
            final(self)@ == old(self)@.without_node(node),
    {
        let ghost before = self.topology@;
        let mut kept: Vec<(NodeId, NodeId)> = Vec::new();
        let mut i: usize = 0;
        while i < self.topology.len()
            invariant
                i <= self.topology@.len(),
                self.topology@ == before,
                self.node_types@ == old(self).node_types@,
                before.no_duplicates(),
                kept@.no_duplicates(),
                forall|e: (NodeId, NodeId)| #[trigger]
                    kept@.contains(e) <==> before.take(i as int).contains(e) && e.0 != node && e.1
                        != node,
            decreases self.topology.len() - i,
        {
            let (a, b) = self.topology[i];
            let ghost old_kept = kept@;
            proof {
                assert(before.take(i + 1) =~= before.take(i as int).push((a, b)));
                assert(!before.take(i as int).contains((a, b)));
                assert(!old_kept.contains((a, b)));
            }
            if a != node && b != node {
                kept.push((a, b));
            }
            proof {
                lemma_push_contains(before.take(i as int), (a, b));
                lemma_push_contains(old_kept, (a, b));
            }
            i = i + 1;
        }
        self.topology = kept;
        self.node_types.remove(&node);
        proof {
            assert(before.take(before.len() as int) =~= before);
            assert forall|e: (NodeId, NodeId)| #[trigger]
                self@.edges.contains(e) <==> old(self)@.without_node(node).edges.contains(e) by {
                assert(kept@.contains(e) <==> before.contains(e) && e.0 != node && e.1 != node);
            }
            assert(self@.edges =~= old(self)@.without_node(node).edges);
        }
    }

    /// Forgets everything.
    pub fn clear(&mut self)
        ensures
            final(self).wf(),
            final(self)@ == GraphView::unknown(),
    {
        self.topology.clear();
        self.node_types.clear();
        assert(self@.edges =~= Set::empty());
    }

    /// The known edges.
    pub fn edges(&self) -> (res: &Vec<(NodeId, NodeId)>)
        ensures
            res@.to_set() == self@.edges,
    {
        &self.topology
    }

    /// The edges, taken in either direction, that lead to a node which is not excluded.
    pub fn detours(&self, excluded: &HashSet<NodeId>) -> (res: Vec<(NodeId, NodeId)>)
        ensures
            res@.to_set() == self@.detours(excluded@),
    {
        let ghost all = self.topology@;
        let mut res: Vec<(NodeId, NodeId)> = Vec::new();
        let mut i: usize = 0;
        while i < self.topology.len()
            invariant
                i <= self.topology@.len(),
                self.topology@ == all,
                forall|e: (NodeId, NodeId)| #[trigger]
                    res@.contains(e) <==> (all.take(i as int).contains(e) || all.take(
                        i as int,
                    ).contains((e.1, e.0))) && !excluded@.contains(e.1),
            decreases self.topology.len() - i,
        {
            let (a, b) = self.topology[i];
            let ghost r0 = res@;
            if !excluded.contains(&b) {
                res.push((a, b));
            }
            let ghost r1 = res@;
            if !excluded.contains(&a) {
                res.push((b, a));
            }
            proof {
                assert(all.take(i + 1) =~= all.take(i as int).push((a, b)));
                lemma_push_contains(all.take(i as int), (a, b));
                lemma_push_contains(r0, (a, b));
                lemma_push_contains(r1, (b, a));
            }
            i = i + 1;
        }
        proof {
            assert(all.take(all.len() as int) =~= all);
            assert(res@.to_set() =~= self@.detours(excluded@)) by {
                assert forall|e: (NodeId, NodeId)| #[trigger]
                    res@.to_set().contains(e) <==> self@.detours(excluded@).contains(e) by {
                    assert(res@.to_set().contains(e) <==> res@.contains(e));
                    assert(all.to_set().contains((e.1, e.0)) <==> all.contains((e.1, e.0)));
                }
            }
        }
        res
    }

    /// Those of the given edges that a route to the target may take.
    pub fn relayed(&self, edges: &Vec<(NodeId, NodeId)>, target: NodeId) -> (res: Vec<
        (NodeId, NodeId),
    >)
        ensures
            res@.to_set() == self@.relayed(edges@.to_set(), target),
    {
        let mut res: Vec<(NodeId, NodeId)> = Vec::new();
        let mut i: usize = 0;
        while i < edges.len()
            invariant
                i <= edges@.len(),
                forall|e: (NodeId, NodeId)| #[trigger]
                    res@.contains(e) <==> edges@.take(i as int).contains(e) && self@.relays(
                        e.1,
                        target,
                    ),
            decreases edges.len() - i,
        {
            let (a, b) = edges[i];
            let ghost r0 = res@;
            let usable = match self.node_types.get(&b) {
                Some(node_type) => *node_type == NodeType::Drone || b == target,
                None => false,
            };
            if usable {
                res.push((a, b));
            }
            proof {
                assert(edges@.take(i + 1) =~= edges@.take(i as int).push((a, b)));
                lemma_push_contains(edges@.take(i as int), (a, b));
                lemma_push_contains(r0, (a, b));
            }
            i = i + 1;
        }
        proof {
            assert(edges@.take(edges@.len() as int) =~= edges@);
            assert(res@.to_set() =~= self@.relayed(edges@.to_set(), target)) by {
                assert forall|e: (NodeId, NodeId)| #[trigger]
                    res@.to_set().contains(e) <==> self@.relayed(
                        edges@.to_set(),
                        target,
                    ).contains(e) by {
                    assert(res@.to_set().contains(e) <==> res@.contains(e));
                }
            }
        }
        res
    }
}

/// Every edge can be taken in both directions.
pub open spec fn bidirectional(graph: GraphView) -> bool {
    forall|a: NodeId, b: NodeId| #[trigger]
        graph.edges.contains((a, b)) ==> graph.edges.contains((b, a))
}

/// Whatever a server learns of the network or forgets, every edge that it knows can be taken in
/// both directions.
pub proof fn law_edges_are_bidirectional(
    graph: GraphView,
    trace: Seq<(NodeId, NodeType)>,
    node: NodeId,
)
    requires
        bidirectional(graph),
    ensures
        bidirectional(GraphView::unknown()),
        bidirectional(graph.with_path(trace)),
        bidirectional(graph.without_node(node)),
{
}

/// The types of both ends of every edge are known.
pub open spec fn ends_typed(graph: GraphView) -> bool {
    forall|a: NodeId, b: NodeId| #[trigger]
        graph.edges.contains((a, b)) ==> graph.types.contains_key(a) && graph.types.contains_key(b)
}

/// A path gives a type to each of its nodes and takes none away.
proof fn lemma_types_on_path(types: Map<NodeId, NodeType>, trace: Seq<(NodeId, NodeType)>)
    ensures
        forall|node: NodeId| #[trigger]
            types.contains_key(node) ==> typed_by(types, trace).contains_key(node),
        forall|i: int|
            0 <= i < trace.len() ==> typed_by(types, trace).contains_key((#[trigger] trace[i]).0),
    decreases trace.len(),
{
    if trace.len() > 0 {
        let fewer = trace.drop_last();
        lemma_types_on_path(types, fewer);
        assert forall|i: int| 0 <= i < trace.len() implies typed_by(types, trace).contains_key(
            (#[trigger] trace[i]).0,
        ) by {
            if i < fewer.len() {
                assert(fewer[i] == trace[i]);
            }
        }
    }
}

/// Whatever a server learns of the network or forgets, the types of both ends of every edge that
/// it knows are known.
pub proof fn law_edge_ends_are_typed(
    graph: GraphView,
    trace: Seq<(NodeId, NodeType)>,
    node: NodeId,
)
    requires
        ends_typed(graph),
    ensures
        ends_typed(GraphView::unknown()),
        ends_typed(graph.with_path(trace)),
        ends_typed(graph.without_node(node)),
{
    let after = graph.with_path(trace);
    lemma_types_on_path(graph.types, trace);
    assert forall|a: NodeId, b: NodeId| #[trigger] after.edges.contains((a, b)) implies {
        after.types.contains_key(a) && after.types.contains_key(b)
    } by {
        if path_joins(trace, a, b) {
            let i = choose|i: int| 0 <= i < trace.len() - 1 && #[trigger] follows(trace, i, a, b);
            assert(trace[i].0 == a && trace[i + 1].0 == b);
        } else if path_joins(trace, b, a) {
            let i = choose|i: int| 0 <= i < trace.len() - 1 && #[trigger] follows(trace, i, b, a);
            assert(trace[i].0 == b && trace[i + 1].0 == a);
        } else {
            assert(graph.edges.contains((a, b)));
        }
    }
}

/// In every state of a graph, each edge that it holds can be taken in both directions, and the
/// types of both its ends are known.
pub proof fn law_graph_is_bidirectional(graph: NetworkGraph)
    requires
        graph.wf(),
    ensures
        bidirectional(graph@),
        ends_typed(graph@),
{
}

/// A path that was reported can be taken between any two of its nodes.
pub proof fn law_reported_path_is_usable(
    graph: GraphView,
    trace: Seq<(NodeId, NodeType)>,
    i: int,
    j: int,
)
    requires
        0 <= i < trace.len(),
        0 <= j < trace.len(),
    ensures
        reachable(graph.with_path(trace).edges, trace[i].0, trace[j].0),
{
    let edges = graph.with_path(trace).edges;
    if i <= j {
        let path = Seq::new((j - i + 1) as nat, |k: int| trace[i + k].0);
        assert forall|k: int| 0 <= k < path.len() - 1 implies #[trigger] joined(edges, path, k) by {
            assert(follows(trace, i + k, path[k], path[k + 1]));
        }
        assert(is_route(edges, path, trace[i].0, trace[j].0));
    } else {
        let path = Seq::new((i - j + 1) as nat, |k: int| trace[i - k].0);
        assert forall|k: int| 0 <= k < path.len() - 1 implies #[trigger] joined(edges, path, k) by {
            assert(follows(trace, i - k - 1, path[k + 1], path[k]));
        }
        assert(is_route(edges, path, trace[i].0, trace[j].0));
    }
}

/// The path gives no node two types.
pub open spec fn typed_consistently(trace: Seq<(NodeId, NodeType)>) -> bool {
    forall|i: int, j: int|
        0 <= i < trace.len() && 0 <= j < trace.len() && (#[trigger] trace[i]).0 == (
        #[trigger] trace[j]).0 ==> trace[i].1 == trace[j].1
}

proof fn lemma_typed_by(types: Map<NodeId, NodeType>, trace: Seq<(NodeId, NodeType)>, i: int)
    requires
        0 <= i < trace.len(),
        typed_consistently(trace),
    ensures
        typed_by(types, trace).contains_key(trace[i].0),
        typed_by(types, trace)[trace[i].0] == trace[i].1,
    decreases trace.len(),
{
    let fewer = trace.drop_last();
    assert forall|a: int, b: int|
        0 <= a < fewer.len() && 0 <= b < fewer.len() && (#[trigger] fewer[a]).0 == (
        #[trigger] fewer[b]).0 implies fewer[a].1 == fewer[b].1 by {
        assert(trace[a].0 == trace[b].0);
    }
    if i < trace.len() - 1 {
        lemma_typed_by(types, fewer, i);
        assert(trace[i].0 == trace.last().0 ==> trace[i].1 == trace[trace.len() - 1].1);
    }
}

/// A path over drones that was reported can be taken by a route over drones, from its first node
/// to its last.
pub proof fn law_reported_drones_relay(graph: GraphView, trace: Seq<(NodeId, NodeType)>)
    requires
        trace.len() > 0,
        typed_consistently(trace),
        forall|i: int| 0 < i < trace.len() - 1 ==> (#[trigger] trace[i]).1 == NodeType::Drone,
    ensures
        ({
            let after = graph.with_path(trace);
            reachable(
                after.relayed(after.edges, trace.last().0),
                trace[0].0,
                trace.last().0,
            )
        }),
{
    let after = graph.with_path(trace);
    let target = trace.last().0;
    let edges = after.relayed(after.edges, target);
    let path = Seq::new(trace.len(), |k: int| trace[k].0);
    assert forall|k: int| 0 <= k < path.len() - 1 implies #[trigger] joined(edges, path, k) by {
        assert(follows(trace, k, path[k], path[k + 1]));
        assert(after.edges.contains((path[k], path[k + 1])));
        lemma_typed_by(graph.types, trace, k + 1);
        assert(trace[k + 1].0 == path[k + 1]);
    }
    assert(is_route(edges, path, trace[0].0, target));
}

/// No route passes through a node that was forgotten.
pub proof fn law_forgotten_node_is_avoided(
    graph: GraphView,
    node: NodeId,
    path: Seq<NodeId>,
    from: NodeId,
    to: NodeId,
)
    requires
        is_route(graph.without_node(node).edges, path, from, to),
        path.len() > 1,
    ensures
        !path.contains(node),
{
    let edges = graph.without_node(node).edges;
    assert forall|i: int| 0 <= i < path.len() implies path[i] != node by {
        if i < path.len() - 1 {
            assert(joined(edges, path, i));
        } else {
            assert(joined(edges, path, i - 1));
        }
    }
}

/// A detour enters no excluded node.
pub proof fn law_detour_avoids_excluded(
    graph: GraphView,
    excluded: Set<NodeId>,
    path: Seq<NodeId>,
    from: NodeId,
    to: NodeId,
    i: int,
)
    requires
        is_route(graph.detours(excluded), path, from, to),
        0 < i < path.len(),
    ensures
        !excluded.contains(path[i]),
{
    assert(joined(graph.detours(excluded), path, i - 1));
}

/// Between its ends, a shortest route over relayed edges passes only through drones.
pub proof fn law_relayed_route_passes_drones(
    graph: GraphView,
    edges: Set<(NodeId, NodeId)>,
    path: Seq<NodeId>,
    from: NodeId,
    to: NodeId,
    i: int,
)
    requires
        is_shortest_route(graph.relayed(edges, to), path, from, to),
        0 < i < path.len() - 1,
    ensures
        graph.types.contains_key(path[i]),
        graph.types[path[i]] == NodeType::Drone,
{
    law_shortest_route_is_simple(graph.relayed(edges, to), path, from, to);
    assert(joined(graph.relayed(edges, to), path, i - 1));
    assert(path[i] != path[path.len() - 1]);
}

proof fn lemma_push_contains<A>(s: Seq<A>, a: A)
    ensures
        forall|x: A| #[trigger] s.push(a).contains(x) <==> s.contains(x) || x == a,
{
    assert forall|x: A| #[trigger] s.push(a).contains(x) <==> s.contains(x) || x == a by {
        if s.contains(x) {
            let i = s.index_of(x);
            assert(s.push(a)[i] == x);
        }
        if x == a {
            assert(s.push(a)[s.len() as int] == x);
        }
        if s.push(a).contains(x) {
            let i = s.push(a).index_of(x);
            assert(i < s.len() ==> s[i] == x);
        }
    }
}

/// One more node on a path adds the two edges between it and the node before.
proof fn lemma_longer_path(trace: Seq<(NodeId, NodeType)>, i: int)
    requires
        0 <= i < trace.len() - 1,
    ensures
        path_edges(trace.take(i + 2)) == path_edges(trace.take(i + 1)).insert(
            (trace[i].0, trace[i + 1].0),
        ).insert((trace[i + 1].0, trace[i].0)),
{
    let longer = trace.take(i + 2);
    let shorter = trace.take(i + 1);
    assert forall|a: NodeId, b: NodeId| #[trigger]
        path_joins(longer, a, b) <==> path_joins(shorter, a, b) || (a == trace[i].0 && b == trace[i
            + 1].0) by {
        if path_joins(longer, a, b) {
            let j = choose|j: int| 0 <= j < longer.len() - 1 && #[trigger] follows(longer, j, a, b);
            if j < i {
                assert(follows(shorter, j, a, b));
            }
        }
        if path_joins(shorter, a, b) {
            let j = choose|j: int|
                0 <= j < shorter.len() - 1 && #[trigger] follows(shorter, j, a, b);
            assert(follows(longer, j, a, b));
        }
        if a == trace[i].0 && b == trace[i + 1].0 {
            assert(follows(longer, i, a, b));
        }
    }
    assert(path_edges(longer) =~= path_edges(shorter).insert((trace[i].0, trace[i + 1].0)).insert(
        (trace[i + 1].0, trace[i].0),
    ));
}

} // verus!
