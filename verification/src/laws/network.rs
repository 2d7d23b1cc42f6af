//! What is learned of the network and forgotten, and which routes are found in it.

use crate::action::{ActionView, Delivery};
use crate::graph::{follows, path_joins, typed_by, GraphView};
use crate::node::{announced, law_flood_asks_each_neighbour_once, NodeView};
use crate::packet::{FloodRequestView, HeaderView, NodeId, NodeType, PacketTypeView, PacketView};
use crate::route::{find_route, is_best_route, is_route, is_walk, joined};
use vstd::prelude::*;

verus! {

/// A path that was reported joins exactly the nodes that follow each other on it, both ways, and
/// takes no edge away.
pub proof fn law_path_joins_its_neighbours(
    graph: GraphView,
    trace: Seq<(NodeId, NodeType)>,
    a: NodeId,
    b: NodeId,
)
    ensures
        graph.with_path(trace).edges.contains((a, b)) <==> graph.edges.contains((a, b)) || exists|
            i: int,
            j: int,
        |
            0 <= i < trace.len() && 0 <= j < trace.len() && (j == i + 1 || i == j + 1) && (
            #[trigger] trace[i]).0 == a && (#[trigger] trace[j]).0 == b,
{
    if path_joins(trace, a, b) {
        let i = choose|i: int| 0 <= i < trace.len() - 1 && #[trigger] follows(trace, i, a, b);
        assert(trace[i].0 == a && trace[i + 1].0 == b);
    }
    if path_joins(trace, b, a) {
        let i = choose|i: int| 0 <= i < trace.len() - 1 && #[trigger] follows(trace, i, b, a);
        assert(trace[i + 1].0 == a && trace[i].0 == b);
    }
    if exists|i: int, j: int|
        0 <= i < trace.len() && 0 <= j < trace.len() && (j == i + 1 || i == j + 1) && (
        #[trigger] trace[i]).0 == a && (#[trigger] trace[j]).0 == b {
        let (i, j) = choose|i: int, j: int|
            0 <= i < trace.len() && 0 <= j < trace.len() && (j == i + 1 || i == j + 1) && (
            #[trigger] trace[i]).0 == a && (#[trigger] trace[j]).0 == b;
        if j == i + 1 {
            assert(follows(trace, i, a, b));
        } else {
            assert(follows(trace, j, b, a));
        }
    }
}

/// After a path was reported, a node on it has the type of its last place on the path, and a node
/// that is not on it is what it was.
pub proof fn law_path_types_its_nodes(
    graph: GraphView,
    trace: Seq<(NodeId, NodeType)>,
    node: NodeId,
)
    ensures
        ({
            let after = graph.with_path(trace).types;
            &&& forall|i: int|
                0 <= i < trace.len() && (#[trigger] trace[i]).0 == node && (forall|j: int|
                    i < j < trace.len() ==> (#[trigger] trace[j]).0 != node)
                    ==> after.contains_key(node) && after[node] == trace[i].1
            &&& (forall|i: int| 0 <= i < trace.len() ==> (#[trigger] trace[i]).0 != node) ==> {
                &&& after.contains_key(node) == graph.types.contains_key(node)
                &&& graph.types.contains_key(node) ==> after[node] == graph.types[node]
            }
        }),
{
    lemma_typed_by_last(graph.types, trace, node);
}

proof fn lemma_typed_by_last(
    types: Map<NodeId, NodeType>,
    trace: Seq<(NodeId, NodeType)>,
    node: NodeId,
)
    ensures
        forall|i: int|
            0 <= i < trace.len() && (#[trigger] trace[i]).0 == node && (forall|j: int|
                i < j < trace.len() ==> (#[trigger] trace[j]).0 != node) ==> typed_by(
                types,
                trace,
            ).contains_key(node) && typed_by(types, trace)[node] == trace[i].1,
        (forall|i: int| 0 <= i < trace.len() ==> (#[trigger] trace[i]).0 != node) ==> {
            &&& typed_by(types, trace).contains_key(node) == types.contains_key(node)
            &&& types.contains_key(node) ==> typed_by(types, trace)[node] == types[node]
        },
    decreases trace.len(),
{
    if trace.len() > 0 {
        let fewer = trace.drop_last();
        let last = trace.len() - 1;
        lemma_typed_by_last(types, fewer, node);
        assert(trace.last() == trace[last]);
        assert forall|i: int|
            0 <= i < trace.len() && (#[trigger] trace[i]).0 == node && (forall|j: int|
                i < j < trace.len() ==> (#[trigger] trace[j]).0 != node) implies typed_by(
            types,
            trace,
        ).contains_key(node) && typed_by(types, trace)[node] == trace[i].1 by {
            if i < last {
                assert(trace[last].0 != node);
                assert(fewer[i] == trace[i]);
                assert forall|j: int| i < j < fewer.len() implies (#[trigger] fewer[j]).0
                    != node by {
                    assert(fewer[j] == trace[j]);
                }
            }
        }
        if forall|i: int| 0 <= i < trace.len() ==> (#[trigger] trace[i]).0 != node {
            assert forall|i: int| 0 <= i < fewer.len() implies (#[trigger] fewer[i]).0 != node by {
                assert(fewer[i] == trace[i]);
            }
            assert(trace[last].0 != node);
        }
    }
}

/// Forgetting a node takes away exactly the edges at it, and its type.
pub proof fn law_node_is_forgotten(
    graph: GraphView,
    node: NodeId,
    a: NodeId,
    b: NodeId,
)
    ensures
        graph.without_node(node).edges.contains((a, b)) <==> graph.edges.contains((a, b)) && a
            != node && b != node,
        !graph.without_node(node).types.contains_key(node),
        a != node ==> graph.without_node(node).types.contains_key(a)
            == graph.types.contains_key(a),
        a != node && graph.types.contains_key(a) ==> graph.without_node(node).types[a]
            == graph.types[a],
{
}

/// A server that knows nothing knows no edge and no type.
pub proof fn law_nothing_is_known(a: NodeId, b: NodeId)
    ensures
        !GraphView::unknown().edges.contains((a, b)),
        !GraphView::unknown().types.contains_key(a),
{
}

/// A detour takes exactly the known edges, in either direction, that enter no excluded node.
pub proof fn law_detour_edges(graph: GraphView, excluded: Set<NodeId>, a: NodeId, b: NodeId)
    ensures
        graph.detours(excluded).contains((a, b)) <==> (graph.edges.contains((a, b))
            || graph.edges.contains((b, a))) && !excluded.contains(b),
{
}

/// A relayed route takes exactly the given edges that enter a node known as a drone, or the
/// target if its type is known.
pub proof fn law_relayed_edges(
    graph: GraphView,
    edges: Set<(NodeId, NodeId)>,
    target: NodeId,
    a: NodeId,
    b: NodeId,
)
    ensures
        graph.relayed(edges, target).contains((a, b)) <==> edges.contains((a, b))
            && graph.types.contains_key(b) && (graph.types[b] == NodeType::Drone || b == target),
{
}

/// What a search finds begins and ends where it should and follows edges, and no other sequence
/// of nodes that does so is shorter; where nothing is found, no sequence of nodes does so.
pub proof fn law_search_finds_the_shortest(
    edges: Set<(NodeId, NodeId)>,
    found: Option<Seq<NodeId>>,
    from: NodeId,
    to: NodeId,
    other: Seq<NodeId>,
)
    requires
        is_best_route(edges, found, from, to),
    ensures
        found matches Some(path) ==> {
            &&& path.len() > 0
            &&& path[0] == from
            &&& path[path.len() - 1] == to
            &&& forall|i: int, j: int|
                0 <= i && j == i + 1 && j < path.len() ==> edges.contains(
                    (#[trigger] path[i], #[trigger] path[j]),
                )
        },
        other.len() > 0 && other[0] == from && other[other.len() - 1] == to && (forall|
            i: int,
            j: int,
        |
            0 <= i && j == i + 1 && j < other.len() ==> edges.contains(
                (#[trigger] other[i], #[trigger] other[j]),
            )) ==> found is Some && found->0.len() <= other.len(),
{
    if found is Some {
        let path = found->0;
        assert forall|i: int, j: int| 0 <= i && j == i + 1 && j < path.len() implies edges.contains(
            (#[trigger] path[i], #[trigger] path[j]),
        ) by {
            assert(joined(edges, path, i));
        }
    }
    if other.len() > 0 && other[0] == from && other[other.len() - 1] == to && (forall|
        i: int,
        j: int,
    |
        0 <= i && j == i + 1 && j < other.len() ==> edges.contains(
            (#[trigger] other[i], #[trigger] other[j]),
        )) {
        assert forall|i: int| 0 <= i < other.len() - 1 implies #[trigger] joined(
            edges,
            other,
            i,
        ) by {
            assert(edges.contains((other[i], other[i + 1])));
        }
        assert(is_walk(edges, other));
        assert(is_route(edges, other, from, to));
    }
}

/// The route that is announced for a message is a best one, and empty where there is none.
pub proof fn law_announced_route_is_best(
    edges: Set<(NodeId, NodeId)>,
    route: Seq<NodeId>,
    from: NodeId,
    to: NodeId,
)
    requires
        announced(edges, route, from, to),
    ensures
        is_best_route(
            edges,
            if route.len() == 0 {
                None
            } else {
                Some(route)
            },
            from,
            to,
        ),
{
}

/// `find_route` finds a best route over the edges that it is given.
pub proof fn law_find_route(
    edges: &Vec<(NodeId, NodeId)>,
    from: NodeId,
    to: NodeId,
    res: Option<Vec<NodeId>>,
)
    requires
        call_ensures(find_route, (edges, from, to), res),
    ensures
        is_best_route(
            edges@.to_set(),
            match res {
                Some(path) => Some(path@),
                None => None,
            },
            from,
            to,
        ),
{
}

/// Looking at the network sends each neighbour one request for paths that begins at the server,
/// and does nothing else.
pub proof fn law_flood_requests(node: NodeView, flood_id: u64, actions: Seq<ActionView>)
    requires
        node.floods(flood_id, actions),
    ensures
        actions.no_duplicates(),
        forall|action: ActionView| #[trigger]
            actions.contains(action) <==> exists|to: NodeId| #[trigger]
                node.neighbours.contains(to) && action == (ActionView::Send {
                    to,
                    packet: PacketView {
                        pack_type: PacketTypeView::FloodRequest(
                            FloodRequestView {
                                flood_id,
                                initiator_id: node.id,
                                path_trace: seq![(node.id, NodeType::Server)],
                            },
                        ),
                        routing_header: HeaderView { hop_index: 0, hops: seq![node.id, to] },
                        session_id: flood_id,
                    },
                    delivery: Delivery::BestEffort,
                }),
{
    law_flood_asks_each_neighbour_once(node, flood_id, actions);
    assert forall|action: ActionView| #[trigger] actions.contains(action) <==> exists|to: NodeId|
        #[trigger] node.neighbours.contains(to) && action == (ActionView::Send {
            to,
            packet: PacketView {
                pack_type: PacketTypeView::FloodRequest(
                    FloodRequestView {
                        flood_id,
                        initiator_id: node.id,
                        path_trace: seq![(node.id, NodeType::Server)],
                    },
                ),
                routing_header: HeaderView { hop_index: 0, hops: seq![node.id, to] },
                session_id: flood_id,
            },
            delivery: Delivery::BestEffort,
        }) by {
        if actions.contains(action) {
            assert(node.neighbours.contains(action->to));
        }
    }
}

} // verus!
