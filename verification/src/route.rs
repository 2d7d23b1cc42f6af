//! Shortest routes in a directed graph of nodes.

use crate::packet::NodeId;
use std::collections::{HashMap, HashSet, VecDeque};
use vstd::prelude::*;

verus! {

broadcast use vstd::std_specs::hash::group_hash_axioms;

/// An edge leads from the `i`th node of the path to the next.
pub open spec fn joined(edges: Set<(NodeId, NodeId)>, path: Seq<NodeId>, i: int) -> bool {
    edges.contains((path[i], path[i + 1]))
}

/// An edge leads from each node of the path to the next.
pub open spec fn is_walk(edges: Set<(NodeId, NodeId)>, path: Seq<NodeId>) -> bool {
    &&& path.len() > 0
    &&& forall|i: int| 0 <= i < path.len() - 1 ==> #[trigger] joined(edges, path, i)
}

/// The path leads from one node to the other along edges.
pub open spec fn is_route(
    edges: Set<(NodeId, NodeId)>,
    path: Seq<NodeId>,
    from: NodeId,
    to: NodeId,
) -> bool {
    &&& is_walk(edges, path)
    &&& path[0] == from
    &&& path.last() == to
}

/// Some route leads from one node to the other.
pub open spec fn reachable(edges: Set<(NodeId, NodeId)>, from: NodeId, to: NodeId) -> bool {
    exists|path: Seq<NodeId>| is_route(edges, path, from, to)
}

/// The path leads from one node to the other, and none that does is shorter.
pub open spec fn is_shortest_route(
    edges: Set<(NodeId, NodeId)>,
    path: Seq<NodeId>,
    from: NodeId,
    to: NodeId,
) -> bool {
    &&& is_route(edges, path, from, to)
    &&& forall|other: Seq<NodeId>| #[trigger]
        is_route(edges, other, from, to) ==> path.len() <= other.len()
}

/// What a search for a route finds: a shortest one, or nothing where there is none.
pub open spec fn is_best_route(
    edges: Set<(NodeId, NodeId)>,
    found: Option<Seq<NodeId>>,
    from: NodeId,
    to: NodeId,
) -> bool {
    match found {
        Some(path) => is_shortest_route(edges, path, from, to),
        None => !reachable(edges, from, to),
    }
}

/// A shortest route visits no node twice.
pub proof fn law_shortest_route_is_simple(
    edges: Set<(NodeId, NodeId)>,
    path: Seq<NodeId>,
    from: NodeId,
    to: NodeId,
)
    requires
        is_shortest_route(edges, path, from, to),
    ensures
        path.no_duplicates(),
{
    assert forall|i: int, j: int| 0 <= i < j < path.len() implies path[i] != path[j] by {
        if path[i] == path[j] {
            let cut = path.take(i) + path.skip(j);
            assert forall|k: int| 0 <= k < cut.len() - 1 implies #[trigger] joined(
                edges,
                cut,
                k,
            ) by {
                if k < i {
                    assert(joined(edges, path, k));
                } else {
                    assert(joined(edges, path, k - i + j));
                }
            }
            assert(is_route(edges, cut, from, to));
        }
    }
}

/// The state of a breadth-first search: how far every node that was seen lies from
/// the start, from where it was seen, and which nodes wait to be expanded.
struct Search {
    edges: Set<(NodeId, NodeId)>,
    from: NodeId,
    dist: Map<NodeId, nat>,
    preds: Map<NodeId, NodeId>,
    queue: Seq<NodeId>,
}

impl Search {
    /// Distances and predecessors fit together.
    spec fn tree(self) -> bool {
        &&& self.dist.contains_key(self.from)
        &&& self.dist[self.from] == 0
        &&& !self.preds.contains_key(self.from)
        &&& forall|n: NodeId| #[trigger]
            self.preds.contains_key(n) ==> {
                &&& self.dist.contains_key(self.preds[n])
                &&& self.dist.contains_key(n)
                &&& self.dist[n] == self.dist[self.preds[n]] + 1
                &&& self.edges.contains((self.preds[n], n))
            }
        &&& forall|n: NodeId| #[trigger]
            self.dist.contains_key(n) && n != self.from ==> self.preds.contains_key(n)
    }

    /// The queue holds seen nodes, each once, nearer ones first.
    spec fn ordered(self) -> bool {
        &&& self.queue.no_duplicates()
        &&& forall|i: int|
            0 <= i < self.queue.len() ==> #[trigger] self.dist.contains_key(self.queue[i])
        &&& forall|i: int, j: int|
            0 <= i <= j < self.queue.len() ==> #[trigger] self.dist[self.queue[i]]
                <= #[trigger] self.dist[self.queue[j]]
    }

    /// Seen and no longer waiting.
    spec fn done(self, n: NodeId) -> bool {
        self.dist.contains_key(n) && !self.queue.contains(n)
    }

    /// Every successor of an expanded node was seen, at most one step farther.
    spec fn expanded(self) -> bool {
        forall|x: NodeId, y: NodeId|
            self.done(x) && #[trigger] self.edges.contains((x, y)) ==> self.dist.contains_key(y)
                && self.dist[y] <= self.dist[x] + 1
    }
}

/// A walk from the start that is no longer than the distance of the nearest waiting node
/// ends in a node that was seen, at most as far away as the walk is long.
proof fn lemma_short_walks_are_seen(s: Search, path: Seq<NodeId>)
    requires
        s.tree(),
        s.ordered(),
        s.expanded(),
        is_walk(s.edges, path),
        path[0] == s.from,
        s.queue.len() > 0 ==> path.len() - 1 <= s.dist[s.queue[0]],
    ensures
        s.dist.contains_key(path.last()),
        s.dist[path.last()] <= path.len() - 1,
    decreases path.len(),
{
    if path.len() > 1 {
        let shorter = path.drop_last();
        assert forall|i: int| 0 <= i < shorter.len() - 1 implies #[trigger] joined(
            s.edges,
            shorter,
            i,
        ) by {
            assert(joined(s.edges, path, i));
        }
        lemma_short_walks_are_seen(s, shorter);
        let x = shorter.last();
        assert(joined(s.edges, path, path.len() - 2));
        assert(s.edges.contains((x, path.last())));
        assert(!s.queue.contains(x)) by {
            if s.queue.contains(x) {
                let i = s.queue.index_of(x);
                assert(s.dist[s.queue[0]] <= s.dist[s.queue[i]]);
            }
        }
        assert(s.done(x));
    }
}

proof fn lemma_few_nodes(nodes: Set<NodeId>)
    requires
        nodes.finite(),
    ensures
        nodes.len() <= 256,
{
    let f = |n: NodeId| n as int;
    let image = nodes.map(f);
    vstd::set_lib::lemma_map_size(nodes, image, f);
    vstd::set_lib::lemma_int_range(0, 256);
    assert(image.subset_of(vstd::set_lib::set_int_range(0, 256)));
    vstd::set_lib::lemma_len_subset(image, vstd::set_lib::set_int_range(0, 256));
}

/// Follows the predecessors of a node back to the start.
fn trace_back(preds: &HashMap<NodeId, NodeId>, target: NodeId, Ghost(s): Ghost<Search>) -> (path: Vec<
    NodeId,
>)
    requires
        s.tree(),
        s.preds == preds@,
        s.dist.contains_key(target),
    ensures
        is_route(s.edges, path@, s.from, target),
        path@.len() == s.dist[target] + 1,
{
    let mut path: Vec<NodeId> = Vec::new();
    path.push(target);
    let mut first: NodeId = target;
    loop
        invariant
            s.tree(),
            s.preds == preds@,
            is_route(s.edges, path@, first, target),
            s.dist.contains_key(first),
            path@.len() + s.dist[first] == s.dist[target] + 1,
        ensures
            is_route(s.edges, path@, first, target),
            !s.preds.contains_key(first),
            s.dist.contains_key(first),
            path@.len() + s.dist[first] == s.dist[target] + 1,
        decreases s.dist[first],
    {
        let pred: NodeId = match preds.get(&first) {
            Some(pred) => *pred,
            None => {
                break;
            },
        };
        let ghost before = path@;
        path.insert(0, pred);
        proof {
            assert(path@ =~= seq![pred] + before);
            assert forall|i: int| 0 <= i < path@.len() - 1 implies #[trigger] joined(
                s.edges,
                path@,
                i,
            ) by {
                if i > 0 {
                    assert(joined(s.edges, before, i - 1));
                }
            }
        }
        first = pred;
    }
    path
}

/// The node sequence of a route that may not exist.
pub open spec fn route_view(found: Option<Vec<NodeId>>) -> Option<Seq<NodeId>> {
    match found {
        Some(path) => Some(path@),
        None => None,
    }
}

/// Searches breadth-first for a shortest route along the given edges.
pub fn find_route(edges: &Vec<(NodeId, NodeId)>, from: NodeId, to: NodeId) -> (res: Option<
    Vec<NodeId>,
>)
    ensures
        is_best_route(edges@.to_set(), route_view(res), from, to),
{
    let mut visited: HashSet<NodeId> = HashSet::new();
    let mut queue: VecDeque<NodeId> = VecDeque::new();
    let mut preds: HashMap<NodeId, NodeId> = HashMap::new();
    let ghost all = edges@.to_set();
    let ghost mut s = Search {
        edges: all,
        from,
        dist: Map::<NodeId, nat>::empty().insert(from, 0),
        preds: preds@,
        queue: seq![from],
    };
    queue.push_back(from);
    visited.insert(from);
    proof {
        assert(s.queue =~= queue@);
        assert(visited@ =~= s.dist.dom());
        assert(s.queue[0] == from);
    }
    loop
        invariant
            all == edges@.to_set(),
            s.edges == all,
            s.from == from,
            s.preds == preds@,
            s.queue == queue@,
            s.dist.dom() == visited@,
            s.dist.dom().finite(),
            s.tree(),
            s.ordered(),
            s.expanded(),
            s.queue.len() > 0 ==> s.dist[s.queue.last()] <= s.dist[s.queue[0]] + 1,
            forall|n: NodeId| #[trigger]
                s.done(n) && s.queue.len() > 0 ==> s.dist[n] <= s.dist[s.queue[0]],
            !s.done(to),
        decreases 256 + s.queue.len() - s.dist.dom().len(),
    {
        proof {
            lemma_few_nodes(s.dist.dom());
        }
        let ghost before = s;
        let current: NodeId = match queue.pop_front() {
            Some(current) => current,
            None => {
                proof {
                    assert forall|path: Seq<NodeId>| !is_route(all, path, from, to) by {
                        if is_route(all, path, from, to) {
                            lemma_short_walks_are_seen(s, path);
                        }
                    }
                }
                return None;
            },
        };
        assert(before.queue[0] == current);
        if current == to {
            let path = trace_back(&preds, to, Ghost(before));
            proof {
                assert forall|other: Seq<NodeId>| #[trigger]
                    is_route(all, other, from, to) implies path@.len() <= other.len() by {
                    if other.len() - 1 <= before.dist[current] {
                        lemma_short_walks_are_seen(before, other);
                    }
                }
            }
            return Some(path);
        }
        proof {
            s.queue = queue@;
        }
        let ghost d = s.dist[current];
        let ghost gap = s.queue.len() - s.dist.dom().len();
        proof {
            assert(before.queue =~= seq![current] + s.queue);
            assert forall|x: NodeId, y: NodeId|
                s.done(x) && x != current && #[trigger] s.edges.contains(
                    (x, y),
                ) implies s.dist.contains_key(y) && s.dist[y] <= s.dist[x] + 1 by {
                assert(before.done(x));
            }
            assert forall|n: NodeId| #[trigger] s.done(n) implies s.dist[n] <= d by {
                if n != current {
                    assert(before.done(n));
                }
            }
        }
        let mut i: usize = 0;
        while i < edges.len()
            invariant
                i <= edges@.len(),
                all == edges@.to_set(),
                s.edges == all,
                s.from == from,
                s.preds == preds@,
                s.queue == queue@,
                s.dist.dom() == visited@,
                s.dist.dom().finite(),
                s.tree(),
                s.ordered(),
                s.done(current),
                s.dist[current] == d,
                s.queue.len() - s.dist.dom().len() == gap,
                current != to,
                !s.done(to),
                forall|k: int|
                    0 <= k < s.queue.len() ==> d <= #[trigger] s.dist[s.queue[k]] <= d + 1,
                forall|n: NodeId| #[trigger] s.done(n) ==> s.dist[n] <= d,
                forall|x: NodeId, y: NodeId|
                    s.done(x) && x != current && #[trigger] s.edges.contains((x, y))
                        ==> s.dist.contains_key(y) && s.dist[y] <= s.dist[x] + 1,
                forall|j: int|
                    0 <= j < i && (#[trigger] edges@[j]).0 == current ==> s.dist.contains_key(
                        edges@[j].1,
                    ) && s.dist[edges@[j].1] <= d + 1,
            decreases edges.len() - i,
        {
            let (a, b) = edges[i];
            if a == current && !visited.contains(&b) {
                let ghost old_s = s;
                visited.insert(b);
                queue.push_back(b);
                preds.insert(b, current);
                proof {
                    assert(edges@.to_set().contains(edges@[i as int])) by {
                        assert(edges@.contains(edges@[i as int]));
                    }
                    s.dist = s.dist.insert(b, d + 1);
                    s.preds = preds@;
                    s.queue = queue@;
                    assert(s.queue =~= old_s.queue.push(b));
                    assert(s.dist.dom() =~= visited@);
                    assert(!old_s.queue.contains(b));
                    assert forall|n: NodeId| #[trigger] s.done(n) implies old_s.done(n) by {
                        if old_s.queue.contains(n) {
                            let k = old_s.queue.index_of(n);
                            assert(s.queue[k] == n);
                        }
                        assert(s.queue[old_s.queue.len() as int] == b);
                    }
                    assert(s.done(current)) by {
                        if s.queue.contains(current) {
                            let k = s.queue.index_of(current);
                            assert(old_s.queue[k] == current);
                        }
                    }
                }
            }
            proof {
                if a == current && !s.done(b) {
                    let k = s.queue.index_of(b);
                    assert(s.dist[s.queue[k]] <= d + 1);
                }
            }
            i = i + 1;
        }
        proof {
            assert forall|x: NodeId, y: NodeId|
                s.done(x) && #[trigger] s.edges.contains((x, y)) implies s.dist.contains_key(y)
                && s.dist[y] <= s.dist[x] + 1 by {
                if x == current {
                    assert(edges@.contains((x, y)));
                    let j = edges@.index_of((x, y));
                    assert(edges@[j].0 == current);
                }
            }
        }
    }
}

} // verus!
