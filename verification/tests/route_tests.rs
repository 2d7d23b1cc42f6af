use servers::graph::NetworkGraph;
use servers::route::find_route;
use servers::NodeType;
use std::collections::HashSet;

#[test]
fn route_is_shortest() {
    let edges = vec![(1, 2), (2, 3), (3, 4), (4, 5), (1, 6), (6, 5), (5, 1)];
    assert_eq!(find_route(&edges, 1, 5), Some(vec![1, 6, 5]));
    assert_eq!(find_route(&edges, 1, 4), Some(vec![1, 2, 3, 4]));
    assert_eq!(find_route(&edges, 4, 6), Some(vec![4, 5, 1, 6]));
}

#[test]
fn route_to_oneself_is_one_node() {
    assert_eq!(find_route(&vec![], 9, 9), Some(vec![9]));
    assert_eq!(find_route(&vec![(9, 9), (9, 1), (1, 9)], 9, 9), Some(vec![9]));
}

#[test]
fn no_route_where_edges_lead_the_other_way() {
    assert_eq!(find_route(&vec![(2, 1), (3, 2)], 1, 3), None);
    assert_eq!(find_route(&vec![], 1, 2), None);
}

#[test]
fn route_uses_the_whole_range_of_nodes() {
    let edges: Vec<(u8, u8)> = (0..=254u8).map(|n| (n, n + 1)).collect();
    let route = find_route(&edges, 0, 255).unwrap();
    assert_eq!(route.len(), 256);
    assert_eq!(route[0], 0);
    assert_eq!(route[255], 255);
}

#[test]
fn graph_learns_and_forgets() {
    let mut graph = NetworkGraph::new();
    let trace = vec![(1, NodeType::Server), (2, NodeType::Drone), (3, NodeType::Client)];
    graph.update(&trace);
    graph.update(&trace);
    let mut edges = graph.edges().clone();
    edges.sort();
    assert_eq!(edges, vec![(1, 2), (2, 1), (2, 3), (3, 2)]);
    assert_eq!(find_route(graph.edges(), 3, 1), Some(vec![3, 2, 1]));

    graph.remove_node(2);
    assert_eq!(graph.edges().len(), 0);
    graph.update(&vec![(1, NodeType::Server)]);
    assert_eq!(graph.edges().len(), 0);
    graph.update(&trace);
    graph.clear();
    assert_eq!(graph.edges().len(), 0);
}

#[test]
fn detours_avoid_excluded_nodes() {
    let mut graph = NetworkGraph::new();
    graph.update(&vec![(1, NodeType::Server), (2, NodeType::Drone), (3, NodeType::Client)]);
    let mut excluded = HashSet::new();
    excluded.insert(2);
    let detours = graph.detours(&excluded);
    assert_eq!(find_route(&detours, 1, 3), None);
    assert!(detours.iter().all(|edge| edge.1 != 2));
    assert!(detours.contains(&(2, 3)));
}

#[test]
fn relayed_edges_lead_to_drones_or_the_target() {
    let mut graph = NetworkGraph::new();
    graph.update(&vec![
        (1, NodeType::Server),
        (2, NodeType::Client),
        (3, NodeType::Drone),
        (4, NodeType::Client),
    ]);
    let relayed = graph.relayed(graph.edges(), 4);
    assert_eq!(find_route(&relayed, 1, 4), None);
    let relayed = graph.relayed(graph.edges(), 2);
    assert_eq!(find_route(&relayed, 1, 2), Some(vec![1, 2]));
    let mut edges = graph.relayed(graph.edges(), 4);
    edges.sort();
    assert_eq!(edges, vec![(2, 3), (3, 4), (4, 3)]);
    assert_eq!(graph.relayed(&vec![(1, 99)], 99), vec![]);
}

#[test]
fn later_types_on_a_path_win() {
    let mut graph = NetworkGraph::new();
    graph.update(&vec![(1, NodeType::Server), (2, NodeType::Drone)]);
    graph.update(&vec![(2, NodeType::Client), (5, NodeType::Drone)]);
    assert_eq!(graph.relayed(&vec![(1, 2), (1, 5)], 9), vec![(1, 5)]);
}
