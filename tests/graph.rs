use std::collections::BTreeMap;

use adjacency_graph::graph::AdjacencyList;
use adjacency_graph::vertex::Vertex;

fn v(n: u64) -> Vertex {
    Vertex::new(n)
}

fn edges(pairs: &[(u64, u64)]) -> BTreeMap<u64, u64> {
    pairs.iter().cloned().collect()
}

fn empty() -> AdjacencyList<u64> {
    AdjacencyList::new(BTreeMap::new())
}

#[test]
fn vertex_new_keeps_label() {
    assert_eq!(Vertex::new(42).name, 42);
    assert_eq!(Vertex::default().name, 0);
    assert!(Vertex::new(1) < Vertex::new(2));
}

#[test]
fn new_takes_the_mapping() {
    let mut m = BTreeMap::new();
    m.insert(1, edges(&[(2, 9)]));
    m.insert(2, BTreeMap::new());
    let g: AdjacencyList<u64> = AdjacencyList::new(m);
    assert_eq!(g.get_neighbors(&v(1)), Some(&edges(&[(2, 9)])));
    assert_eq!(g.get_neighbors(&v(2)), Some(&BTreeMap::new()));
    assert_eq!(g.get_neighbors(&v(3)), None);
}

#[test]
fn default_is_empty() {
    let g: AdjacencyList<u64> = AdjacencyList::default();
    assert!(g.hash_map.is_empty());
    assert_eq!(g.into_mermaid(), "flowchart LR");
}

#[test]
fn add_vertex_discards_edges() {
    let mut g = empty();
    g.add_edge_directed(v(1), v(2), 3);
    g.add_vertex(v(1));
    assert_eq!(g.get_neighbors(&v(1)), Some(&BTreeMap::new()));
    assert_eq!(g.get_neighbors(&v(2)), Some(&BTreeMap::new()));
}

#[test]
fn undirected_edge_mirrors() {
    let mut g = empty();
    g.add_edge_undirected(v(4), v(9), 11);
    assert_eq!(g.get_neighbors(&v(4)), Some(&edges(&[(9, 11)])));
    assert_eq!(g.get_neighbors(&v(9)), Some(&edges(&[(4, 11)])));
}

#[test]
fn undirected_edge_weight_is_a_copy() {
    let mut g: AdjacencyList<String> = AdjacencyList::new(BTreeMap::new());
    g.add_edge_undirected(v(1), v(2), String::from("w"));
    g.get_neighbors_mut(&v(1)).unwrap().insert(2, String::from("changed"));
    assert_eq!(g.get_neighbors(&v(2)).unwrap().get(&1), Some(&String::from("w")));
}

#[test]
fn directed_edge_has_no_reverse() {
    let mut g = empty();
    g.add_edge_directed(v(1), v(2), 5);
    assert_eq!(g.get_neighbors(&v(1)), Some(&edges(&[(2, 5)])));
    assert_eq!(g.get_neighbors(&v(2)), Some(&BTreeMap::new()));
}

#[test]
fn directed_edge_keeps_existing_target_edges() {
    let mut g = empty();
    g.add_edge_directed(v(2), v(7), 1);
    g.add_edge_directed(v(1), v(2), 5);
    assert_eq!(g.get_neighbors(&v(2)), Some(&edges(&[(7, 1)])));
}

#[test]
fn readding_an_edge_overwrites_weight() {
    let mut g = empty();
    g.add_edge_undirected(v(1), v(2), 5);
    g.add_edge_undirected(v(1), v(2), 8);
    g.add_edge_directed(v(1), v(3), 1);
    g.add_edge_directed(v(1), v(3), 2);
    assert_eq!(g.get_neighbors(&v(1)), Some(&edges(&[(2, 8), (3, 2)])));
    assert_eq!(g.get_neighbors(&v(2)), Some(&edges(&[(1, 8)])));
}

#[test]
fn self_loop_is_one_entry() {
    let mut g = empty();
    g.add_edge_undirected(v(3), v(3), 6);
    assert_eq!(g.get_neighbors(&v(3)), Some(&edges(&[(3, 6)])));
    assert_eq!(g.into_mermaid(), "flowchart LR\n    3 --- 3");
}

#[test]
fn directed_edges_overwrite_not_merge() {
    let mut g = empty();
    g.add_vertex_with_directed_edges(v(1), edges(&[(2, 1), (3, 1)]));
    g.add_vertex_with_directed_edges(v(1), edges(&[(4, 2)]));
    assert_eq!(g.get_neighbors(&v(1)), Some(&edges(&[(4, 2)])));
    assert_eq!(g.get_neighbors(&v(4)), None);
}

#[test]
fn undirected_edges_build_one_at_a_time() {
    let mut g = empty();
    g.add_edge_directed(v(1), v(9), 4);
    g.add_vertex_with_undirected_edges(v(1), edges(&[(2, 5), (3, 6)]));
    assert_eq!(g.get_neighbors(&v(1)), Some(&edges(&[(2, 5), (3, 6), (9, 4)])));
    assert_eq!(g.get_neighbors(&v(2)), Some(&edges(&[(1, 5)])));
    assert_eq!(g.get_neighbors(&v(3)), Some(&edges(&[(1, 6)])));
}

#[test]
fn undirected_edges_empty_adds_nothing() {
    let mut g = empty();
    g.add_vertex_with_undirected_edges(v(1), BTreeMap::new());
    assert_eq!(g.get_neighbors(&v(1)), None);
}

#[test]
fn neighbors_mut_changes_weight() {
    let mut g = empty();
    g.add_edge_directed(v(1), v(2), 5);
    if let Some(out) = g.get_neighbors_mut(&v(1)) {
        out.insert(2, 50);
    }
    assert_eq!(g.get_neighbors(&v(1)), Some(&edges(&[(2, 50)])));
    assert!(g.get_neighbors_mut(&v(8)).is_none());
}

#[test]
fn toggle_twice_restores_presence() {
    let mut g = empty();
    g.add_vertex(v(1));
    let e = edges(&[(1, 3)]);
    g.toggle_vertex(&v(5), &e);
    assert_eq!(g.get_neighbors(&v(5)), Some(&e));
    g.toggle_vertex(&v(5), &e);
    assert_eq!(g.get_neighbors(&v(5)), None);
    g.toggle_vertex(&v(1), &e);
    assert_eq!(g.get_neighbors(&v(1)), None);
    g.toggle_vertex(&v(1), &e);
    assert_eq!(g.get_neighbors(&v(1)), Some(&e));
}

#[test]
fn remove_cleans_up_neighbors_only() {
    let mut g = empty();
    g.add_edge_undirected(v(1), v(2), 1);
    g.add_edge_undirected(v(1), v(3), 2);
    g.add_edge_directed(v(4), v(1), 3);
    g.remove_vertex(&v(1));
    assert_eq!(g.get_neighbors(&v(1)), None);
    assert_eq!(g.get_neighbors(&v(2)), Some(&BTreeMap::new()));
    assert_eq!(g.get_neighbors(&v(3)), Some(&BTreeMap::new()));
    assert_eq!(g.get_neighbors(&v(4)), Some(&edges(&[(1, 3)])));
}

#[test]
fn remove_absent_vertex_changes_nothing() {
    let mut g = empty();
    g.add_edge_directed(v(1), v(2), 1);
    let before = g.clone();
    g.remove_vertex(&v(7));
    assert_eq!(g, before);
}

#[test]
fn export_has_one_line_per_entry() {
    let mut g = empty();
    g.add_edge_undirected(v(1), v(2), 1);
    g.add_edge_directed(v(1), v(3), 1);
    g.add_edge_directed(v(3), v(2), 1);
    g.add_vertex(v(4));
    let text = g.into_mermaid();
    let total: usize = g.hash_map.values().map(|e| e.len()).sum();
    assert_eq!(text.matches('\n').count(), total);
    assert_eq!(total, 4);
}

#[test]
fn export_dangling_edge_is_an_arrow() {
    let mut g = empty();
    g.add_edge_undirected(v(1), v(2), 1);
    g.add_edge_directed(v(3), v(2), 1);
    g.remove_vertex(&v(2));
    assert_eq!(g.get_neighbors(&v(1)), Some(&BTreeMap::new()));
    assert_eq!(g.into_mermaid(), "flowchart LR\n    3 --> 2");
}

#[test]
fn export_large_labels() {
    let mut g = empty();
    g.add_edge_directed(v(u64::MAX), v(10), 1);
    assert_eq!(
        g.into_mermaid(),
        "flowchart LR\n    18446744073709551615 --> 10"
    );
}

#[test]
fn scenario_mixed_edges() {
    let mut g = empty();
    g.add_vertex(v(1));
    g.add_vertex(v(2));
    g.add_vertex(v(3));
    g.add_edge_undirected(v(1), v(2), 5);
    g.add_edge_directed(v(2), v(3), 7);
    assert_eq!(g.get_neighbors(&v(1)), Some(&edges(&[(2, 5)])));
    assert_eq!(g.get_neighbors(&v(2)), Some(&edges(&[(1, 5), (3, 7)])));
    assert_eq!(g.get_neighbors(&v(3)), Some(&BTreeMap::new()));
    assert_eq!(
        g.into_mermaid(),
        "flowchart LR\n    1 --- 2\n    2 --- 1\n    2 --> 3"
    );
}
