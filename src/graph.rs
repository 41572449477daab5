use std::collections::BTreeMap;
use vstd::prelude::*;
use crate::keys::{ordered, sorted_keys};
use crate::vertex::Vertex;

verus! {

broadcast use vstd::laws_cmp::group_laws_cmp, vstd::std_specs::btree::group_btree_axioms;

/// The abstract graph: each present vertex mapped to its outgoing edges
/// (neighbour label to weight).
pub type Graph<E> = Map<u64, Map<u64, E>>;

/// A graph stored as a mapping from each vertex label to its outgoing edges.
///
/// Every key of the outer map is a vertex of the graph, even with no edges.
/// An edge may point at a label that is not (or no longer) a vertex.
#[derive(Clone, Debug, PartialEq)]
pub struct AdjacencyList<E> {
    pub hash_map: BTreeMap<u64, BTreeMap<u64, E>>,
}

/// The abstract graph held by a stored adjacency mapping.
pub open spec fn graph_of<E>(m: Map<u64, BTreeMap<u64, E>>) -> Graph<E> {
    m.map_values(|e: BTreeMap<u64, E>| e@)
}

impl<E> View for AdjacencyList<E> {
    type V = Graph<E>;

    open spec fn view(&self) -> Graph<E> {
        graph_of(self.hash_map@)
    }
}

impl<E> Default for AdjacencyList<E> {
    /// The graph with no vertices.
    fn default() -> (r: Self)
        ensures
            r@ == Map::<u64, Map<u64, E>>::empty(),
    {
        let r = AdjacencyList { hash_map: BTreeMap::new() };
        assert(r@ =~= Map::<u64, Map<u64, E>>::empty());
        r
    }
}

/// The outgoing edges of `v`; none where `v` is not a vertex.
pub open spec fn edges_of<E>(g: Graph<E>, v: u64) -> Map<u64, E> {
    if g.contains_key(v) {
        g[v]
    } else {
        Map::empty()
    }
}

/// `g` with the entry `a -> b` set to `w`, creating `a` where absent.
pub open spec fn with_edge<E>(g: Graph<E>, a: u64, b: u64, w: E) -> Graph<E> {
    g.insert(a, edges_of(g, a).insert(b, w))
}

/// `g` with `v` present, with no edges where it was absent.
pub open spec fn with_vertex<E>(g: Graph<E>, v: u64) -> Graph<E> {
    if g.contains_key(v) {
        g
    } else {
        g.insert(v, Map::empty())
    }
}

/// `g` after a directed edge `a -> b` of weight `w` is added.
pub open spec fn directed<E>(g: Graph<E>, a: u64, b: u64, w: E) -> Graph<E> {
    with_vertex(with_edge(g, a, b, w), b)
}

/// `g` after an undirected edge is added: `a -> b` set to `wa`, then
/// `b -> a` set to `wb`.
pub open spec fn undirected<E>(g: Graph<E>, a: u64, b: u64, wa: E, wb: E) -> Graph<E> {
    with_edge(with_edge(g, a, b, wa), b, a, wb)
}

/// `g` after an undirected edge from `a` to each `ks[i]` is added in turn,
/// the entry `a -> ks[i]` set to `cs[i]` and the entry `ks[i] -> a` to `ws[i]`.
pub open spec fn undirected_each<E>(g: Graph<E>, a: u64, ks: Seq<u64>, ws: Seq<E>, cs: Seq<E>) -> Graph<E>
    decreases ks.len(),
{
    if ks.len() == 0 {
        g
    } else {
        let last = ks.len() - 1;
        undirected(undirected_each(g, a, ks.drop_last(), ws, cs), a, ks[last], cs[last], ws[last])
    }
}

/// The weights of `es` under the keys `ks`, in the order of `ks`.
pub open spec fn weights_along<E>(es: Map<u64, E>, ks: Seq<u64>) -> Seq<E> {
    ks.map_values(|k: u64| es[k])
}

/// `g` after an undirected edge from `a` to each key of `es` is added in
/// ascending key order, the entry back to `a` with the weight of `es` and the
/// entry from `a` with the matching element of `cs`.
pub open spec fn undirected_all<E>(g: Graph<E>, a: u64, es: Map<u64, E>, cs: Seq<E>) -> Graph<E> {
    undirected_each(g, a, ordered(es.dom()), weights_along(es, ordered(es.dom())), cs)
}

/// `g` after `v` is toggled: removed where present, otherwise added with the
/// outgoing edges `es`.
pub open spec fn toggled<E>(g: Graph<E>, v: u64, es: Map<u64, E>) -> Graph<E> {
    if g.contains_key(v) {
        removed(g, v)
    } else {
        g.insert(v, es)
    }
}

/// `g` after `v` is removed: `v` is no longer a vertex, and each vertex that
/// `v` had an edge to loses its edge to `v`. Other edges to `v` stay.
pub open spec fn removed<E>(g: Graph<E>, v: u64) -> Graph<E> {
    Map::new(
        |k: u64| g.contains_key(k) && k != v,
        |k: u64|
            if edges_of(g, v).contains_key(k) {
                g[k].remove(v)
            } else {
                g[k]
            },
    )
}

/// Storing an entry stores its view in the abstract graph.
pub broadcast proof fn lemma_graph_of_insert<E>(m: Map<u64, BTreeMap<u64, E>>, k: u64, e: BTreeMap<u64, E>)
    ensures
        #[trigger] graph_of(m.insert(k, e)) == graph_of(m).insert(k, e@),
{
    assert(graph_of(m.insert(k, e)) =~= graph_of(m).insert(k, e@));
}

/// Dropping an entry drops it from the abstract graph.
pub broadcast proof fn lemma_graph_of_remove<E>(m: Map<u64, BTreeMap<u64, E>>, k: u64)
    ensures
        #[trigger] graph_of(m.remove(k)) == graph_of(m).remove(k),
{
    assert(graph_of(m.remove(k)) =~= graph_of(m).remove(k));
}

/// Elements past the keys do not change the outcome.
pub proof fn lemma_undirected_each_extend<E>(g: Graph<E>, a: u64, ks: Seq<u64>, ws: Seq<E>, cs: Seq<E>, w: E, c: E)
    requires
        ws.len() >= ks.len(),
        cs.len() >= ks.len(),
    ensures
        undirected_each(g, a, ks, ws.push(w), cs.push(c)) == undirected_each(g, a, ks, ws, cs),
    decreases ks.len(),
{
    if ks.len() > 0 {
        lemma_undirected_each_extend(g, a, ks.drop_last(), ws, cs, w, c);
    }
}

/// Relies on `BTreeMap::get_mut`: a mutable reference to the value stored
/// under `k`, if any; writes through it land in that entry.
#[verifier::external_body]
fn entry_mut<'a, E>(m: &'a mut BTreeMap<u64, BTreeMap<u64, E>>, k: &u64) -> (r: Option<
    &'a mut BTreeMap<u64, E>,
>)
    ensures
        match r {
            Some(e) => {
                &&& old(m)@.contains_key(*k)
                &&& *e == old(m)@[*k]
                &&& final(m)@ == old(m)@.insert(*k, *final(e))
            },
            None => {
                &&& !old(m)@.contains_key(*k)
                &&& final(m)@ == old(m)@
            },
        },
{
    m.get_mut(k)
}

impl<E: Clone> AdjacencyList<E> {
    /// Builds a graph from a complete adjacency mapping.
    pub fn new(hash_map: BTreeMap<u64, BTreeMap<u64, E>>) -> (r: Self)
        ensures
            r@ == graph_of(hash_map@),
    {
        AdjacencyList { hash_map }
    }

    /// Inserts `vertex` with no outgoing edges, discarding any it had.
    pub fn add_vertex(&mut self, vertex: Vertex)
        ensures
            final(self)@ == old(self)@.insert(vertex.name, Map::empty()),
    {
        broadcast use lemma_graph_of_insert;

        self.hash_map.insert(vertex.name, BTreeMap::new());
    }

    /// Sets the outgoing edges of `vertex` to exactly `edges`, replacing any it
    /// had. The targets of `edges` are neither created nor given edges back.
    pub fn add_vertex_with_directed_edges(&mut self, vertex: Vertex, edges: BTreeMap<u64, E>)
        ensures
            final(self)@ == old(self)@.insert(vertex.name, edges@),
    {
        broadcast use lemma_graph_of_insert;

        self.hash_map.insert(vertex.name, edges);
    }

    /// Adds an undirected edge between `vertex` and each key of `edges`, one
    /// at a time in ascending key order, as `add_edge_undirected` does: the
    /// entry back to `vertex` gets the weight of `edges`, the entry from
    /// `vertex` a clone of it.
    pub fn add_vertex_with_undirected_edges(&mut self, vertex: Vertex, edges: BTreeMap<u64, E>)
        ensures
            exists|cs: Seq<E>|
                {
                    &&& cs.len() == edges@.dom().len()
                    &&& forall|j: int|
                        0 <= j < cs.len() ==> cloned(
                            edges@[ordered(edges@.dom())[j]],
                            #[trigger] cs[j],
                        )
                    &&& final(self)@ == #[trigger] undirected_all(old(self)@, vertex.name, edges@, cs)
                },
    {
        let ghost g = self@;
        let ghost es = edges@;
        let ghost ks = ordered(edges@.dom());
        let keys = sorted_keys(&edges);
        let mut edges = edges;
        let ghost mut ws: Seq<E> = Seq::empty();
        let ghost mut cs: Seq<E> = Seq::empty();
        let mut i: usize = 0;
        while i < keys.len()
            invariant
                keys@ == ks,
                ks.to_set() == es.dom(),
                crate::keys::strictly_increasing(ks),
                i <= ks.len(),
                ws.len() == i,
                cs.len() == i,
                forall|j: int| 0 <= j < i ==> ws[j] == es[ks[j]],
                forall|j: int| 0 <= j < i ==> cloned(#[trigger] ws[j], cs[j]),
                forall|k: u64| #[trigger] edges@.contains_key(k) <==> es.contains_key(k) && !ks.subrange(0, i as int).contains(k),
                forall|k: u64| #[trigger] edges@.contains_key(k) ==> edges@[k] == es[k],
                self@ == undirected_each(g, vertex.name, ks.subrange(0, i as int), ws, cs),
            decreases ks.len() - i,
        {
            let n = keys[i];
            proof {
                assert(ks.to_set().contains(n));
                assert(!ks.subrange(0, i as int).contains(n)) by {
                    if ks.subrange(0, i as int).contains(n) {
                        let j = choose|j: int| 0 <= j < i && ks.subrange(0, i as int)[j] == n;
                        assert(ks[j] == ks[i as int]);
                    }
                }
            }
            let ghost left = edges@;
            let weight = edges.remove(&n).unwrap();
            assert(edges@ == left.remove(n));
            let ghost before = self@;
            self.add_edge_undirected(vertex, Vertex::new(n), weight);
            proof {
                let c = self@[vertex.name][n];
                let prefix = ks.subrange(0, i as int);
                lemma_undirected_each_extend(g, vertex.name, prefix, ws, cs, weight, c);
                ws = ws.push(weight);
                cs = cs.push(c);
                let done = ks.subrange(0, i + 1);
                assert(done =~= prefix.push(n));
                assert(done.drop_last() =~= prefix);
                assert forall|k: u64| #[trigger] edges@.contains_key(k) <==> es.contains_key(k) && !done.contains(k) by {
                    assert(left.contains_key(k) <==> es.contains_key(k) && !prefix.contains(k));
                    if k == n {
                        assert(done[i as int] == n);
                    }
                    if done.contains(k) && k != n {
                        let j = choose|j: int| 0 <= j < done.len() && done[j] == k;
                        assert(prefix[j] == k);
                    }
                    if prefix.contains(k) {
                        let j = choose|j: int| 0 <= j < prefix.len() && prefix[j] == k;
                        assert(done[j] == k);
                    }
                }
            }
            i = i + 1;
        }
        proof {
            assert(ks.subrange(0, ks.len() as int) =~= ks);
            assert(ws =~= weights_along(es, ks));
            assert(cs.len() == es.dom().len());
            assert(self@ == undirected_all(g, vertex.name, es, cs));
            assert forall|j: int| 0 <= j < ks.len() implies cloned(es[ks[j]], #[trigger] cs[j]) by {
                assert(ws[j] == es[ks[j]]);
            }
        }
    }

    /// The outgoing edges of `vertex`, or `None` where it is not a vertex.
    pub fn get_neighbors(&self, vertex: &Vertex) -> (r: Option<&BTreeMap<u64, E>>)
        ensures
            match r {
                Some(e) => self@.contains_key(vertex.name) && e@ == self@[vertex.name],
                None => !self@.contains_key(vertex.name),
            },
    {
        self.hash_map.get(&vertex.name)
    }

    /// Write access to the outgoing edges of `vertex`, or `None` where it is
    /// not a vertex. What is written through the reference becomes the
    /// vertex's edges.
    pub fn get_neighbors_mut(&mut self, vertex: &Vertex) -> (r: Option<&mut BTreeMap<u64, E>>)
        ensures
            match r {
                Some(e) => {
                    &&& old(self)@.contains_key(vertex.name)
                    &&& e@ == old(self)@[vertex.name]
                    &&& final(self)@ == old(self)@.insert(vertex.name, final(e)@)
                },
                None => {
                    &&& !old(self)@.contains_key(vertex.name)
                    &&& final(self)@ == old(self)@
                },
            },
    {
        broadcast use lemma_graph_of_insert;

        entry_mut(&mut self.hash_map, &vertex.name)
    }

    /// Sets the entry `a -> b` to `weight` (creating `a` where absent) and
    /// makes `b` a vertex with no edges where it was absent. No `b -> a`
    /// entry is added.
    pub fn add_edge_directed(&mut self, a: Vertex, b: Vertex, weight: E)
        ensures
            final(self)@ == directed(old(self)@, a.name, b.name, weight),
    {
        broadcast use lemma_graph_of_insert;

        match self.get_neighbors_mut(&a) {
            Some(edges) => {
                edges.insert(b.name, weight);
            },
            None => {
                let mut edges = BTreeMap::new();
                edges.insert(b.name, weight);
                self.add_vertex_with_directed_edges(a, edges);
            },
        }
        assert(self@ =~= with_edge(old(self)@, a.name, b.name, weight));
        if self.get_neighbors(&b).is_none() {
            self.add_vertex_with_directed_edges(b, BTreeMap::new());
        }
    }

    /// Sets the entry `a -> b` to a clone of `weight` and then the entry
    /// `b -> a` to `weight` itself, creating either vertex where absent.
    pub fn add_edge_undirected(&mut self, a: Vertex, b: Vertex, weight: E)
        ensures
            final(self)@.contains_key(a.name),
            final(self)@[a.name].contains_key(b.name),
            cloned(weight, final(self)@[a.name][b.name]),
            final(self)@ == undirected(
                old(self)@,
                a.name,
                b.name,
                final(self)@[a.name][b.name],
                weight,
            ),
    {
        broadcast use lemma_graph_of_insert;

        let copy = weight.clone();
        let ghost start = self@;
        match self.get_neighbors_mut(&a) {
            Some(edges) => {
                edges.insert(b.name, copy);
            },
            None => {
                let mut edges = BTreeMap::new();
                edges.insert(b.name, copy);
                self.add_vertex_with_directed_edges(a, edges);
            },
        }
        assert(self@ =~= with_edge(start, a.name, b.name, copy));
        let ghost mid = self@;
        match self.get_neighbors_mut(&b) {
            Some(edges) => {
                edges.insert(a.name, weight);
            },
            None => {
                let mut edges = BTreeMap::new();
                edges.insert(a.name, weight);
                self.add_vertex_with_directed_edges(b, edges);
            },
        }
        assert(self@ =~= with_edge(mid, b.name, a.name, weight));
        proof {
            if a.name == b.name {
                let e = edges_of(start, a.name);
                assert(e.insert(a.name, copy).insert(a.name, weight) =~= e.insert(a.name, weight));
                assert(e.insert(a.name, weight).insert(a.name, weight) =~= e.insert(a.name, weight));
                let m1 = with_edge(start, a.name, a.name, weight);
                assert(edges_of(mid, a.name) == e.insert(a.name, copy));
                assert(edges_of(m1, a.name) == e.insert(a.name, weight));
                assert(self@ =~= start.insert(a.name, e.insert(a.name, weight)));
                assert(undirected(start, a.name, b.name, weight, weight) =~= start.insert(a.name, e.insert(a.name, weight)));
                assert(self@[a.name][b.name] == weight);
            } else {
                assert(self@[a.name] == mid[a.name]);
                assert(mid[a.name][b.name] == copy);
                assert(self@ == undirected(start, a.name, b.name, copy, weight));
            }
        }
    }

    /// Removes `vertex`. First, each vertex that `vertex` has an edge to loses
    /// its edge back to `vertex`; a vertex with an edge to `vertex` that
    /// `vertex` does not point back at keeps that edge, which then names a
    /// label that is no longer a vertex.
    pub fn remove_vertex(&mut self, vertex: &Vertex)
        ensures
            final(self)@ == removed(old(self)@, vertex.name),
    {
        broadcast use lemma_graph_of_insert, lemma_graph_of_remove;

        let ghost g = self@;
        let ghost v = vertex.name;
        if let Some(edges) = self.get_neighbors(vertex) {
            let neighbors = sorted_keys(edges);
            let mut i: usize = 0;
            while i < neighbors.len()
                invariant
                    i <= neighbors@.len(),
                    v == vertex.name,
                    neighbors@.to_set() == edges_of(g, v).dom(),
                    self@.dom() == g.dom(),
                    forall|k: u64|
                        #![trigger self@[k]]
                        self@.contains_key(k) ==> self@[k] == if neighbors@.subrange(
                            0,
                            i as int,
                        ).contains(k) {
                            g[k].remove(v)
                        } else {
                            g[k]
                        },
                decreases neighbors@.len() - i,
            {
                let n = neighbors[i];
                let ghost before = self@;
                if let Some(out) = self.get_neighbors_mut(&Vertex::new(n)) {
                    out.remove(&vertex.name);
                }
                assert(before.contains_key(n) ==> self@ =~= before.insert(n, before[n].remove(v)));
                assert(!before.contains_key(n) ==> self@ == before);
                proof {
                    assert(self@.dom() =~= g.dom());
                    assert forall|k: u64| #[trigger] self@.contains_key(k) implies self@[k] == if neighbors@.subrange(0, i + 1).contains(k) {
                        g[k].remove(v)
                    } else {
                        g[k]
                    } by {
                        assert(neighbors@.subrange(0, i + 1) =~= neighbors@.subrange(0, i as int).push(n));
                        if k == n {
                            assert(neighbors@.subrange(0, i + 1)[i as int] == n);
                            assert(g[k].remove(v).remove(v) =~= g[k].remove(v));
                            assert(self@[k] == before[k].remove(v));
                        } else {
                            assert(self@[k] == before[k]);
                            assert(neighbors@.subrange(0, i + 1).contains(k) == neighbors@.subrange(0, i as int).contains(k));
                        }
                    }
                }
                i = i + 1;
            }
            proof {
                assert(neighbors@.subrange(0, neighbors@.len() as int) == neighbors@);
            }
        }
        self.hash_map.remove(&vertex.name);
        proof {
            assert(self@ =~= removed(g, v));
        }
    }

    /// Removes `vertex` where it is a vertex (as `remove_vertex` does);
    /// otherwise adds it with a copy of `edges` as its outgoing edges.
    pub fn toggle_vertex(&mut self, vertex: &Vertex, edges: &BTreeMap<u64, E>)
        ensures
            final(self)@ == toggled(old(self)@, vertex.name, edges@),
    {
        if self.hash_map.contains_key(&vertex.name) {
            self.remove_vertex(vertex);
        } else {
            self.add_vertex_with_directed_edges(*vertex, edges.clone());
        }
    }
}

} // verus!
