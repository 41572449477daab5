use vstd::prelude::*;
use vstd::string::StringExecFns;
use crate::graph::{AdjacencyList, Graph};
use crate::keys::{ordered, sorted_keys};
use crate::text::{decimal, push_decimal};

verus! {

broadcast use vstd::laws_cmp::group_laws_cmp, vstd::std_specs::btree::group_btree_axioms;

/// The first line of the diagram.
pub open spec fn header() -> Seq<char> {
    seq!['f', 'l', 'o', 'w', 'c', 'h', 'a', 'r', 't', ' ', 'L', 'R']
}

/// What starts each edge line: a line break and four spaces.
pub open spec fn line_start() -> Seq<char> {
    seq!['\n', ' ', ' ', ' ', ' ']
}

/// Whether `n` has an edge back to `v`.
pub open spec fn mutual<E>(g: Graph<E>, v: u64, n: u64) -> bool {
    g.contains_key(n) && g[n].contains_key(v)
}

/// The connector drawn for the edge `v -> n`: undirected where `n` has an
/// edge back to `v`, an arrow otherwise.
pub open spec fn connector<E>(g: Graph<E>, v: u64, n: u64) -> Seq<char> {
    if mutual(g, v, n) {
        seq!['-', '-', '-']
    } else {
        seq!['-', '-', '>']
    }
}

/// The line of the edge `v -> n`.
pub open spec fn edge_line<E>(g: Graph<E>, v: u64, n: u64) -> Seq<char> {
    line_start() + decimal(v as nat) + seq![' '] + connector(g, v, n) + seq![' '] + decimal(
        n as nat,
    )
}

/// The lines of the edges from `v` to each of `ns`, in that order.
pub open spec fn vertex_lines<E>(g: Graph<E>, v: u64, ns: Seq<u64>) -> Seq<char>
    decreases ns.len(),
{
    if ns.len() == 0 {
        Seq::empty()
    } else {
        vertex_lines(g, v, ns.drop_last()) + edge_line(g, v, ns.last())
    }
}

/// The lines of the edges from each of `vs` in turn, each vertex's edges in
/// ascending order of their targets.
pub open spec fn graph_lines<E>(g: Graph<E>, vs: Seq<u64>) -> Seq<char>
    decreases vs.len(),
{
    if vs.len() == 0 {
        Seq::empty()
    } else {
        graph_lines(g, vs.drop_last()) + vertex_lines(g, vs.last(), ordered(g[vs.last()].dom()))
    }
}

/// The whole diagram: the header, then one line per stored edge, vertices in
/// ascending order and each vertex's edges in ascending order of target.
pub open spec fn mermaid<E>(g: Graph<E>) -> Seq<char> {
    header() + graph_lines(g, ordered(g.dom()))
}

impl<E: Clone> AdjacencyList<E> {
    /// Renders the graph as a Mermaid flowchart: a header line, then one line
    /// per stored edge entry, vertices in ascending order and each vertex's
    /// edges in ascending order of target. An entry `v -> n` is drawn `---`
    /// where `n` has an entry back to `v`, and `-->` otherwise (also where `n`
    /// is no longer a vertex).
    pub fn into_mermaid(&self) -> (r: String)
        ensures
            r@ == mermaid(self@),
    {
        let ghost g = self@;
        let mut diagram = String::new();
        diagram.append("flowchart LR");
        proof {
            reveal_strlit("flowchart LR");
            assert(diagram@ =~= header());
        }
        let vertices = sorted_keys(&self.hash_map);
        proof {
            assert(g.dom() == self.hash_map@.dom());
        }
        let mut i: usize = 0;
        while i < vertices.len()
            invariant
                g == self@,
                vertices@ == ordered(g.dom()),
                vertices@.to_set() == g.dom(),
                i <= vertices@.len(),
                diagram@ == header() + graph_lines(g, vertices@.subrange(0, i as int)),
            decreases vertices@.len() - i,
        {
            let v = vertices[i];
            proof {
                assert(vertices@.to_set().contains(v));
            }
            if let Some(edges) = self.hash_map.get(&v) {
                let neighbors = sorted_keys(edges);
                let ghost before = diagram@;
                let mut j: usize = 0;
                while j < neighbors.len()
                    invariant
                        g == self@,
                        g.contains_key(v),
                        neighbors@ == ordered(g[v].dom()),
                        j <= neighbors@.len(),
                        diagram@ == before + vertex_lines(g, v, neighbors@.subrange(0, j as int)),
                    decreases neighbors@.len() - j,
                {
                    let n = neighbors[j];
                    let back = match self.hash_map.get(&n) {
                        Some(out) => out.contains_key(&v),
                        None => false,
                    };
                    let ghost start = diagram@;
                    diagram.append("\n    ");
                    push_decimal(&mut diagram, v);
                    diagram.append(" ");
                    if back {
                        diagram.append("---");
                    } else {
                        diagram.append("-->");
                    }
                    diagram.append(" ");
                    push_decimal(&mut diagram, n);
                    proof {
                        reveal_strlit("\n    ");
                        reveal_strlit(" ");
                        reveal_strlit("---");
                        reveal_strlit("-->");
                        assert(back == mutual(g, v, n));
                        assert(diagram@ =~= start + edge_line(g, v, n));
                        assert(neighbors@.subrange(0, j + 1).drop_last() =~= neighbors@.subrange(0, j as int));
                    }
                    j = j + 1;
                }
                proof {
                    assert(neighbors@.subrange(0, neighbors@.len() as int) =~= neighbors@);
                }
            }
            proof {
                assert(vertices@.subrange(0, i + 1).drop_last() =~= vertices@.subrange(0, i as int));
            }
            i = i + 1;
        }
        proof {
            assert(vertices@.subrange(0, vertices@.len() as int) =~= vertices@);
        }
        diagram
    }
}

} // verus!
