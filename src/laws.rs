use vstd::prelude::*;
use crate::graph::{directed, edges_of, removed, toggled, undirected, AdjacencyList, Graph};
use crate::keys::{lemma_map_keys_ordered, ordered};
use crate::mermaid::{
    connector, edge_line, graph_lines, header, line_start, mermaid, vertex_lines,
};
use crate::text::{decimal, digit_char};

verus! {

broadcast use vstd::laws_cmp::group_laws_cmp, vstd::std_specs::btree::group_btree_axioms;

/// After an undirected edge between `a` and `b` is added with weight `w`
/// (its clone `c` stored from `a`), `a` has an edge to `b` weighted by a clone
/// of `w`, and `b` an edge to `a` weighted by `w`.
pub proof fn lemma_undirected_mirrors<E: Clone>(g: Graph<E>, a: u64, b: u64, c: E, w: E)
    requires
        cloned(w, c),
    ensures
        undirected(g, a, b, c, w).contains_key(a),
        undirected(g, a, b, c, w)[a].contains_key(b),
        cloned(w, undirected(g, a, b, c, w)[a][b]),
        undirected(g, a, b, c, w).contains_key(b),
        undirected(g, a, b, c, w)[b].contains_key(a),
        undirected(g, a, b, c, w)[b][a] == w,
{
}

/// After a directed edge `a -> b` is added to an empty graph, with `a` and
/// `b` distinct, `b` is a vertex with no outgoing edges.
pub proof fn lemma_directed_no_reverse<E>(a: u64, b: u64, w: E)
    requires
        a != b,
    ensures
        directed(Map::<u64, Map<u64, E>>::empty(), a, b, w).contains_key(b),
        directed(Map::<u64, Map<u64, E>>::empty(), a, b, w)[b] == Map::<u64, E>::empty(),
{
}

/// Setting the outgoing edges of `v` twice keeps only the second set.
pub proof fn lemma_directed_edges_overwrite<E>(g: Graph<E>, v: u64, e1: Map<u64, E>, e2: Map<u64, E>)
    ensures
        g.insert(v, e1).insert(v, e2)[v] == e2,
{
}

/// Toggling a vertex twice with the same edges leaves it present exactly
/// where it was present before.
pub proof fn lemma_toggle_twice<E>(g: Graph<E>, v: u64, es: Map<u64, E>)
    ensures
        toggled(toggled(g, v, es), v, es).contains_key(v) == g.contains_key(v),
{
}

/// After `v` is removed, no vertex that `v` had an edge to keeps an edge to
/// `v`; a vertex with an edge to `v` that `v` had no edge to keeps it.
pub proof fn lemma_remove_cleanup<E>(g: Graph<E>, v: u64, n: u64, c: u64)
    ensures
        removed(g, v).contains_key(n) && edges_of(g, v).contains_key(n) ==> !removed(
            g,
            v,
        )[n].contains_key(v),
        g.contains_key(c) && c != v && !edges_of(g, v).contains_key(c) && g[c].contains_key(v)
            ==> removed(g, v).contains_key(c) && removed(g, v)[c].contains_key(v)
            && removed(g, v)[c][v] == g[c][v],
{
}

/// The number of line breaks in `s`.
pub open spec fn line_breaks(s: Seq<char>) -> nat
    decreases s.len(),
{
    if s.len() == 0 {
        0
    } else {
        line_breaks(s.drop_last()) + if s.last() == '\n' {
            1nat
        } else {
            0nat
        }
    }
}

/// The number of stored edges from each of `vs`, summed.
pub open spec fn edge_total<E>(g: Graph<E>, vs: Seq<u64>) -> nat
    decreases vs.len(),
{
    if vs.len() == 0 {
        0
    } else {
        edge_total(g, vs.drop_last()) + g[vs.last()].len()
    }
}

/// Line breaks add up over a concatenation.
pub proof fn lemma_line_breaks_add(a: Seq<char>, b: Seq<char>)
    ensures
        line_breaks(a + b) == line_breaks(a) + line_breaks(b),
    decreases b.len(),
{
    if b.len() == 0 {
        assert(a + b =~= a);
    } else {
        assert((a + b).drop_last() =~= a + b.drop_last());
        lemma_line_breaks_add(a, b.drop_last());
    }
}

/// A number's decimal notation holds no line break.
pub proof fn lemma_decimal_one_line(n: nat)
    ensures
        line_breaks(decimal(n)) == 0,
    decreases n,
{
    reveal_with_fuel(line_breaks, 2);
    if n < 10 {
        assert(seq![digit_char(n)].drop_last() =~= Seq::<char>::empty());
    } else {
        lemma_decimal_one_line(n / 10);
        assert(decimal(n).drop_last() =~= decimal(n / 10));
    }
}

/// Each edge line holds exactly one line break.
pub proof fn lemma_edge_line_breaks<E>(g: Graph<E>, v: u64, n: u64)
    ensures
        line_breaks(edge_line(g, v, n)) == 1,
{
    reveal_with_fuel(line_breaks, 6);
    lemma_decimal_one_line(v as nat);
    lemma_decimal_one_line(n as nat);
    let s1 = line_start() + decimal(v as nat);
    let s2 = s1 + seq![' '];
    let s3 = s2 + connector(g, v, n);
    let s4 = s3 + seq![' '];
    lemma_line_breaks_add(line_start(), decimal(v as nat));
    lemma_line_breaks_add(s1, seq![' ']);
    lemma_line_breaks_add(s2, connector(g, v, n));
    lemma_line_breaks_add(s3, seq![' ']);
    lemma_line_breaks_add(s4, decimal(n as nat));
}

/// The lines of a vertex's edges to `ns` are one per element of `ns`.
pub proof fn lemma_vertex_lines_breaks<E>(g: Graph<E>, v: u64, ns: Seq<u64>)
    ensures
        line_breaks(vertex_lines(g, v, ns)) == ns.len(),
    decreases ns.len(),
{
    if ns.len() > 0 {
        lemma_vertex_lines_breaks(g, v, ns.drop_last());
        lemma_edge_line_breaks(g, v, ns.last());
        lemma_line_breaks_add(vertex_lines(g, v, ns.drop_last()), edge_line(g, v, ns.last()));
    }
}

/// The export of a stored graph holds one line per stored edge entry (after
/// the header): as many line breaks as the vertices' outgoing edge sets have
/// entries in all, each vertex counted once.
pub proof fn lemma_mermaid_line_count<E>(l: &AdjacencyList<E>)
    ensures
        line_breaks(mermaid(l@)) == edge_total(l@, ordered(l@.dom())),
        ordered(l@.dom()).no_duplicates(),
        ordered(l@.dom()).to_set() == l@.dom(),
{
    let g = l@;
    lemma_map_keys_ordered(&l.hash_map);
    assert(g.dom() == l.hash_map@.dom());
    let vs = ordered(g.dom());
    assert forall|k: int| 0 <= k <= vs.len() implies line_breaks(graph_lines(g, #[trigger] vs.subrange(0, k)))
        == edge_total(g, vs.subrange(0, k)) by {
        lemma_graph_lines_breaks(l, vs, k);
    }
    assert(vs.subrange(0, vs.len() as int) =~= vs);
    lemma_line_breaks_add(header(), graph_lines(g, vs));
    lemma_header_one_line();
    assert(vs.no_duplicates());
}

/// The header holds no line break.
proof fn lemma_header_one_line()
    ensures
        line_breaks(header()) == 0,
{
    reveal_with_fuel(line_breaks, 13);
}

/// The line count of the export, over the first `k` vertices.
proof fn lemma_graph_lines_breaks<E>(l: &AdjacencyList<E>, vs: Seq<u64>, k: int)
    requires
        vs == ordered(l@.dom()),
        vs.to_set() == l@.dom(),
        0 <= k <= vs.len(),
    ensures
        line_breaks(graph_lines(l@, vs.subrange(0, k))) == edge_total(l@, vs.subrange(0, k)),
    decreases k,
{
    let g = l@;
    if k > 0 {
        let pre = vs.subrange(0, k);
        assert(pre.drop_last() =~= vs.subrange(0, k - 1));
        lemma_graph_lines_breaks(l, vs, k - 1);
        let v = vs[k - 1];
        assert(vs.to_set().contains(v));
        let inner = l.hash_map@[v];
        lemma_map_keys_ordered(&inner);
        assert(g[v] == inner@);
        lemma_vertex_lines_breaks(g, v, ordered(g[v].dom()));
        lemma_line_breaks_add(graph_lines(g, pre.drop_last()), vertex_lines(g, v, ordered(g[v].dom())));
    }
}

} // verus!
