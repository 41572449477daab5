use std::collections::BTreeMap;
use vstd::prelude::*;
use vstd::std_specs::btree::{increasing_seq, spec_keys_iter};
use vstd::laws_cmp::obeys_cmp;
use vstd::std_specs::cmp::OrdSpec;
use vstd::std_specs::iter::IteratorSpec;

verus! {

broadcast use vstd::laws_cmp::group_laws_cmp, vstd::std_specs::btree::group_btree_axioms;

/// Every element is smaller than every later one.
pub open spec fn strictly_increasing(q: Seq<u64>) -> bool {
    forall|i: int, j: int| 0 <= i < j < q.len() ==> q[i] < q[j]
}

/// The elements of a finite set of labels, in ascending order.
pub open spec fn ordered(s: Set<u64>) -> Seq<u64> {
    choose|q: Seq<u64>| strictly_increasing(q) && q.to_set() == s
}

/// Two ascending sequences with the same elements are the same sequence.
pub proof fn lemma_increasing_unique(p: Seq<u64>, q: Seq<u64>)
    requires
        strictly_increasing(p),
        strictly_increasing(q),
        p.to_set() == q.to_set(),
    ensures
        p == q,
    decreases p.len(),
{
    if p.len() == 0 {
        if q.len() > 0 {
            assert(q.to_set().contains(q[0]));
        }
        assert(p =~= q);
    } else if q.len() == 0 {
        assert(p.to_set().contains(p[0]));
    } else {
        assert(q.to_set().contains(p[0]));
        assert(p.to_set().contains(q[0]));
        assert(p[0] == q[0]);
        let pt = p.drop_first();
        let qt = q.drop_first();
        assert forall|x: u64| pt.to_set().contains(x) <==> qt.to_set().contains(x) by {
            if pt.to_set().contains(x) {
                let i = choose|i: int| 0 <= i < pt.len() && pt[i] == x;
                assert(p[i + 1] == x);
                assert(p.to_set().contains(x));
                let j = choose|j: int| 0 <= j < q.len() && q[j] == x;
                assert(j != 0);
                assert(qt[j - 1] == x);
            }
            if qt.to_set().contains(x) {
                let i = choose|i: int| 0 <= i < qt.len() && qt[i] == x;
                assert(q[i + 1] == x);
                assert(q.to_set().contains(x));
                let j = choose|j: int| 0 <= j < p.len() && p[j] == x;
                assert(j != 0);
                assert(pt[j - 1] == x);
            }
        }
        assert(pt.to_set() =~= qt.to_set());
        lemma_increasing_unique(pt, qt);
        assert(p =~= seq![p[0]] + pt);
        assert(q =~= seq![q[0]] + qt);
    }
}

/// `ordered` is the one ascending sequence of the set's elements.
pub proof fn lemma_ordered(q: Seq<u64>, s: Set<u64>)
    requires
        strictly_increasing(q),
        q.to_set() == s,
    ensures
        ordered(s) == q,
{
    let o = ordered(s);
    assert(strictly_increasing(o) && o.to_set() == s);
    lemma_increasing_unique(o, q);
}

/// An ascending sequence holds no element twice, so it is as long as its set.
pub proof fn lemma_increasing_len(q: Seq<u64>)
    requires
        strictly_increasing(q),
    ensures
        q.to_set().len() == q.len(),
{
    assert(q.no_duplicates());
    q.unique_seq_to_set();
}

/// The keys of a stored map have an ascending order: `ordered` lists each of
/// them once, as the map's key iterator does.
pub proof fn lemma_map_keys_ordered<T>(m: &BTreeMap<u64, T>)
    ensures
        strictly_increasing(ordered(m@.dom())),
        ordered(m@.dom()).to_set() == m@.dom(),
        ordered(m@.dom()).len() == m@.dom().len(),
        ordered(m@.dom()) == spec_keys_iter(m).remaining().unref(),
{
    let ks = spec_keys_iter(m).remaining();
    let q = ks.unref();
    assert(q.to_set() == m@.dom());
    assert(increasing_seq(ks));
    assert(obeys_cmp::<u64>());
    assert(obeys_cmp::<&u64>());
    assert forall|i: int, j: int| 0 <= i < j < q.len() implies q[i] < q[j] by {
        assert(<&u64 as OrdSpec>::cmp_spec(&ks[i], &ks[j]) is Less);
    }
    lemma_ordered(q, m@.dom());
    lemma_increasing_len(q);
}

/// The keys of `m`, in ascending order.
pub fn sorted_keys<T>(m: &BTreeMap<u64, T>) -> (r: Vec<u64>)
    ensures
        r@ == ordered(m@.dom()),
        strictly_increasing(r@),
        r@.to_set() == m@.dom(),
        r@.len() == m@.dom().len(),
{
    let mut r: Vec<u64> = Vec::new();
    let ghost ks = spec_keys_iter(m).remaining();
    for k in it: m.keys()
        invariant
            it.seq() == ks,
            r@.len() == it.index(),
            forall|i: int| 0 <= i < r@.len() ==> r@[i] == *ks[i],
    {
        r.push(*k);
    }
    proof {
        assert(r@ =~= ks.unref());
        lemma_map_keys_ordered(m);
    }
    r
}

} // verus!
