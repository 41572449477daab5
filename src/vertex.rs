use vstd::prelude::*;

verus! {

/// The identity of a vertex: a label used as the key of every lookup.
#[derive(Clone, Copy, Debug, PartialEq, Eq, PartialOrd, Ord, Hash)]
pub struct Vertex {
    pub name: u64,
}

impl Vertex {
    /// Wraps a label.
    pub fn new(name: u64) -> (r: Self)
        ensures
            r.name == name,
    {
        Vertex { name }
    }
}

impl Default for Vertex {
    /// The vertex labelled zero.
    fn default() -> (r: Self)
        ensures
            r.name == 0,
    {
        Vertex { name: 0 }
    }
}

} // verus!
