//! A weighted adjacency-list graph over `u64` vertex labels, with directed and
//! undirected edge insertion, vertex removal and toggling, neighbour lookup and
//! a Mermaid flowchart export.
pub mod vertex;
pub mod graph;
pub mod keys;
pub mod text;
pub mod mermaid;
pub mod laws;
