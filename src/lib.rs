//! Road-network graph model: ingestion of way and point primitives into a
//! vertex / edge / tag graph, with every step stated and proved.

pub mod graph;
pub mod ingest;
pub mod laws;

pub use graph::{Edge, Graph, Node, Primitive, Tag, Vertex, Way};
