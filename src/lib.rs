//! Node-graph evaluation engine of a procedural 2D graphics tool: the graph
//! model, pin and link invariants, the evaluation order of a graph, the node
//! catalog with its persisted records, and the timeline of graph blocks.
pub mod time;
pub mod node;
pub mod catalog;
pub mod timeline;
pub mod resolve;
pub mod codec;
pub mod fields;
