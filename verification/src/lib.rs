//! Fixed-capacity graphs backed by a square adjacency matrix.
//!
//! Two parallel containers share one shape, a matrix of side SIZE fixed at
//! compile time: [`Graph`] keeps a presence flag per ordered vertex pair, and
//! [`WeightedGraph`] keeps an optional weight, whose presence alone encodes
//! that the edge exists. Vertices are the indices 0 .. SIZE; they are never
//! added or removed. The matrix is not kept symmetric: the undirected
//! operations are sugar that writes both (i, j) and (j, i).
//!
//! Every operation states in its contract how it changes or reads the matrix,
//! over the model in [`matrix`]: a sequence of rows. Traversal algorithms are
//! left to callers of the query operations.

pub mod graph;
pub mod matrix;
pub mod weighted_graph;

pub use crate::graph::Graph;
pub use crate::graph::GraphError;
pub use crate::weighted_graph::WeightedGraph;
