//! Reasoning disciplines: per-domain territories, semantic relations and the
//! selection methods of convergence.

pub mod territories;
pub mod semantic_graph;
pub mod convergence;
