//! Memory contracts: the ephemeral/persistent boundary, the append-only
//! cognitive trace and the knowledge lineage consulted before reasoning.

pub mod boundary;
pub mod raw_cognitive_trace;
pub mod knowledge_lineage;
pub mod module_reputation;
