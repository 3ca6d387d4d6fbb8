//! The progressive debatic layer: a cognitive excavation engine that reads
//! the signals of a session into an epistemic trace, decides its response
//! under a pressure budget, and packages a genius signal when one appears.

pub mod types;
pub mod genius_detector;
pub mod engine;
pub mod runtime;
pub mod finalize;
