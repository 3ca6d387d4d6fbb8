//! Verified core of the quantum reasoning platform: memory boundaries,
//! append-only cognitive traces, digest contracts and readiness pulses.

pub mod codec;
pub mod text;
pub mod assoc;
pub mod memory;
pub mod pd_continuum_contract;
pub mod sha;
pub mod living_trust_contract;
pub mod runtime_pulse;
pub mod reasoning;
pub mod lim_types;
pub mod phase9_integration;
pub mod npim;
pub mod pim;
pub mod pro_nk_gate;
pub mod project_workspace_router;
pub mod words;
pub mod progressive_debatic;
pub mod npro_lim_bridge;
pub mod collapse;
