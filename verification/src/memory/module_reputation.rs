//! The outcomes a module's reputation is built from.

use vstd::prelude::*;

verus! {

#[derive(Debug, Clone, Copy, PartialEq, Eq, Structural)]
pub enum RepOutcome {
    Success,
    Failure,
    Contradiction,
}

#[derive(Debug, Clone, Copy, PartialEq, Eq, Structural)]
pub enum ShadowResult {
    Approved,
    Rejected,
    Pending,
}

} // verus!
