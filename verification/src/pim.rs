//! What positive packaging suggests to the verdict authority (a suggestion,
//! never a directive).

use vstd::prelude::*;

verus! {

#[derive(Debug, Clone, Copy, PartialEq, Eq, Structural)]
pub enum SuggestedVerdict {
    ConsiderOptimal,
    HoldForTesting,
    ExploreFurther,
}

impl SuggestedVerdict {
    pub open spec fn label_spec(self) -> Seq<char> {
        match self {
            SuggestedVerdict::ConsiderOptimal => "CONSIDER_OPTIMAL"@,
            SuggestedVerdict::HoldForTesting => "HOLD_FOR_TESTING"@,
            SuggestedVerdict::ExploreFurther => "EXPLORE_FURTHER"@,
        }
    }

    pub fn label(&self) -> (r: &'static str)
        ensures
            r@ == self.label_spec(),
    {
        match self {
            SuggestedVerdict::ConsiderOptimal => "CONSIDER_OPTIMAL",
            SuggestedVerdict::HoldForTesting => "HOLD_FOR_TESTING",
            SuggestedVerdict::ExploreFurther => "EXPLORE_FURTHER",
        }
    }
}

/// One link of a proof chain: its source, its claim, and whether it can be checked.
#[derive(Debug, Clone)]
pub struct ProofLink {
    pub source: String,
    pub claim: String,
    pub verifiable: bool,
}

} // verus!
