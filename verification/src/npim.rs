//! What negative packaging suggests to the verdict authority.

use vstd::prelude::*;

verus! {

#[derive(Debug, Clone, Copy, PartialEq, Eq, Structural)]
pub enum NegativeSuggestion {
    ConfirmNegative,
    HoldNegative,
    WeakElimination,
}

impl NegativeSuggestion {
    pub open spec fn label_spec(self) -> Seq<char> {
        match self {
            NegativeSuggestion::ConfirmNegative => "CONFIRM_NEGATIVE"@,
            NegativeSuggestion::HoldNegative => "HOLD_NEGATIVE"@,
            NegativeSuggestion::WeakElimination => "WEAK_ELIMINATION"@,
        }
    }

    pub fn label(self) -> (r: &'static str)
        ensures
            r@ == self.label_spec(),
    {
        match self {
            NegativeSuggestion::ConfirmNegative => "CONFIRM_NEGATIVE",
            NegativeSuggestion::HoldNegative => "HOLD_NEGATIVE",
            NegativeSuggestion::WeakElimination => "WEAK_ELIMINATION",
        }
    }
}

} // verus!
