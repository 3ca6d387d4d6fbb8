//! The outcome of checking the sovereign laws before reasoning is wired in.

use vstd::prelude::*;

verus! {

/// The result of the law check.
#[derive(Debug, Clone, Copy, PartialEq, Eq, Structural)]
pub enum QuantumLawCheck {
    Passed,
    ViolatedPurity,
    ViolatedAuthority,
}

impl QuantumLawCheck {
    pub open spec fn label_spec(self) -> Seq<char> {
        match self {
            QuantumLawCheck::Passed => "LAWS_PASSED"@,
            QuantumLawCheck::ViolatedPurity => "VIOLATED_REASONING_PURITY"@,
            QuantumLawCheck::ViolatedAuthority => "VIOLATED_MODULE_AUTHORITY"@,
        }
    }

    pub fn label(self) -> (r: &'static str)
        ensures
            r@ == self.label_spec(),
    {
        match self {
            QuantumLawCheck::Passed => "LAWS_PASSED",
            QuantumLawCheck::ViolatedPurity => "VIOLATED_REASONING_PURITY",
            QuantumLawCheck::ViolatedAuthority => "VIOLATED_MODULE_AUTHORITY",
        }
    }

    pub fn is_passed(self) -> (r: bool)
        ensures
            r == (self == QuantumLawCheck::Passed),
    {
        match self {
            QuantumLawCheck::Passed => true,
            _ => false,
        }
    }
}

/// The outcome of the law check from the two observations it combines:
/// reasoning purity (ephemeral allowed and persistent refused) and module authority.
pub open spec fn law_check_spec(purity_ok: bool, authority_ok: bool) -> QuantumLawCheck {
    if !purity_ok {
        QuantumLawCheck::ViolatedPurity
    } else if !authority_ok {
        QuantumLawCheck::ViolatedAuthority
    } else {
        QuantumLawCheck::Passed
    }
}

pub struct Phase9Integration;

impl Phase9Integration {
    /// Combines the purity and authority observations; purity is checked first.
    pub fn combine_law_checks(purity_ephemeral: bool, purity_persistent: bool, authority_ok: bool) -> (r: QuantumLawCheck)
        ensures
            r == law_check_spec(purity_ephemeral && !purity_persistent, authority_ok),
    {
        let purity_ok = purity_ephemeral && !purity_persistent;
        match (purity_ok, authority_ok) {
            (false, _) => QuantumLawCheck::ViolatedPurity,
            (true, false) => QuantumLawCheck::ViolatedAuthority,
            (true, true) => QuantumLawCheck::Passed,
        }
    }
}

} // verus!
