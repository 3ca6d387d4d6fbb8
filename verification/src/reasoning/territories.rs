//! Each domain reasons with its own discipline: elimination mode, minimum
//! number of candidates, score weights, contradiction policy and lineage depth.
//! Weights are fixed-point hundredths (`40` stands for `0.40`).

use vstd::prelude::*;
use crate::text::str_eq;

verus! {

#[derive(Debug, Clone, Copy, PartialEq, Eq, Structural)]
pub enum EliminationMode {
    Conservative,
    Aggressive,
    Diverse,
}

impl EliminationMode {
    pub open spec fn label_spec(self) -> Seq<char> {
        match self {
            EliminationMode::Conservative => "CONSERVATIVE"@,
            EliminationMode::Aggressive => "AGGRESSIVE"@,
            EliminationMode::Diverse => "DIVERSE"@,
        }
    }

    pub fn label(self) -> (r: &'static str)
        ensures
            r@ == self.label_spec(),
    {
        match self {
            EliminationMode::Conservative => "CONSERVATIVE",
            EliminationMode::Aggressive => "AGGRESSIVE",
            EliminationMode::Diverse => "DIVERSE",
        }
    }
}

#[derive(Debug, Clone, Copy, PartialEq, Eq, Structural)]
pub enum ContradictionPolicy {
    Strict,
    Reject,
    AllowWithScore,
    Warn,
}

impl ContradictionPolicy {
    pub open spec fn label_spec(self) -> Seq<char> {
        match self {
            ContradictionPolicy::Strict => "STRICT"@,
            ContradictionPolicy::Reject => "REJECT"@,
            ContradictionPolicy::AllowWithScore => "ALLOW_WITH_SCORE"@,
            ContradictionPolicy::Warn => "WARN"@,
        }
    }

    pub fn label(self) -> (r: &'static str)
        ensures
            r@ == self.label_spec(),
    {
        match self {
            ContradictionPolicy::Strict => "STRICT",
            ContradictionPolicy::Reject => "REJECT",
            ContradictionPolicy::AllowWithScore => "ALLOW_WITH_SCORE",
            ContradictionPolicy::Warn => "WARN",
        }
    }
}

/// Score weights in hundredths.
#[derive(Debug, Clone, Copy, PartialEq, Eq, Structural)]
pub struct Weights {
    pub logical: u32,
    pub scientific: u32,
    pub stability: u32,
    pub semantic: u32,
    pub coherence: u32,
    pub entropy: u32,
}

impl Weights {
    /// The weights of a domain without a discipline of its own.
    pub open spec fn default_spec() -> Weights {
        Weights { logical: 25, scientific: 20, stability: 20, semantic: 15, coherence: 15, entropy: 5 }
    }

    pub fn default_weights() -> (r: Weights)
        ensures
            r == Weights::default_spec(),
    {
        Weights { logical: 25, scientific: 20, stability: 20, semantic: 15, coherence: 15, entropy: 5 }
    }
}

/// The discipline of one domain.
#[derive(Debug, Clone, Copy)]
pub struct Territory {
    pub name: &'static str,
    pub elimination_mode: EliminationMode,
    pub min_candidates: u32,
    pub weights: Weights,
    pub contradiction_policy: ContradictionPolicy,
    pub scientific_required: bool,
    pub lineage_depth: u32,
}

/// Which discipline a domain name selects.
#[derive(Debug, Clone, Copy, PartialEq, Eq, Structural)]
pub enum Domain {
    Science,
    Industrial,
    Semantic,
    Logistics,
    Other,
}

pub open spec fn domain_of(d: Seq<char>) -> Domain {
    if d == "science"@ {
        Domain::Science
    } else if d == "industrial"@ {
        Domain::Industrial
    } else if d == "semantic"@ {
        Domain::Semantic
    } else if d == "logistics"@ {
        Domain::Logistics
    } else {
        Domain::Other
    }
}

/// The name, mode, minimum, policy, science requirement and lineage depth of a discipline.
pub open spec fn discipline(d: Domain) -> (Seq<char>, EliminationMode, u32, ContradictionPolicy, bool, u32) {
    match d {
        Domain::Science => ("science"@, EliminationMode::Conservative, 5, ContradictionPolicy::Strict, true, 10),
        Domain::Industrial => ("industrial"@, EliminationMode::Aggressive, 2, ContradictionPolicy::Reject, false, 5),
        Domain::Semantic => ("semantic"@, EliminationMode::Diverse, 3, ContradictionPolicy::AllowWithScore, false, 5),
        Domain::Logistics => ("logistics"@, EliminationMode::Conservative, 3, ContradictionPolicy::Warn, false, 5),
        Domain::Other => ("default"@, EliminationMode::Conservative, 3, ContradictionPolicy::Warn, false, 5),
    }
}

/// The weights of a discipline.
pub open spec fn discipline_weights(d: Domain) -> Weights {
    match d {
        Domain::Science => Weights { logical: 25, scientific: 40, stability: 20, semantic: 10, coherence: 3, entropy: 2 },
        Domain::Industrial => Weights { logical: 35, scientific: 15, stability: 30, semantic: 10, coherence: 7, entropy: 3 },
        Domain::Semantic => Weights { logical: 15, scientific: 10, stability: 10, semantic: 40, coherence: 25, entropy: 0 },
        Domain::Logistics => Weights { logical: 30, scientific: 20, stability: 30, semantic: 7, coherence: 10, entropy: 3 },
        Domain::Other => Weights::default_spec(),
    }
}

/// `t` is the discipline of domain `d`.
pub open spec fn is_discipline(t: Territory, d: Domain) -> bool {
    let (name, mode, min, policy, science, depth) = discipline(d);
    &&& t.name@ == name
    &&& t.elimination_mode == mode
    &&& t.min_candidates == min
    &&& t.weights == discipline_weights(d)
    &&& t.contradiction_policy == policy
    &&& t.scientific_required == science
    &&& t.lineage_depth == depth
}

pub struct ReasoningTerritories;

impl ReasoningTerritories {
    /// The territory of a domain; unknown domains get the default discipline.
    pub fn get(domain: &str) -> (r: Territory)
        ensures
            is_discipline(r, domain_of(domain@)),
    {
        if str_eq(domain, "science") {
            Territory {
                name: "science",
                elimination_mode: EliminationMode::Conservative,
                min_candidates: 5,
                weights: Weights { logical: 25, scientific: 40, stability: 20, semantic: 10, coherence: 3, entropy: 2 },
                contradiction_policy: ContradictionPolicy::Strict,
                scientific_required: true,
                lineage_depth: 10,
            }
        } else if str_eq(domain, "industrial") {
            Territory {
                name: "industrial",
                elimination_mode: EliminationMode::Aggressive,
                min_candidates: 2,
                weights: Weights { logical: 35, scientific: 15, stability: 30, semantic: 10, coherence: 7, entropy: 3 },
                contradiction_policy: ContradictionPolicy::Reject,
                scientific_required: false,
                lineage_depth: 5,
            }
        } else if str_eq(domain, "semantic") {
            Territory {
                name: "semantic",
                elimination_mode: EliminationMode::Diverse,
                min_candidates: 3,
                weights: Weights { logical: 15, scientific: 10, stability: 10, semantic: 40, coherence: 25, entropy: 0 },
                contradiction_policy: ContradictionPolicy::AllowWithScore,
                scientific_required: false,
                lineage_depth: 5,
            }
        } else if str_eq(domain, "logistics") {
            Territory {
                name: "logistics",
                elimination_mode: EliminationMode::Conservative,
                min_candidates: 3,
                weights: Weights { logical: 30, scientific: 20, stability: 30, semantic: 7, coherence: 10, entropy: 3 },
                contradiction_policy: ContradictionPolicy::Warn,
                scientific_required: false,
                lineage_depth: 5,
            }
        } else {
            Territory {
                name: "default",
                elimination_mode: EliminationMode::Conservative,
                min_candidates: 3,
                weights: Weights::default_weights(),
                contradiction_policy: ContradictionPolicy::Warn,
                scientific_required: false,
                lineage_depth: 5,
            }
        }
    }

    pub fn elimination_mode(domain: &str) -> (r: EliminationMode)
        ensures
            r == discipline(domain_of(domain@)).1,
    {
        Self::get(domain).elimination_mode
    }

    pub fn min_candidates(domain: &str) -> (r: u32)
        ensures
            r == discipline(domain_of(domain@)).2,
    {
        Self::get(domain).min_candidates
    }

    pub fn requires_science(domain: &str) -> (r: bool)
        ensures
            r == discipline(domain_of(domain@)).4,
    {
        Self::get(domain).scientific_required
    }

    pub fn weights(domain: &str) -> (r: Weights)
        ensures
            r == discipline_weights(domain_of(domain@)),
    {
        Self::get(domain).weights
    }
}

/// Every discipline's weights add up to one whole (100 hundredths).
pub proof fn lemma_weights_are_whole(d: Domain)
    ensures
        ({
            let w = discipline_weights(d);
            w.logical + w.scientific + w.stability + w.semantic + w.coherence + w.entropy == 100
        }),
{
}

} // verus!
