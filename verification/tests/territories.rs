use quantum_core::reasoning::territories::{ContradictionPolicy, EliminationMode, ReasoningTerritories};

fn share(hundredths: u32) -> f32 {
    hundredths as f32 / 100.0
}

#[test]
fn science_is_conservative_scientific() {
    let t = ReasoningTerritories::get("science");
    assert_eq!(t.elimination_mode, EliminationMode::Conservative);
    assert_eq!(t.min_candidates, 5);
    assert_eq!(share(t.weights.scientific), 0.40);
    assert!(t.scientific_required);
    assert_eq!(t.contradiction_policy, ContradictionPolicy::Strict);
}

#[test]
fn industrial_is_aggressive() {
    let t = ReasoningTerritories::get("industrial");
    assert_eq!(t.elimination_mode, EliminationMode::Aggressive);
    assert_eq!(t.min_candidates, 2);
    assert_eq!(share(t.weights.logical), 0.35);
    assert_eq!(t.contradiction_policy, ContradictionPolicy::Reject);
}

#[test]
fn semantic_is_diverse() {
    let t = ReasoningTerritories::get("semantic");
    assert_eq!(t.elimination_mode, EliminationMode::Diverse);
    assert_eq!(share(t.weights.semantic), 0.40);
    assert_eq!(t.contradiction_policy, ContradictionPolicy::AllowWithScore);
}

#[test]
fn unknown_domain_gets_default() {
    let t = ReasoningTerritories::get("quantum_physics_xyz");
    assert_eq!(t.name, "default");
    assert_eq!(t.min_candidates, 3);
}

#[test]
fn helper_accessors() {
    assert_eq!(ReasoningTerritories::min_candidates("science"), 5);
    assert!(ReasoningTerritories::requires_science("science"));
    assert!(!ReasoningTerritories::requires_science("industrial"));
    assert_eq!(ReasoningTerritories::elimination_mode("industrial"), EliminationMode::Aggressive);
}

#[test]
fn every_territory_weighs_a_whole() {
    for d in ["science", "industrial", "semantic", "medical", "anything"] {
        let w = ReasoningTerritories::weights(d);
        assert_eq!(w.logical + w.scientific + w.stability + w.semantic + w.coherence + w.entropy, 100);
    }
}
