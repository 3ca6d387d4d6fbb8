use quantum_core::progressive_debatic::runtime::mode_for_territory;
use quantum_core::progressive_debatic::engine::{build_package, ProgressiveDebatic};
use quantum_core::progressive_debatic::genius_detector::{
    check_concept_gaining_shape, check_energy_increasing, check_returns_to_idea, compute_trend, mean, GeniusDetector,
    MASS_SCALE,
};
use quantum_core::progressive_debatic::types::{
    pd_id, DebateMode, EpistemicTrace, GeniusSignal, PdEngineOutput, PdError, PdResponseType, PressureBudget, PD_SEAL,
};
use quantum_core::words::tokenize;
use quantum_core::pd_continuum_contract::PdContinuumBasis;
use quantum_core::progressive_debatic::runtime::{continuum_basis, output_question};
use quantum_core::progressive_debatic::types::{CognitiveSignal, PdContinuationBasis};
use quantum_core::progressive_debatic::engine::update_trace;

fn excavation_trace() -> EpistemicTrace {
    let mut pd = ProgressiveDebatic::new();
    pd.open_session("sess-genius", "science", DebateMode::Philosophy, 1000);
    pd.ingest("sess-genius", "elimination reduces the candidate space", 1001).ok();
    pd.ingest("sess-genius", "again elimination removes wrong inputs and outputs here", 1002).ok();
    pd.ingest("sess-genius", "bidirectional elimination keeps only the matching pair which proves it", 1003).ok();
    pd.ingest("sess-genius", "so elimination is the operator and the decision becomes binary zero or one truly", 1004).ok();
    pd.session("sess-genius").expect("session").trace.clone()
}

#[test]
fn pd_id_is_deterministic_and_12_hex() {
    let a = pd_id(&[b"sess", b"trace"]);
    let b = pd_id(&[b"sess", b"trace"]);
    assert_eq!(a, b);
    assert_eq!(a.len(), 12);
    assert!(a.chars().all(|c| c.is_ascii_hexdigit()));
}

#[test]
fn budget_max_matches_mode() {
    assert_eq!(PressureBudget::max_for(DebateMode::Intellect), 2);
    assert_eq!(PressureBudget::max_for(DebateMode::Philosophy), 3);
    assert_eq!(PressureBudget::max_for(DebateMode::Scientific), 4);
    assert_eq!(PressureBudget::max_for(DebateMode::Novel), 2);
}

#[test]
fn response_challenge_classification() {
    assert!(PdResponseType::ChallengeGentle.is_challenge());
    assert!(PdResponseType::ChallengeWithFacts.is_challenge());
    assert!(!PdResponseType::Help.is_challenge());
    assert!(!PdResponseType::Listen.is_challenge());
}

#[test]
fn seal_is_deterministic_nonzero() {
    assert_ne!(PD_SEAL, 0);
    let again = PD_SEAL;
    assert_eq!(PD_SEAL, again);
}

#[test]
fn helpers_are_deterministic() {
    assert_eq!(tokenize("Hello, World! 42"), vec!["hello", "world", "42"]);
    assert_eq!(mean(&[1_000, 2_000, 3_000]), 2_000);
    assert_eq!(mean(&[]), 0);
    assert!(compute_trend(&[1_000, 2_000, 3_000, 4_000]) > 0);
    assert!(compute_trend(&[4_000, 3_000, 2_000, 1_000]) < 0);
    assert_eq!(compute_trend(&[5_000]), 0);
}

#[test]
fn no_genius_before_min_turns() {
    let mut pd = ProgressiveDebatic::new();
    pd.open_session("s1", "science", DebateMode::Philosophy, 0);
    pd.ingest("s1", "single message only", 1).ok();
    let trace = pd.session("s1").expect("session").trace.clone();
    assert!(GeniusDetector::default().evaluate(&trace).is_none());
}

#[test]
fn genius_signals_use_fixed_mass() {
    let trace = excavation_trace();
    let (returns_active, returns_mass) = check_returns_to_idea(&trace);
    let (energy_active, energy_mass) = check_energy_increasing(&trace);
    let (shape_active, shape_mass) = check_concept_gaining_shape(&trace);
    let active = [returns_active, energy_active, shape_active].iter().filter(|&&value| value).count();
    assert!(active >= 1);
    assert!(returns_mass <= MASS_SCALE);
    assert!(energy_mass <= MASS_SCALE);
    assert!(shape_mass <= MASS_SCALE);
}

#[test]
fn pd_runtime_rejects_wrong_seal_before_session_mutation() {
    let mut pd = ProgressiveDebatic::new();
    let wrong = PD_SEAL ^ 0x01;
    let result = pd.open_session_sealed("sealed", "science", DebateMode::Intellect, 1, wrong);
    assert!(matches!(result, Err(PdError::SealInvalid(_))));
    assert!(pd.session("sealed").is_none());
}

#[test]
fn pd_runtime_accepts_canonical_seal_and_ingests() {
    let mut pd = ProgressiveDebatic::new();
    assert!(pd.open_session_sealed("sealed", "science", DebateMode::Intellect, 1, PD_SEAL).is_ok());
    assert!(pd.ingest_sealed("sealed", "deterministic elimination preserves meaning", 2, PD_SEAL).is_ok());
}

#[test]
fn pd_runtime_rejects_wrong_ingest_seal_before_trace_mutation() {
    let mut pd = ProgressiveDebatic::new();
    assert!(pd.open_session_sealed("sealed", "science", DebateMode::Intellect, 1, PD_SEAL).is_ok());
    let wrong = PD_SEAL ^ 0x01;
    let result = pd.ingest_sealed("sealed", "this must never enter the epistemic trace", 2, wrong);
    assert!(matches!(result, Err(PdError::SealInvalid(_))));
    assert_eq!(pd.session("sealed").map(|s| s.trace.total_turns), Some(0));
}

#[test]
fn session_not_found_is_fail_closed() {
    let mut pd = ProgressiveDebatic::new();
    let r = pd.ingest("missing", "hello", 1);
    assert!(matches!(r, Err(PdError::SessionNotFound(ref session_id)) if session_id == "missing"));
}

#[test]
fn returns_detected_on_concept_reuse() {
    let mut pd = ProgressiveDebatic::new();
    pd.open_session("s", "science", DebateMode::Philosophy, 0);
    pd.ingest("s", "elimination shapes the space", 1).ok();
    pd.ingest("s", "elimination again proves the pair", 2).ok();
    let t = &pd.session("s").unwrap().trace;
    assert!(t.signals[1].returns_to.iter().any(|c| c == "elimination"));
    assert!(t.implicit_primitives.iter().any(|c| c == "elimination"));
}

#[test]
fn dominant_concept_survives() {
    let mut pd = ProgressiveDebatic::new();
    pd.open_session("s", "science", DebateMode::Scientific, 0);
    pd.ingest("s", "elimination elimination matters", 1).ok();
    pd.ingest("s", "elimination removes noise", 2).ok();
    pd.ingest("s", "other random words appear", 3).ok();
    let t = &pd.session("s").unwrap().trace;
    assert_eq!(t.dominant_concept.as_deref(), Some("elimination"));
    assert!(t.structural_coherence > 0);
}

#[test]
fn contradiction_pair_recorded_on_negation() {
    let mut pd = ProgressiveDebatic::new();
    pd.open_session("s", "industrial", DebateMode::Scientific, 0);
    pd.ingest("s", "reactor stable under load", 1).ok();
    pd.ingest("s", "reactor not stable under load", 2).ok();
    let t = &pd.session("s").unwrap().trace;
    assert!(!t.contradiction_pairs.is_empty());
}

#[test]
fn package_estimated_trl_capped_at_two() {
    let mut pd = ProgressiveDebatic::new();
    pd.open_session("s", "science", DebateMode::Philosophy, 0);
    for i in 0..5 {
        pd.ingest("s", "elimination is the operator that proves the decision binary truly here now", i as u64 + 1).ok();
    }
    let sess = pd.session("s").unwrap().clone();
    let g = GeniusSignal {
        signal_id: "x".into(),
        session_id: "s".into(),
        returns_to_idea: true,
        energy_increasing: true,
        concept_gaining_shape: true,
        returns_score: 8_000,
        energy_score: 7_000,
        shape_score: 7_000,
        genius_score: 7_500,
        detected_concept: "elimination".into(),
        detected_at_turn: 5,
        trace_ref: sess.trace.trace_id.clone(),
        timestamp: 6,
    };
    let pkg = build_package(&sess, &g);
    assert!(pkg.estimated_trl <= 2);
    assert_eq!(pkg.origin, "PROGRESSIVE_DEBATIC");
    assert_eq!(pkg.pre_classification.suggested_category, "Hypothesis");
    assert!(pkg.pre_classification.confidence_hint <= 7_000);
}

#[test]
fn wrong_seal_message_names_the_difference() {
    let mut pd = ProgressiveDebatic::new();
    let r = pd.open_session_sealed("s", "science", DebateMode::Novel, 1, PD_SEAL ^ 0xFF);
    match r {
        Err(e) => {
            assert_eq!(e, PdError::SealInvalid("delta=0x00000000000000FF".to_string()));
            assert_eq!(e.message(), "PD seal invalid: delta=0x00000000000000FF");
        }
        Ok(_) => panic!("a wrong seal must be refused"),
    }
}

#[test]
fn first_message_extracts_sorted_concepts_and_energy() {
    let mut pd = ProgressiveDebatic::new();
    pd.open_session("s", "science", DebateMode::Intellect, 0);
    let out = pd.ingest("s", "Zeta alpha, alpha beta!", 7).unwrap();
    let t = &pd.session("s").unwrap().trace;
    let sig = &t.signals[0];
    assert_eq!(sig.concept_refs, vec!["alpha", "beta", "zeta"]);
    assert!(sig.returns_to.is_empty());
    assert!(sig.contradicts.is_empty());
    assert_eq!(sig.content_length, 23);
    assert_eq!(sig.idea_density, 7_500);
    // length 23/160 → 1437; one mark of three → 3333; (1437*8000 + 3333*2000)/10000 = 1816
    assert_eq!(sig.energy_level, 1_816);
    assert_eq!(t.total_turns, 1);
    assert_eq!(t.concept_map.len(), 3);
    assert_eq!(t.last_updated_at, 7);
    match out {
        PdEngineOutput::Continue { turn } => {
            // The accumulated mass (7500) already saturates: the layer listens.
            assert_eq!(turn.pd_response_type, PdResponseType::Listen);
            assert_eq!(turn.turn_index, 0);
        }
        _ => panic!("first message continues"),
    }
}

#[test]
fn challenges_exhaust_the_budget() {
    let mut pd = ProgressiveDebatic::new();
    pd.open_session("s", "science", DebateMode::Intellect, 0);
    let first = pd.ingest("s", "load load load load not", 1).unwrap();
    assert!(matches!(first, PdEngineOutput::Continue { .. }));
    let second = pd.ingest("s", "load load load load never", 2).unwrap();
    assert!(matches!(second, PdEngineOutput::BudgetExhausted { .. }));
    let s = pd.session("s").unwrap();
    assert_eq!(s.pressure_budget.challenges_issued, 2);
    assert!(s.pressure_budget.budget_exhausted);
}

#[test]
fn exhausted_budget_only_listens() {
    let mut pd = ProgressiveDebatic::new();
    pd.open_session("s", "science", DebateMode::Intellect, 0);
    pd.ingest("s", "load load load load not", 1).unwrap();
    pd.ingest("s", "load load load load never", 2).unwrap();
    let third = pd.ingest("s", "load load load load never", 3).unwrap();
    assert!(matches!(third, PdEngineOutput::BudgetExhausted { .. }));
    let s = pd.session("s").unwrap();
    assert_eq!(s.pressure_budget.challenges_issued, 2);
    assert_eq!(s.turns[2].pd_response_type, PdResponseType::Listen);
    assert!(!s.turns[2].challenge_issued);
}

#[test]
fn output_question_follows_the_output() {
    let exhausted = PdEngineOutput::BudgetExhausted { trace_id: "t".to_string() };
    assert_eq!(output_question(&exhausted), (String::new(), "BUDGET_EXHAUSTED"));
    let mut pd = ProgressiveDebatic::new();
    pd.open_session("s", "science", DebateMode::Intellect, 0);
    let out = pd.ingest("s", "load load load load not", 1).unwrap();
    let (q, kind) = output_question(&out);
    assert_eq!(kind, "CHALLENGE_GENTLE");
    assert_eq!(q, "Vërej një kundërthënie rreth «load» — cila anë qëndron dhe pse?");
    assert_eq!(continuum_basis(PdContinuationBasis::VerifiedNegativeRebuild), PdContinuumBasis::VerifiedNegativeRebuild);
}

#[test]
fn repeated_concepts_are_each_counted() {
    let mut t = EpistemicTrace::new("s", "science", 0);
    let sig = CognitiveSignal {
        signal_id: "x".to_string(),
        turn_index: 0,
        raw_content: "loop loop".to_string(),
        content_length: 9,
        idea_density: 20_000,
        energy_level: 0,
        concept_refs: vec!["loop".to_string(), "loop".to_string()],
        contradicts: vec![],
        returns_to: vec![],
        timestamp: 5,
    };
    update_trace(&mut t, &sig);
    assert_eq!(t.concept_map, vec![("loop".to_string(), 2)]);
    assert_eq!(t.implicit_primitives, vec!["loop"]);
    assert_eq!(t.total_turns, 1);
    assert_eq!(t.last_updated_at, 5);
}

#[test]
fn opening_mode_follows_the_declared_territory() {
    assert_eq!(mode_for_territory("  Philosophy "), DebateMode::Philosophy);
    assert_eq!(mode_for_territory("philosophical"), DebateMode::Philosophy);
    assert_eq!(mode_for_territory("RESEARCH"), DebateMode::Scientific);
    assert_eq!(mode_for_territory("science"), DebateMode::Scientific);
    assert_eq!(mode_for_territory("novel ideas"), DebateMode::Intellect);
}
