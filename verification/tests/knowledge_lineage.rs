use quantum_core::memory::knowledge_lineage::{KnowledgeLineage, NegativeEntry, OptimalEntry, PressureState};

#[test]
fn build_creates_context() {
    let opt = vec![OptimalEntry { trace_id: "CT_1".to_string(), convergence_path: vec!["PRO".to_string()] }];
    let neg = vec![NegativeEntry { cause: "bad path".to_string(), proposal_type: "t_bad".to_string(), consequence: "instability".to_string() }];
    let ctx = KnowledgeLineage::build("science", opt, neg);
    assert_eq!(ctx.lineage_depth, 2);
    assert_eq!(ctx.known_failures, vec!["bad path"]);
    assert_eq!(ctx.consequence_warnings, vec!["instability"]);
}

#[test]
fn pressure_hint_from_failures() {
    let neg: Vec<NegativeEntry> = (0..6)
        .map(|i| NegativeEntry { cause: format!("c{}", i), proposal_type: format!("t{}", i), consequence: "".to_string() })
        .collect();
    let ctx = KnowledgeLineage::build("sci", vec![], neg);
    assert_eq!(ctx.pressure_hint, PressureState::High);
}

#[test]
fn link_trace_ref_uses_best_optimal() {
    let opt = vec![OptimalEntry { trace_id: "CT_99".to_string(), convergence_path: vec![] }];
    let ctx = KnowledgeLineage::build("sci", opt, vec![]);
    assert_eq!(KnowledgeLineage::link_trace_ref(&ctx), "CT_99");
    let empty = KnowledgeLineage::build("sci", vec![], vec![]);
    assert_eq!(KnowledgeLineage::link_trace_ref(&empty), "");
}

#[test]
fn five_failures_stay_low_pressure() {
    let neg: Vec<NegativeEntry> = (0..5)
        .map(|i| NegativeEntry { cause: format!("c{}", i), proposal_type: format!("t{}", i), consequence: "".to_string() })
        .collect();
    let ctx = KnowledgeLineage::build("sci", vec![], neg);
    assert_eq!(ctx.pressure_hint, PressureState::Low);
    assert!(ctx.consequence_warnings.is_empty());
    assert_eq!(ctx.known_failures.len(), 5);
}

#[test]
fn optimal_path_and_known_failure_lookups() {
    let opt = vec![OptimalEntry { trace_id: "CT_1".to_string(), convergence_path: vec!["PRO".to_string()] }];
    let neg = vec![NegativeEntry { cause: "c".to_string(), proposal_type: "t_bad".to_string(), consequence: "".to_string() }];
    assert!(KnowledgeLineage::matches_optimal_path("PRO", &opt));
    assert!(!KnowledgeLineage::matches_optimal_path("X", &opt));
    assert!(KnowledgeLineage::is_known_failure("t_bad", &neg));
    assert!(!KnowledgeLineage::is_known_failure("t_new", &neg));
}
