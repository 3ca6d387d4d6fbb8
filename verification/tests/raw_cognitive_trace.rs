use quantum_core::memory::raw_cognitive_trace::{EventType, Outcome, RawCognitiveTrace, ShadowVerdict};

fn rec(t: &mut RawCognitiveTrace, cycle: &str, outcome: Outcome, lineage: &str) -> String {
    t.record(cycle, "DETECT", "science", "LOW", EventType::Reasoning, "payload", "LIM", outcome, "", "", lineage)
}

#[test]
fn record_starts_raw_pending() {
    let mut t = RawCognitiveTrace::new();
    let id = rec(&mut t, "c1", Outcome::Success, "");
    let trace = t.find_by_id(&id).unwrap();
    assert_eq!(trace.shadow_verdict, ShadowVerdict::RawPending);
}

#[test]
fn only_shadow_sets_verdict() {
    let mut t = RawCognitiveTrace::new();
    let id = rec(&mut t, "c1", Outcome::Success, "");
    assert!(!t.set_verdict(&id, ShadowVerdict::VerifiedOptimal, "QuantumReasoner"));
    assert_eq!(t.find_by_id(&id).unwrap().shadow_verdict, ShadowVerdict::RawPending);
    assert!(t.set_verdict(&id, ShadowVerdict::VerifiedOptimal, "shadow_gj_legacy.lgc"));
    assert_eq!(t.find_by_id(&id).unwrap().shadow_verdict, ShadowVerdict::VerifiedOptimal);
}

#[test]
fn store_never_deletes() {
    let mut t = RawCognitiveTrace::new();
    rec(&mut t, "c1", Outcome::Success, "");
    rec(&mut t, "c1", Outcome::Failure, "");
    assert_eq!(t.len(), 2);
}

#[test]
fn get_by_cycle_filters() {
    let mut t = RawCognitiveTrace::new();
    rec(&mut t, "c1", Outcome::Success, "");
    rec(&mut t, "c2", Outcome::Success, "");
    rec(&mut t, "c1", Outcome::Success, "");
    assert_eq!(t.get_by_cycle("c1").len(), 2);
    assert_eq!(t.get_by_cycle("c2").len(), 1);
}

#[test]
fn pending_query() {
    let mut t = RawCognitiveTrace::new();
    let id1 = rec(&mut t, "c1", Outcome::Success, "");
    rec(&mut t, "c1", Outcome::Success, "");
    t.set_verdict(&id1, ShadowVerdict::VerifiedOptimal, "shadow_gj_legacy.lgc");
    assert_eq!(t.get_pending().len(), 1);
}

#[test]
fn lineage_chain_follows_refs() {
    let mut t = RawCognitiveTrace::new();
    let id1 = rec(&mut t, "c1", Outcome::Success, "");
    let id2 = rec(&mut t, "c1", Outcome::Success, &id1);
    let id3 = rec(&mut t, "c1", Outcome::Success, &id2);
    let lineage = t.get_lineage(&id3);
    assert_eq!(lineage.len(), 3);
}

#[test]
fn stats_count_verdicts() {
    let mut t = RawCognitiveTrace::new();
    let id1 = rec(&mut t, "c1", Outcome::Success, "");
    rec(&mut t, "c1", Outcome::Failure, "");
    t.set_verdict(&id1, ShadowVerdict::VerifiedOptimal, "shadow_gj_legacy.lgc");
    let s = t.stats();
    assert_eq!(s.total, 2);
    assert_eq!(s.verified_optimal, 1);
    assert_eq!(s.raw_pending, 1);
}

#[test]
fn failures_filtered_by_territory() {
    let mut t = RawCognitiveTrace::new();
    let id1 = t.record("c1", "P", "science", "LOW", EventType::Failure, "p", "M", Outcome::Failure, "", "", "");
    t.set_verdict(&id1, ShadowVerdict::VerifiedNegative, "shadow_gj_legacy.lgc");
    let id2 = t.record("c1", "P", "industrial", "LOW", EventType::Failure, "p", "M", Outcome::Failure, "", "", "");
    t.set_verdict(&id2, ShadowVerdict::VerifiedNegative, "shadow_gj_legacy.lgc");
    assert_eq!(t.get_failures("").len(), 2);
    assert_eq!(t.get_failures("science").len(), 1);
}

#[test]
fn trace_ids_are_sequential_labels() {
    let mut t = RawCognitiveTrace::new();
    let a = rec(&mut t, "c1", Outcome::Success, "");
    let b = rec(&mut t, "c1", Outcome::Success, "");
    assert_ne!(a, b);
    assert!(a.starts_with("CT_"));
    assert!(t.find_by_id("CT_missing").is_none());
    assert!(!t.set_verdict("CT_missing", ShadowVerdict::VerifiedOptimal, "shadow_gj_legacy.lgc"));
}

#[test]
fn lineage_stops_at_missing_parent() {
    let mut t = RawCognitiveTrace::new();
    let id = rec(&mut t, "c1", Outcome::Success, "CT_unknown");
    assert_eq!(t.get_lineage(&id).len(), 1);
    assert_eq!(t.get_lineage("CT_unknown").len(), 0);
}
