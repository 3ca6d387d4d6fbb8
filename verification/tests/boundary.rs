use quantum_core::memory::boundary::{EphemeralStore, MemoryBoundary, MemoryScope, MemoryViolation, PersistentGuard};

#[test]
fn ephemeral_authorized_writer_ok() {
    let mut store = EphemeralStore::new("cycle1");
    assert!(store.put("k", "v", "ELIMINATION").is_ok());
    assert_eq!(store.get("k").unwrap().value, "v");
}

#[test]
fn ephemeral_unauthorized_rejected() {
    let mut store = EphemeralStore::new("cycle1");
    let r = store.put("k", "v", "RANDOM_MODULE");
    assert_eq!(r.unwrap_err(), MemoryViolation::UnauthorizedEphemeralWrite("RANDOM_MODULE".to_string()));
}

#[test]
fn flush_clears_everything() {
    let mut store = EphemeralStore::new("cycle1");
    store.put("k", "v", "CONVERGENCE").unwrap();
    assert_eq!(store.len(), 1);
    store.flush();
    assert_eq!(store.len(), 0);
}

#[test]
fn persistent_guard_rejects_quantum() {
    let mut guard = PersistentGuard::new();
    assert!(guard.try_write("QuantumOrchestrator").is_err());
    assert!(guard.try_write("CONVERGENCE").is_err());
    assert_eq!(guard.rejected_count(), 2);
}

#[test]
fn persistent_guard_allows_only_shadow() {
    let mut guard = PersistentGuard::new();
    assert!(guard.try_write("shadow_gj_legacy.lgc").is_ok());
}

#[test]
fn boundary_persistent_write_from_quantum_fails() {
    let mut boundary = MemoryBoundary::new("c1");
    let r = boundary.write(MemoryScope::Persistent, "k", "v", "QuantumReasoner");
    assert!(r.is_err());
}

#[test]
fn boundary_ephemeral_dies_on_end_cycle() {
    let mut boundary = MemoryBoundary::new("c1");
    boundary.write(MemoryScope::Ephemeral, "k", "v", "ELIMINATION").unwrap();
    assert_eq!(boundary.audit().0, 1);
    boundary.end_cycle();
    assert_eq!(boundary.audit().0, 0);
}

#[test]
fn ephemeral_put_overwrites_same_key() {
    let mut store = EphemeralStore::new("cycle1");
    store.put("k", "v1", "ELIMINATION").unwrap();
    store.put("k", "v2", "CONVERGENCE").unwrap();
    assert_eq!(store.len(), 1);
    assert_eq!(store.get("k").unwrap().value, "v2");
    assert!(store.get("missing").is_none());
}

#[test]
fn boundary_read_returns_ephemeral_value_only() {
    let mut boundary = MemoryBoundary::new("c2");
    boundary.write(MemoryScope::Ephemeral, "k", "v", "LAB_TRL3").unwrap();
    assert_eq!(boundary.read(MemoryScope::Ephemeral, "k"), Some("v".to_string()));
    assert_eq!(boundary.read(MemoryScope::Persistent, "k"), None);
    let r = boundary.write(MemoryScope::Persistent, "k", "v", "QuantumReasoner");
    assert_eq!(boundary.audit().1, 1);
    assert!(r.is_err());
}
