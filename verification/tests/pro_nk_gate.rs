use quantum_core::pro_nk_gate::{is_sealed_nk_blob, nk_downgrade, KnowledgeVault, NegativeEntry};
use quantum_core::runtime_pulse::{RuntimePulse, Stage, GclReadiness};

#[test]
fn nk_legacy_after_nkb1_is_downgrade() {
    assert!(nk_downgrade(true, false), "vulë e parë + raw tani = DEGRADIM");
    assert!(!nk_downgrade(true, true), "vulë + vulë = normale");
    assert!(!nk_downgrade(false, false), "kurrë vulë + raw = legacy i pastër");
    assert!(!nk_downgrade(false, true), "vula e parë hyn lirshëm");
    let raw = vec![0u8, 0, 0, 0];
    assert!(!is_sealed_nk_blob(&raw));
}

#[test]
fn nk_seal_detects_single_bit_flip() {
    let body = vec![1u8, 0, 0, 0, 3, 0, 0, 0, b'x', b'y', b'z'];
    let mut sealed = KnowledgeVault::seal_negative_export(&body);
    assert!(is_sealed_nk_blob(&sealed));
    let last = sealed.len() - 1;
    sealed[last] ^= 0xFF;
    let mut pulse = RuntimePulse::new();
    let v = KnowledgeVault::from_negative_export(&sealed, &mut pulse);
    assert_eq!(v.len(), 0);
    assert!(matches!(pulse.read(Stage::NkImport), GclReadiness::NotReady(_)));
}

#[test]
fn nk_sealed_export_with_intact_seal_is_ready() {
    let body = vec![1u8, 0, 0, 0, 3, 0, 0, 0, b'x', b'y', b'z'];
    let sealed = KnowledgeVault::seal_negative_export(&body);
    let mut pulse = RuntimePulse::new();
    let v = KnowledgeVault::from_negative_export(&sealed, &mut pulse);
    // The only entry is shorter than a Shadow entry header, so nothing is absorbed.
    assert_eq!(v.len(), 0);
    assert!(pulse.read(Stage::NkImport).is_ready());
}

#[test]
fn nk_legacy_without_header_still_parsed() {
    let legacy = vec![0u8, 0, 0, 0];
    let mut pulse = RuntimePulse::new();
    let v = KnowledgeVault::from_negative_export(&legacy, &mut pulse);
    assert_eq!(v.len(), 0);
}

#[test]
fn vault_counts_negatives() {
    let mut v = KnowledgeVault::new();
    assert!(v.is_empty());
    v.add_negative(NegativeEntry::from_text("n1", "bad path"));
    v.insert_negative(NegativeEntry::from_text("n2", "other path"));
    assert_eq!(v.len(), 2);
    assert_eq!(v.negative_count(), 2);
}

fn shadow_entry(input_id: u64, process: &[u8]) -> Vec<u8> {
    let mut e = Vec::new();
    e.extend_from_slice(&input_id.to_le_bytes());
    e.extend_from_slice(&[0u8; 24]);
    e.extend_from_slice(&(process.len() as u32).to_le_bytes());
    e.extend_from_slice(process);
    e
}

#[test]
fn nk_sealed_export_absorbs_shadow_entries() {
    let entry = shadow_entry(7, &[b'b', b'a', b'd', 0xFF]);
    let mut body = Vec::new();
    body.extend_from_slice(&1u32.to_le_bytes());
    body.extend_from_slice(&(entry.len() as u32).to_le_bytes());
    body.extend_from_slice(&entry);
    let sealed = KnowledgeVault::seal_negative_export(&body);
    let mut pulse = RuntimePulse::new();
    let v = KnowledgeVault::from_negative_export(&sealed, &mut pulse);
    assert_eq!(v.len(), 1);
    assert!(pulse.read(Stage::NkImport).is_ready());
    let mut raw_pulse = RuntimePulse::new();
    let raw = KnowledgeVault::from_negative_export(&body, &mut raw_pulse);
    assert_eq!(raw.len(), 1);
    assert!(matches!(raw_pulse.read(Stage::NkImport), GclReadiness::Degraded(_)));
}
