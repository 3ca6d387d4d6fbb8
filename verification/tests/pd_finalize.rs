use quantum_core::living_trust_contract::{
    LivingTrustSeal, SOVEREIGN_SEAL_PRIMITIVE, TRUST_KIND_CONSTRUCTIVE, TRUST_KIND_NONE,
    TRUST_KIND_RIGOROUS_NEGATIVE,
};
use quantum_core::pd_continuum_contract::{derive_next_i0_id, str_digest};
use quantum_core::progressive_debatic::engine::ProgressiveDebatic;
use quantum_core::progressive_debatic::finalize::{
    authorize_after_spine, build_continuum, pre_seal_verifies, PdPendingNextI0, PdSpineCycle,
    PdSpineCompletionFacts, ALL_LAYERS_MASK, EXPECTED_SHADOW_VERIFICATION_SEAL,
};
use quantum_core::progressive_debatic::types::{DebateMode, PdEngineOutput};
use quantum_core::progressive_debatic::types::{
    PdContinuationBasis, PdError, PdFinalization, PdResponseType, PdVerificationCompletion,
    PD_SEAL,
};

fn spine_completion() -> PdSpineCompletionFacts {
    PdSpineCompletionFacts {
        gcl_continuous: true,
        layers_chained: true,
        layer_mask: ALL_LAYERS_MASK,
        continuum_ready: true,
        activation_verifies: true,
        genius_origin: false,
        ready_for_shadow: true,
        contract_version: 1,
        activation_id: 0xA11C_0001,
        activation_contract_digest: 0xC0_7AC7,
        gcl_process_digest: 0x6C1,
        gcl_law_seal: 0x1A5,
        gcl_system_laws_seal: 0x5E5,
        mode_label: "INTELLECT".to_string(),
        origin_label: "NORMAL_TURN".to_string(),
        required_layer_mask: ALL_LAYERS_MASK,
        layer1_digest: 11,
        layer2_digest: 12,
        layer3_digest: 13,
        evidence_digest: 0xC3,
        mpro_mass: 8_000,
        completed_at: 11,
        completion_digest: 0x5151_0C0D_E000_0001,
        continuum_activation_digest: 0xC0_471A,
        question_increment_digest: 0x1_0001,
        request_digest: 0x9E0_0001,
        session_digest: str_digest("s1"),
        parent_i0_digest: str_digest("i0-A"),
    }
}

fn pending() -> PdPendingNextI0 {
    let authorized = authorize_after_spine(PD_SEAL, "s1", "i0-A", 12, spine_completion())
        .expect("pre-seal pas Spine9");
    PdPendingNextI0 {
        session_id: "s1".to_string(),
        parent_i0: "i0-A".to_string(),
        turn_id: "t1".to_string(),
        prepared_question: "Cila është prova?".to_string(),
        response_type: PdResponseType::Clarify,
        prepared_at: 12,
        spine_completion: authorized.completion.closure(),
        pre_seal: authorized.pre_seal,
    }
}

fn receipt_id_for(p: &PdPendingNextI0, y: u8, x: u8) -> String {
    format!("vr-{}-{:016x}-{}{}", p.session_id, p.binding_digest(), y, x)
}

fn completion_for(p: &PdPendingNextI0, y: u8, x: u8) -> PdVerificationCompletion {
    let kind = match (y, x) {
        (1, 1) => TRUST_KIND_CONSTRUCTIVE,
        (0, 0) => TRUST_KIND_RIGOROUS_NEGATIVE,
        _ => TRUST_KIND_NONE,
    };
    let living_trust = LivingTrustSeal {
        identity_sha256: [0xAB; 32],
        intensity: 7_500,
        kind,
        sovereign_value: SOVEREIGN_SEAL_PRIMITIVE,
    };
    PdVerificationCompletion {
        session_id: p.session_id.clone(),
        parent_i0: p.parent_i0.clone(),
        primitive_anchor: 0xA1,
        xy_digest: 0xB2,
        pd_binding_digest: p.binding_digest(),
        pd_continuum_activation_digest: p.spine_completion.continuum_activation_digest,
        y_verdict: y,
        x_verdict: x,
        verification_seal: EXPECTED_SHADOW_VERIFICATION_SEAL,
        verification_generation: 7,
        verification_receipt_id: receipt_id_for(p, y, x),
        living_trust_sha256: living_trust.identity_sha256,
        living_trust_intensity: living_trust.intensity,
        living_trust_kind: living_trust.kind,
        living_trust_sovereign_value: living_trust.sovereign_value,
        living_trust_digest: living_trust.identity_digest(),
    }
}

fn reason(f: PdFinalization) -> String {
    match f {
        PdFinalization::Rejected { reason } => reason,
        other => panic!("expected a refusal, got {other:?}"),
    }
}

#[test]
fn pending_cannot_become_next_i0_without_verification_receipt() {
    let pd = ProgressiveDebatic::new();
    let p = pending();
    let mut c = completion_for(&p, 1, 1);
    let expected = receipt_id_for(&p, 1, 1);
    c.verification_seal = 0;
    assert!(matches!(
        pd.finalize_after_verification(p, c, &expected),
        PdFinalization::Rejected { .. }
    ));
}

#[test]
fn verified_xy_releases_output_plus_iz_as_next_i0() {
    let pd = ProgressiveDebatic::new();
    let p = pending();
    let receipt = completion_for(&p, 1, 1);
    let expected = receipt_id_for(&p, 1, 1);
    match pd.finalize_after_verification(p, receipt.clone(), &expected) {
        PdFinalization::Released(closure) => {
            assert!(closure.contract.closes_formula(&receipt.verification_receipt_id));
            assert_eq!(
                closure.next_i0.next_i0_id,
                derive_next_i0_id(closure.output.output_digest, closure.iz.iz_digest),
            );
            assert_ne!(closure.output.output_id, closure.iz.iz_id);
        }
        other => panic!("pritej Released, u mor: {other:?}"),
    }
}

#[test]
fn verified_negative_rebuilds_deterministically() {
    let pd = ProgressiveDebatic::new();
    let p = pending();
    let expected = receipt_id_for(&p, 0, 0);
    assert!(matches!(
        pd.finalize_after_verification(p.clone(), completion_for(&p, 0, 0), &expected),
        PdFinalization::RebuiltFromNegative(_)
    ));
}

#[test]
fn receipt_for_another_pd_candidate_is_rejected() {
    let pd = ProgressiveDebatic::new();
    let p = pending();
    let mut other = pending();
    other.prepared_question.push_str(" tjetër");
    let completion = completion_for(&other, 1, 1);
    let expected = receipt_id_for(&other, 1, 1);
    assert!(matches!(
        pd.finalize_after_verification(p, completion, &expected),
        PdFinalization::Rejected { .. }
    ));
}

#[test]
fn the_pre_seal_re_derives_only_for_its_session() {
    let p = pending();
    assert!(pre_seal_verifies(&p.pre_seal, "s1", "i0-A"));
    assert!(!pre_seal_verifies(&p.pre_seal, "s2", "i0-A"));
    let mut broken = p.pre_seal.clone();
    broken.layer_mask = 0b0000_0110;
    assert!(!pre_seal_verifies(&broken, "s1", "i0-A"));
}

#[test]
fn refusals_name_the_first_failed_binding() {
    let pd = ProgressiveDebatic::new();
    let p = pending();
    let expected = receipt_id_for(&p, 1, 1);
    let mut c = completion_for(&p, 1, 1);
    c.session_id = "s9".to_string();
    c.verification_seal = 0;
    assert_eq!(reason(pd.finalize_after_verification(p.clone(), c, &expected)), "PD session nuk përputhet me dëftesën e Shadow");
    let mut c = completion_for(&p, 1, 1);
    c.parent_i0 = "i0-B".to_string();
    assert_eq!(reason(pd.finalize_after_verification(p.clone(), c, &expected)), "PD parent i₀ nuk përputhet me output-in e vulosur");
    let mut q = p.clone();
    q.pre_seal.receipt_id = "000000000000".to_string();
    assert_eq!(reason(pd.finalize_after_verification(q, completion_for(&p, 1, 1), &expected)), "kandidati PD nuk ka pre-seal të vlefshëm");
    let mut q = p.clone();
    q.spine_completion.closes_all_layers = false;
    let c = completion_for(&q, 1, 1);
    assert_eq!(reason(pd.finalize_after_verification(q, c, &expected)), "pre-seal nuk është i lidhur me mbylljen e Spine 9");
    let mut c = completion_for(&p, 1, 1);
    c.pd_continuum_activation_digest = 0;
    assert_eq!(reason(pd.finalize_after_verification(p.clone(), c, &expected)), "receipt-i i Shadow nuk mban aktivizimin i₀ + 1Q të PD");
    let mut c = completion_for(&p, 1, 1);
    c.living_trust_kind = TRUST_KIND_RIGOROUS_NEGATIVE;
    assert_eq!(reason(pd.finalize_after_verification(p.clone(), c, &expected)), "output-i final nuk ka seal/receipt kanonik të Shadow");
    let c = completion_for(&p, 1, 0);
    let expected_mixed = receipt_id_for(&p, 1, 0);
    assert_eq!(reason(pd.finalize_after_verification(p.clone(), c, &expected_mixed)), "gjendje jo-kushtetuese Y=1 X=0 — pritej 1/1 ose 0/0");
}

#[test]
fn a_zero_activation_does_not_close_the_continuum() {
    let mut p = pending();
    let c = completion_for(&p, 1, 1);
    p.spine_completion.continuum_activation_digest = 0;
    let r = build_continuum(&p, &c, "q".to_string(), PdContinuationBasis::VerifiedPositive);
    assert_eq!(r.err().unwrap(), "PD continuum nuk mbylli formulën output + iZ → next i₀");
}

#[test]
fn rebuilt_negative_carries_the_rebuild_question() {
    let pd = ProgressiveDebatic::new();
    let p = pending();
    let expected = receipt_id_for(&p, 0, 0);
    match pd.finalize_after_verification(p.clone(), completion_for(&p, 0, 0), &expected) {
        PdFinalization::RebuiltFromNegative(cl) => {
            assert_eq!(cl.next_i0.question, "Cila provë konkrete duhet të zëvendësojë bazën e rrëzuar: Cila është prova?");
            assert_eq!(cl.next_i0.basis, PdContinuationBasis::VerifiedNegativeRebuild);
            assert_eq!(cl.next_i0.pd_binding_digest, p.binding_digest());
        }
        other => panic!("expected a rebuild, got {other:?}"),
    }
}

#[test]
fn preseal_cannot_exist_without_all_layers() {
    let mut c = spine_completion();
    c.layer_mask = 0b0000_0110;
    let r = authorize_after_spine(PD_SEAL, "s1", "i0-A", 12, c);
    assert!(matches!(r, Err(PdError::BridgeFailed(_))));
}

#[test]
fn preseal_refusals_come_in_order() {
    let mut c = spine_completion();
    c.gcl_continuous = false;
    c.layer_mask = 0;
    match authorize_after_spine(0, "s1", "i0-A", 12, c) {
        Err(PdError::BridgeFailed(m)) => assert_eq!(m, "GCL refuzoi completion: Spine 9/Layer1→2→3 nuk mbajtën të njëjtin proces GCL"),
        other => panic!("unexpected {other:?}"),
    }
    assert!(matches!(authorize_after_spine(0, "s1", "i0-A", 12, spine_completion()), Err(PdError::SealInvalid(_))));
    let mut c = spine_completion();
    c.ready_for_shadow = false;
    match authorize_after_spine(PD_SEAL, "s1", "i0-A", 12, c) {
        Err(PdError::BridgeFailed(m)) => assert_eq!(m, "GCL refuzoi completion: ligjet kushtetuese të ESS-MAI nuk u plotësuan"),
        other => panic!("unexpected {other:?}"),
    }
}

#[test]
fn authorized_preseal_carries_the_laws() {
    let mut c = spine_completion();
    c.genius_origin = true;
    let a = authorize_after_spine(PD_SEAL, "s1", "i0-A", 12, c).unwrap();
    assert_eq!(a.gcl_token.law_mask, 31);
    assert_eq!(a.gcl_token.verdict, 1);
    assert_eq!(a.pre_seal.action_sha256, a.gcl_token.action_sha256);
    assert_ne!(a.pre_seal.action_sha256, [0u8; 32]);
    assert!(pre_seal_verifies(&a.pre_seal, "s1", "i0-A"));
}

fn first_turn(pd: &mut ProgressiveDebatic) -> PdEngineOutput {
    pd.open_session("s1", "science", DebateMode::Intellect, 10);
    pd.ingest("s1", "input with enough words to read", 11).unwrap()
}

#[test]
fn prepared_cycle_pends_the_turn_under_its_preseal() {
    let mut pd = ProgressiveDebatic::new();
    let output = first_turn(&mut pd);
    let turn_id = match &output {
        PdEngineOutput::Continue { turn } => turn.turn_id.clone(),
        other => panic!("expected a turn, got {other:?}"),
    };
    let cycle = PdSpineCycle { output, request_digest: 0x9E0_0001 };
    let prepared = pd.prepare_after_spine_sealed("s1", "i0-A", cycle, spine_completion(), 12, PD_SEAL).unwrap();
    let pending = prepared.pending_next.expect("a turn leaves a candidate");
    assert_eq!(pending.turn_id, turn_id);
    assert_eq!(pending.prepared_at, 12);
    let pre_seal = prepared.pre_seal.unwrap();
    assert_eq!(pending.pre_seal.receipt_id, pre_seal.receipt_id);
    assert!(pre_seal_verifies(&pre_seal, "s1", "i0-A"));
    let expected = receipt_id_for(&pending, 1, 1);
    let receipt = completion_for(&pending, 1, 1);
    assert!(matches!(pd.finalize_after_verification(pending, receipt, &expected), PdFinalization::Released(_)));
}

#[test]
fn completion_of_another_request_or_session_is_refused() {
    let mut pd = ProgressiveDebatic::new();
    let output = first_turn(&mut pd);
    let cycle = PdSpineCycle { output: output.clone(), request_digest: 0x9E0_0002 };
    match pd.prepare_after_spine_sealed("s1", "i0-A", cycle, spine_completion(), 12, PD_SEAL) {
        Err(PdError::BridgeFailed(m)) => assert_eq!(m, "Spine 9 completion nuk i përket aktivizimit të PD"),
        other => panic!("unexpected {other:?}"),
    }
    let cycle = PdSpineCycle { output: output.clone(), request_digest: 0x9E0_0001 };
    match pd.prepare_after_spine_sealed("s2", "i0-A", cycle, spine_completion(), 12, PD_SEAL) {
        Err(PdError::BridgeFailed(m)) => assert_eq!(m, "Spine 9 completion ka session tjetër"),
        other => panic!("unexpected {other:?}"),
    }
    let cycle = PdSpineCycle { output, request_digest: 0x9E0_0001 };
    let mut c = spine_completion();
    c.layers_chained = false;
    match pd.prepare_after_spine_sealed("s1", "i0-A", cycle, c, 12, PD_SEAL) {
        Err(PdError::BridgeFailed(m)) => assert_eq!(m, "Layer 1/2/3 nuk u mbyllën; PendingNextI0 refuzohet"),
        other => panic!("unexpected {other:?}"),
    }
}
