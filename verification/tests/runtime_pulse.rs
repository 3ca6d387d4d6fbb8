use quantum_core::runtime_pulse::{
    hw_kernel_status, replay_action_evidence, stage_word, GclReadiness, RuntimePulse, Stage, REQUIRED_ACTION_MASK,
};

#[test]
fn action_state_lind_vetem_pas_aksionit_real() {
    let mut p = RuntimePulse::new();
    p.begin_cycle();
    assert_eq!(p.action_state(), 0);
    assert_eq!(p.action_mask(), 0);
    assert!(!p.action_convergence_complete());
    p.mark_action(Stage::Pro, &[4, 11, 22]);
    let after_pro = p.action_state();
    assert_ne!(after_pro, 0);
    p.mark_action(Stage::Npro, &[4, 33, 44]);
    assert_ne!(p.action_state(), after_pro);
    assert!(!p.action_convergence_complete());
}

#[test]
fn trust_requires_every_real_reasoning_organ() {
    let mut p = RuntimePulse::new();
    p.begin_cycle();
    for (stage, words) in [
        (Stage::Hpro, 5usize),
        (Stage::Pro, 3),
        (Stage::Npro, 4),
        (Stage::Npim, 5),
        (Stage::Srk, 6),
        (Stage::Pim, 6),
        (Stage::Apro, 4),
        (Stage::Mpro, 21),
        (Stage::Hcp, 5),
    ] {
        p.mark_action(stage, &vec![stage_word(stage); words]);
    }
    assert_eq!(p.action_mask(), REQUIRED_ACTION_MASK);
    assert!(p.action_convergence_complete());
    let evidence = p.action_evidence();
    assert_eq!(replay_action_evidence(&evidence), (p.action_state(), p.action_mask()));
}

#[test]
fn token_forge_readiness_does_not_enter_reasoning_action_state() {
    let mut p = RuntimePulse::new();
    p.begin_cycle();
    p.mark_ready(Stage::TokenForge);
    assert_eq!(p.action_state(), 0);
    assert_eq!(p.action_mask(), 0);
    assert!(matches!(p.read(Stage::TokenForge), GclReadiness::Ready));
}

#[test]
fn default_pulse_is_degraded_not_ready_lie() {
    let p = RuntimePulse::new();
    match p.apro_status() {
        GclReadiness::Ready => panic!("APRO s'ka rrahur — READY do të ishte gënjeshtër"),
        _ => {}
    }
}

#[test]
fn split_corrupt_updates_presume_status() {
    let mut p = RuntimePulse::new();
    p.mark_notready(Stage::Split);
    match p.split_status() {
        GclReadiness::NotReady(_) => {}
        other => panic!("split i prishur duhej NOT_READY, erdhi {:?}", other),
    }
    p.mark_ready(Stage::Split);
    assert!(p.split_status().is_ready(), "pas rrahjes së suksesshme → READY");
    p.mark_degraded(Stage::Split);
    match p.split_status() {
        GclReadiness::Degraded(_) => {}
        other => panic!("bosh i deklaruar duhej DEGRADED, erdhi {:?}", other),
    }
}

#[test]
fn hw_env_does_not_fake_hw_kernel() {
    let p = RuntimePulse::new();
    assert!(!hw_kernel_status().is_ready());
    assert!(!p.thermal_status().is_ready());
}

#[test]
fn begin_cycle_forgets_previous_actions() {
    let mut p = RuntimePulse::new();
    p.mark_action(Stage::Pro, &[1, 2, 3]);
    assert_ne!(p.action_mask(), 0);
    p.begin_cycle();
    assert_eq!(p.action_state(), 0);
    assert_eq!(p.action_mask(), 0);
    assert!(p.action_evidence().is_empty());
}
