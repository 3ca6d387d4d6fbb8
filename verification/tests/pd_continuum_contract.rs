use quantum_core::pd_continuum_contract::{
    derive_iz_digest, derive_next_i0_id, derive_pd_output_digest, PdContinuumActivation, PdContinuumBasis,
    PdContinuumCompletion, PdI0Stimulus,
};

#[test]
fn i_plus_user_input_binds_existing_i0() {
    let s = PdI0Stimulus::new("session", "i0-A", "input real", 10);
    assert!(s.verifies());
}

#[test]
fn exactly_one_question_activates_pd_continuum() {
    let a = PdContinuumActivation::new("session", "i0-A", "input real", "Cila është prova?", "CLARIFY", 10);
    assert!(a.is_ready());
    assert_eq!(a.question_increment.unit_count, 1);
}

#[test]
fn output_plus_iz_derives_next_i0() {
    let activation = 11;
    let question = 12;
    let output = derive_pd_output_digest(activation, 13, question, "receipt", "output text", 1, 1, PdContinuumBasis::VerifiedPositive);
    let trust = 99;
    let iz = derive_iz_digest(activation, question, output, trust, "receipt", PdContinuumBasis::VerifiedPositive);
    let next = derive_next_i0_id(output, iz);
    let completion = PdContinuumCompletion::new(activation, question, output, iz, trust, next, "receipt", PdContinuumBasis::VerifiedPositive);
    assert!(completion.closes_formula("receipt"));
}

#[test]
fn changing_verified_output_text_changes_iz_and_next_i0() {
    let basis = PdContinuumBasis::VerifiedPositive;
    let a_output = derive_pd_output_digest(11, 13, 12, "receipt", "output A", 1, 1, basis);
    let b_output = derive_pd_output_digest(11, 13, 12, "receipt", "output B", 1, 1, basis);
    let a_iz = derive_iz_digest(11, 12, a_output, 99, "receipt", basis);
    let b_iz = derive_iz_digest(11, 12, b_output, 99, "receipt", basis);
    assert_ne!(a_output, b_output);
    assert_ne!(a_iz, b_iz);
    assert_ne!(derive_next_i0_id(a_output, a_iz), derive_next_i0_id(b_output, b_iz));
}

#[test]
fn completion_does_not_close_for_another_receipt() {
    let basis = PdContinuumBasis::VerifiedNegativeRebuild;
    let output = derive_pd_output_digest(11, 13, 12, "receipt", "output", 0, 0, basis);
    let iz = derive_iz_digest(11, 12, output, 99, "receipt", basis);
    let next = derive_next_i0_id(output, iz);
    let completion = PdContinuumCompletion::new(11, 12, output, iz, 99, next, "receipt", basis);
    assert!(completion.closes_formula("receipt"));
    assert!(!completion.closes_formula("another receipt"));
}

#[test]
fn altered_stimulus_does_not_verify() {
    let mut s = PdI0Stimulus::new("session", "i0-A", "input real", 10);
    s.stimulus_digest ^= 1;
    assert!(!s.verifies());
}
