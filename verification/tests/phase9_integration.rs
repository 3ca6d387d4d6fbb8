use quantum_core::phase9_integration::{Phase9Integration, QuantumLawCheck};

#[test]
fn law_check_passed_logic() {
    assert!(QuantumLawCheck::Passed.is_passed());
    assert!(!QuantumLawCheck::ViolatedPurity.is_passed());
}

#[test]
fn law_check_combination_order() {
    assert_eq!(Phase9Integration::combine_law_checks(true, false, true), QuantumLawCheck::Passed);
    assert_eq!(Phase9Integration::combine_law_checks(false, false, true), QuantumLawCheck::ViolatedPurity);
    assert_eq!(Phase9Integration::combine_law_checks(true, true, true), QuantumLawCheck::ViolatedPurity);
    assert_eq!(Phase9Integration::combine_law_checks(true, false, false), QuantumLawCheck::ViolatedAuthority);
    assert_eq!(QuantumLawCheck::ViolatedAuthority.label(), "VIOLATED_MODULE_AUTHORITY");
}

#[test]
fn quantum_purity_verified() {
    // Quantum writes ephemeral memory, never persistent, and acts within its authority.
    assert_eq!(Phase9Integration::combine_law_checks(true, false, true), QuantumLawCheck::Passed);
    assert!(Phase9Integration::combine_law_checks(true, false, true).is_passed());
}
