use quantum_core::lim_types::{active_operators, Operator, OperatorGate};
use quantum_core::npro_lim_bridge::NproLimBridge;

fn gate(operator: Operator, active: bool, priority: u8) -> OperatorGate {
    OperatorGate { operator, active, priority, reason: "r".to_string(), max_depth: 3 }
}

fn gates() -> Vec<OperatorGate> {
    vec![
        gate(Operator::Trace, true, 4),
        gate(Operator::Reverse, true, 1),
        gate(Operator::Mirror, false, 2),
        gate(Operator::Contrast, true, 1),
    ]
}

#[test]
fn forbidden_paths_deactivate_gates() {
    let before = gates();
    let active_before = NproLimBridge::count_active(&before);
    let forbidden = vec!["Reverse".to_string(), "Mirror".to_string()];
    let after = NproLimBridge::apply_weakness(before, &forbidden);
    assert_eq!(active_before, 3);
    assert_eq!(NproLimBridge::count_active(&after), 2);
    assert!(!after[1].active);
    assert!(after[3].active);
    assert_eq!(NproLimBridge::forbidden_applied(&forbidden), 2);
}

#[test]
fn no_forbidden_keeps_all_active() {
    let after = NproLimBridge::apply_weakness(gates(), &vec![]);
    assert_eq!(NproLimBridge::count_active(&after), 3);
}

#[test]
fn upper_case_operator_names_are_not_paths() {
    let after = NproLimBridge::apply_weakness(gates(), &vec!["REVERSE".to_string()]);
    assert!(after[1].active);
}

#[test]
fn active_operators_follow_priority_and_order() {
    let g = gates();
    let active = active_operators(&g);
    let ops: Vec<Operator> = active.iter().map(|x| x.operator).collect();
    assert_eq!(ops, vec![Operator::Reverse, Operator::Contrast, Operator::Trace]);
}
