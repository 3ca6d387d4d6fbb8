//! The NPRO → LIM bridge: the paths NPRO found weak switch the matching PRO
//! operator gates off, so PRO spends no cycles on them.

use vstd::prelude::*;
use crate::lim_types::{Operator, OperatorGate};
use crate::text::str_eq;
use crate::words::strs;

verus! {

/// The name a forbidden path uses for an operator.
pub open spec fn path_name(op: Operator) -> Seq<char> {
    match op {
        Operator::Reverse => "Reverse"@,
        Operator::Mirror => "Mirror"@,
        Operator::Contrast => "Contrast"@,
        Operator::Trace => "Trace"@,
    }
}

/// Whether a gate's operator is the forbidden path.
pub fn gate_matches_forbidden(operator: Operator, forbidden: &str) -> (r: bool)
    ensures
        r == (path_name(operator) == forbidden@),
{
    let name = match operator {
        Operator::Reverse => "Reverse",
        Operator::Mirror => "Mirror",
        Operator::Contrast => "Contrast",
        Operator::Trace => "Trace",
    };
    str_eq(name, forbidden)
}

/// `after` is `before` with the active flag cleared where forbidden.
pub open spec fn weakened(before: OperatorGate, after: OperatorGate, forbidden: Seq<Seq<char>>) -> bool {
    &&& after.operator == before.operator
    &&& after.priority == before.priority
    &&& after.reason == before.reason
    &&& after.max_depth == before.max_depth
    &&& after.active == (before.active && !forbidden.contains(path_name(before.operator)))
}

/// The number of active gates.
pub open spec fn active_count(gs: Seq<OperatorGate>) -> nat
    decreases gs.len(),
{
    if gs.len() == 0 {
        0
    } else {
        active_count(gs.drop_last()) + if gs.last().active {
            1nat
        } else {
            0nat
        }
    }
}

pub struct NproLimBridge;

impl NproLimBridge {
    /// Switches off every gate whose operator is among the forbidden paths;
    /// the other gates keep their state.
    pub fn apply_weakness(gates: Vec<OperatorGate>, forbidden_paths: &Vec<String>) -> (r: Vec<
        OperatorGate,
    >)
        ensures
            r@.len() == gates@.len(),
            forall|i: int|
                0 <= i < gates@.len() ==> weakened(
                    #[trigger] gates@[i],
                    r@[i],
                    strs(forbidden_paths@),
                ),
    {
        let mut out: Vec<OperatorGate> = Vec::new();
        let mut i: usize = 0;
        while i < gates.len()
            invariant
                i <= gates@.len(),
                out@.len() == i,
                forall|k: int|
                    0 <= k < i ==> weakened(#[trigger] gates@[k], out@[k], strs(forbidden_paths@)),
            decreases gates@.len() - i,
        {
            let g = &gates[i];
            let mut forbidden = false;
            let mut j: usize = 0;
            while j < forbidden_paths.len()
                invariant
                    j <= forbidden_paths@.len(),
                    forbidden == exists|t: int|
                        0 <= t < j && strs(forbidden_paths@)[t] == path_name(g.operator),
                decreases forbidden_paths@.len() - j,
            {
                let m = gate_matches_forbidden(g.operator, forbidden_paths[j].as_str());
                assert(strs(forbidden_paths@)[j as int] == forbidden_paths@[j as int]@);
                if m {
                    forbidden = true;
                }
                j += 1;
            }
            assert(forbidden == strs(forbidden_paths@).contains(path_name(g.operator)));
            out.push(
                OperatorGate {
                    operator: g.operator,
                    active: g.active && !forbidden,
                    priority: g.priority,
                    reason: g.reason.clone(),
                    max_depth: g.max_depth,
                },
            );
            i += 1;
        }
        out
    }

    /// The number of gates still active.
    pub fn count_active(gates: &[OperatorGate]) -> (r: usize)
        ensures
            r == active_count(gates@),
    {
        let mut n: usize = 0;
        let mut i: usize = 0;
        while i < gates.len()
            invariant
                i <= gates@.len(),
                n == active_count(gates@.take(i as int)),
                n <= i,
            decreases gates@.len() - i,
        {
            assert(gates@.take(i + 1).drop_last() =~= gates@.take(i as int));
            if gates[i].active {
                n += 1;
            }
            i += 1;
        }
        assert(gates@.take(i as int) =~= gates@);
        n
    }

    /// How many paths the signal forbids.
    pub fn forbidden_applied(forbidden_paths: &Vec<String>) -> (r: usize)
        ensures
            r == forbidden_paths@.len(),
    {
        forbidden_paths.len()
    }
}

/// Applying a weakness signal never switches a gate on, so the active
/// gates can only become fewer.
pub proof fn law_weakness_never_activates(
    before: Seq<OperatorGate>,
    after: Seq<OperatorGate>,
    forbidden: Seq<Seq<char>>,
)
    requires
        after.len() == before.len(),
        forall|i: int| 0 <= i < before.len() ==> weakened(#[trigger] before[i], after[i], forbidden),
    ensures
        active_count(after) <= active_count(before),
        forbidden.len() == 0 ==> active_count(after) == active_count(before),
    decreases before.len(),
{
    if before.len() > 0 {
        let b = before.drop_last();
        let a = after.drop_last();
        assert forall|i: int| 0 <= i < b.len() implies weakened(#[trigger] b[i], a[i], forbidden) by {
            assert(b[i] == before[i]);
            assert(a[i] == after[i]);
        }
        law_weakness_never_activates(b, a, forbidden);
        assert(weakened(before[before.len() - 1], after[after.len() - 1], forbidden));
    }
}

} // verus!
