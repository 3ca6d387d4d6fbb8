//! The basic types of the linear information metric: its phase, the four PRO
//! operators and their gates, and the depth configuration.

use vstd::prelude::*;

verus! {

/// The phase of the metric.
#[derive(Debug, Clone, Copy, PartialEq, Eq, Structural)]
pub enum LimPhase {
    PrePro,
    PostQuantum,
}

/// The four PRO operators.
#[derive(Debug, Clone, Copy, PartialEq, Eq, Structural)]
pub enum Operator {
    Reverse,
    Mirror,
    Contrast,
    Trace,
}

impl Operator {
    pub open spec fn name_spec(self) -> Seq<char> {
        match self {
            Operator::Reverse => "REVERSE"@,
            Operator::Mirror => "MIRROR"@,
            Operator::Contrast => "CONTRAST"@,
            Operator::Trace => "TRACE"@,
        }
    }

    pub fn name(&self) -> (r: &'static str)
        ensures
            r@ == self.name_spec(),
    {
        match self {
            Operator::Reverse => "REVERSE",
            Operator::Mirror => "MIRROR",
            Operator::Contrast => "CONTRAST",
            Operator::Trace => "TRACE",
        }
    }
}

/// Whether an operator is active, its priority (1 highest) and its depth.
#[derive(Debug, Clone)]
pub struct OperatorGate {
    pub operator: Operator,
    pub active: bool,
    pub priority: u8,
    pub reason: String,
    pub max_depth: u8,
}

/// The active gates with priority `p`, in their order.
pub open spec fn active_at(gs: Seq<OperatorGate>, p: u8) -> Seq<OperatorGate> {
    gs.filter(|g: OperatorGate| g.active && g.priority == p)
}

/// The active gates with a priority below `n`, by priority and, within one
/// priority, in their order: what a stable sort by priority of the active
/// gates gives.
pub open spec fn active_by_priority(gs: Seq<OperatorGate>, n: nat) -> Seq<OperatorGate>
    decreases n,
{
    if n == 0 {
        Seq::empty()
    } else {
        active_by_priority(gs, (n - 1) as nat) + active_at(gs, (n - 1) as u8)
    }
}

pub open spec fn derefs(v: Seq<&OperatorGate>) -> Seq<OperatorGate> {
    v.map_values(|g: &OperatorGate| *g)
}

/// The active operator gates, ordered by priority (1 first), equal
/// priorities keeping their order.
pub fn active_operators(gates: &[OperatorGate]) -> (r: Vec<&OperatorGate>)
    ensures
        derefs(r@) == active_by_priority(gates@, 256),
{
    let mut out: Vec<&OperatorGate> = Vec::new();
    let mut p: u32 = 0;
    while p < 256
        invariant
            p <= 256,
            derefs(out@) == active_by_priority(gates@, p as nat),
        decreases 256 - p,
    {
        let ghost before = derefs(out@);
        let pr: u8 = p as u8;
        let mut i: usize = 0;
        while i < gates.len()
            invariant
                pr == p,
                p < 256,
                i <= gates@.len(),
                derefs(out@) == before + gates@.take(i as int).filter(
                    |g: OperatorGate| g.active && g.priority == pr,
                ),
            decreases gates@.len() - i,
        {
            proof {
                crate::memory::raw_cognitive_trace::lemma_filter_take_step(
                    gates@,
                    i as int,
                    |g: OperatorGate| g.active && g.priority == pr,
                );
            }
            if gates[i].active && gates[i].priority == pr {
                let ghost b = derefs(out@);
                out.push(&gates[i]);
                assert(derefs(out@) =~= b.push(gates@[i as int]));
            }
            i += 1;
        }
        assert(gates@.take(i as int) =~= gates@);
        assert(active_by_priority(gates@, (p + 1) as nat) == active_by_priority(gates@, p as nat)
            + active_at(gates@, p as u8));
        p += 1;
    }
    out
}

/// How deep PRO may go.
#[derive(Debug, Clone, Copy, PartialEq, Eq, Structural)]
pub struct DepthConfig {
    pub operator_depth: u32,
    pub cross_territory_allowed: bool,
    pub reconstruction_mode: bool,
    pub turbo_allowed: bool,
}

/// Why the metric could not be measured.
#[derive(Debug, Clone, Copy, PartialEq, Eq, Structural)]
pub enum LimError {
    SealInvalid,
    EmptyInput,
    InsufficientMaterial,
}

impl LimError {
    /// The message of the error.
    pub fn message(&self) -> (r: &'static str)
        ensures
            r@ == match *self {
                LimError::SealInvalid => "LGC seal invalid"@,
                LimError::EmptyInput => "Input bosh"@,
                LimError::InsufficientMaterial => "Material i pamjaftueshëm (Grupi 1)"@,
            },
    {
        match self {
            LimError::SealInvalid => "LGC seal invalid",
            LimError::EmptyInput => "Input bosh",
            LimError::InsufficientMaterial => "Material i pamjaftueshëm (Grupi 1)",
        }
    }
}

} // verus!
