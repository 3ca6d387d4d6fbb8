//! Knowledge lineage: the references the verdict authority verified
//! (optimal paths and documented failures) packed into a context that
//! reasoning consults before a cycle. Reasoning only consults; it stores nothing.

use vstd::prelude::*;
use crate::text::{str_eq, owned};
use crate::memory::raw_cognitive_trace::lemma_filter_take_step;

verus! {

/// A successful path verified by the authority.
#[derive(Debug, Clone)]
pub struct OptimalEntry {
    pub trace_id: String,
    pub convergence_path: Vec<String>,
}

/// A documented failure verified by the authority.
#[derive(Debug, Clone)]
pub struct NegativeEntry {
    pub cause: String,
    pub proposal_type: String,
    pub consequence: String,
}

/// The pressure that the lineage suggests for the coming cycle.
#[derive(Debug, Clone, Copy, PartialEq, Eq, Structural)]
pub enum PressureState {
    Low,
    High,
}

/// The context handed to reasoning before a cycle.
#[derive(Debug, Clone)]
pub struct LineageContext {
    pub territory: String,
    pub optimal_refs: Vec<OptimalEntry>,
    pub negative_refs: Vec<NegativeEntry>,
    pub known_failures: Vec<String>,
    pub consequence_warnings: Vec<String>,
    pub pressure_hint: PressureState,
    pub lineage_depth: usize,
}

/// The text views of a vector of strings.
pub open spec fn texts(v: Seq<String>) -> Seq<Seq<char>> {
    v.map_values(|s: String| s@)
}

/// The causes of the failures, in order.
pub open spec fn causes(neg: Seq<NegativeEntry>) -> Seq<Seq<char>> {
    neg.map_values(|e: NegativeEntry| e.cause@)
}

/// The non-empty consequences of the failures, in order.
pub open spec fn warnings(neg: Seq<NegativeEntry>) -> Seq<Seq<char>> {
    neg.map_values(|e: NegativeEntry| e.consequence@).filter(|c: Seq<char>| c.len() > 0)
}

/// More than five failures make the pressure high; otherwise it is low.
pub open spec fn pressure_spec(neg_len: nat, opt_len: nat) -> PressureState {
    if neg_len > 5 {
        PressureState::High
    } else {
        PressureState::Low
    }
}

pub struct KnowledgeLineage;

impl KnowledgeLineage {
    /// Packs the verified references into a context.
    pub fn build(territory: &str, optimal_refs: Vec<OptimalEntry>, negative_refs: Vec<NegativeEntry>) -> (r: LineageContext)
        requires
            optimal_refs@.len() + negative_refs@.len() <= usize::MAX,
        ensures
            r.territory@ == territory@,
            r.optimal_refs@ == optimal_refs@,
            r.negative_refs@ == negative_refs@,
            texts(r.known_failures@) == causes(negative_refs@),
            texts(r.consequence_warnings@) == warnings(negative_refs@),
            r.pressure_hint == pressure_spec(negative_refs@.len(), optimal_refs@.len()),
            r.lineage_depth == optimal_refs@.len() + negative_refs@.len(),
    {
        let mut known_failures: Vec<String> = Vec::new();
        let mut consequence_warnings: Vec<String> = Vec::new();
        let ghost cons = negative_refs@.map_values(|e: NegativeEntry| e.consequence@);
        let ghost nonempty = |c: Seq<char>| c.len() > 0;
        let mut i: usize = 0;
        while i < negative_refs.len()
            invariant
                i <= negative_refs@.len(),
                cons == negative_refs@.map_values(|e: NegativeEntry| e.consequence@),
                nonempty == (|c: Seq<char>| c.len() > 0),
                texts(known_failures@) == causes(negative_refs@).take(i as int),
                texts(consequence_warnings@) == cons.take(i as int).filter(nonempty),
            decreases negative_refs@.len() - i,
        {
            let e = &negative_refs[i];
            let ghost kf = known_failures@;
            known_failures.push(e.cause.clone());
            assert(texts(known_failures@) =~= texts(kf).push(e.cause@));
            assert(causes(negative_refs@).take(i + 1) =~= causes(negative_refs@).take(i as int).push(e.cause@));
            proof {
                lemma_filter_take_step(cons, i as int, nonempty);
            }
            let ghost cw = consequence_warnings@;
            if !e.consequence.as_str().is_empty() {
                consequence_warnings.push(e.consequence.clone());
                assert(texts(consequence_warnings@) =~= texts(cw).push(e.consequence@));
            }
            i += 1;
        }
        assert(causes(negative_refs@).take(i as int) =~= causes(negative_refs@));
        assert(cons.take(i as int) =~= cons);
        let pressure_hint = Self::infer_pressure(&negative_refs, &optimal_refs);
        let lineage_depth = optimal_refs.len() + negative_refs.len();
        LineageContext {
            territory: owned(territory),
            optimal_refs,
            negative_refs,
            known_failures,
            consequence_warnings,
            pressure_hint,
            lineage_depth,
        }
    }

    fn infer_pressure(neg: &Vec<NegativeEntry>, opt: &Vec<OptimalEntry>) -> (r: PressureState)
        ensures
            r == pressure_spec(neg@.len(), opt@.len()),
    {
        let many_failures = neg.len() > 5;
        let many_optimal = opt.len() > 3;
        match (many_failures, many_optimal) {
            (true, _) => PressureState::High,
            (_, true) => PressureState::Low,
            _ => PressureState::Low,
        }
    }

    /// Whether `provider` lies on some verified optimal path.
    pub fn matches_optimal_path(provider: &str, optimal_refs: &Vec<OptimalEntry>) -> (r: bool)
        ensures
            r == exists|i: int, j: int|
                0 <= i < optimal_refs@.len() && 0 <= j < optimal_refs@[i].convergence_path@.len()
                    && (#[trigger] optimal_refs@[i].convergence_path@[j])@ == provider@,
    {
        let mut i: usize = 0;
        while i < optimal_refs.len()
            invariant
                i <= optimal_refs@.len(),
                forall|a: int, b: int|
                    0 <= a < i && 0 <= b < optimal_refs@[a].convergence_path@.len()
                        ==> (#[trigger] optimal_refs@[a].convergence_path@[b])@ != provider@,
            decreases optimal_refs@.len() - i,
        {
            let path = &optimal_refs[i].convergence_path;
            let mut j: usize = 0;
            while j < path.len()
                invariant
                    j <= path@.len(),
                    i < optimal_refs@.len(),
                    path == optimal_refs@[i as int].convergence_path,
                    forall|b: int| 0 <= b < j ==> (#[trigger] path@[b])@ != provider@,
                decreases path@.len() - j,
            {
                if str_eq(path[j].as_str(), provider) {
                    assert(optimal_refs@[i as int].convergence_path@[j as int]@ == provider@);
                    return true;
                }
                j += 1;
            }
            i += 1;
        }
        false
    }

    /// Whether `proposal_type` is a documented failure.
    pub fn is_known_failure(proposal_type: &str, negative_refs: &Vec<NegativeEntry>) -> (r: bool)
        ensures
            r == exists|i: int| 0 <= i < negative_refs@.len() && (#[trigger] negative_refs@[i]).proposal_type@ == proposal_type@,
    {
        let mut i: usize = 0;
        while i < negative_refs.len()
            invariant
                i <= negative_refs@.len(),
                forall|a: int| 0 <= a < i ==> (#[trigger] negative_refs@[a]).proposal_type@ != proposal_type@,
            decreases negative_refs@.len() - i,
        {
            if str_eq(negative_refs[i].proposal_type.as_str(), proposal_type) {
                return true;
            }
            i += 1;
        }
        false
    }

    /// The parent trace: the first optimal reference, or empty.
    pub fn link_trace_ref(ctx: &LineageContext) -> (r: String)
        ensures
            ctx.optimal_refs@.len() > 0 ==> r@ == ctx.optimal_refs@[0].trace_id@,
            ctx.optimal_refs@.len() == 0 ==> r@.len() == 0,
    {
        if ctx.optimal_refs.len() > 0 {
            ctx.optimal_refs[0].trace_id.clone()
        } else {
            String::new()
        }
    }
}

} // verus!
