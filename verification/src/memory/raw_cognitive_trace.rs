//! The raw cognitive trace: an append-only record of everything that happens
//! in a cycle. Reasoning records (always `RawPending`); only the verdict
//! authority may change a trace, and only its verdict.

use vstd::prelude::*;
use crate::text::{str_eq, owned, push_decimal, decimal};

verus! {

/// Verification state of a trace.
#[derive(Debug, Clone, Copy, PartialEq, Eq, Structural)]
pub enum ShadowVerdict {
    RawPending,
    VerifiedOptimal,
    VerifiedNegative,
    ShadowHold,
}

impl ShadowVerdict {
    pub open spec fn label_spec(self) -> Seq<char> {
        match self {
            ShadowVerdict::RawPending => "RAW_PENDING"@,
            ShadowVerdict::VerifiedOptimal => "VERIFIED_OPTIMAL"@,
            ShadowVerdict::VerifiedNegative => "VERIFIED_NEGATIVE"@,
            ShadowVerdict::ShadowHold => "SHADOW_HOLD"@,
        }
    }

    pub fn label(self) -> (r: &'static str)
        ensures
            r@ == self.label_spec(),
    {
        match self {
            ShadowVerdict::RawPending => "RAW_PENDING",
            ShadowVerdict::VerifiedOptimal => "VERIFIED_OPTIMAL",
            ShadowVerdict::VerifiedNegative => "VERIFIED_NEGATIVE",
            ShadowVerdict::ShadowHold => "SHADOW_HOLD",
        }
    }
}

#[derive(Debug, Clone, Copy, PartialEq, Eq, Structural)]
pub enum EventType {
    Reasoning,
    Elimination,
    Failure,
    Contradiction,
    Convergence,
    Exploration,
}

#[derive(Debug, Clone, Copy, PartialEq, Eq, Structural)]
pub enum Outcome {
    Success,
    Failure,
    Contradiction,
    Unknown,
}

/// One recorded event, with its full payload.
#[derive(Debug, Clone)]
pub struct CognitiveTrace {
    pub trace_id: String,
    pub cycle_id: String,
    pub phase: String,
    pub territory: String,
    pub pressure_state: String,
    pub event_type: EventType,
    pub payload: String,
    pub module_source: String,
    pub outcome: Outcome,
    pub cause: String,
    pub consequence: String,
    pub lineage_ref: String,
    pub shadow_verdict: ShadowVerdict,
}

/// The identifier given to the `n`-th recorded trace: `CT_<n>`.
pub open spec fn trace_label(n: nat) -> Seq<char> {
    "CT_"@ + decimal(n)
}

/// Different ordinals give different identifiers.
pub proof fn lemma_trace_label_injective(a: nat, b: nat)
    requires
        trace_label(a) == trace_label(b),
    ensures
        a == b,
{
    reveal_strlit("CT_");
    assert(trace_label(a).skip(3) =~= decimal(a));
    assert(trace_label(b).skip(3) =~= decimal(b));
    crate::text::lemma_decimal_injective(a, b);
}

/// The only authority that may set verdicts.
pub open spec fn verdict_authority() -> Seq<char> {
    "shadow_gj_legacy.lgc"@
}

/// Two traces agree on everything but the verdict.
pub open spec fn same_but_verdict(a: CognitiveTrace, b: CognitiveTrace) -> bool {
    &&& a.trace_id == b.trace_id
    &&& a.cycle_id == b.cycle_id
    &&& a.phase == b.phase
    &&& a.territory == b.territory
    &&& a.pressure_state == b.pressure_state
    &&& a.event_type == b.event_type
    &&& a.payload == b.payload
    &&& a.module_source == b.module_source
    &&& a.outcome == b.outcome
    &&& a.cause == b.cause
    &&& a.consequence == b.consequence
    &&& a.lineage_ref == b.lineage_ref
}

/// `i` is the first position whose trace carries identifier `id`.
pub open spec fn first_with_id(s: Seq<CognitiveTrace>, id: Seq<char>, i: int) -> bool {
    &&& 0 <= i < s.len()
    &&& s[i].trace_id@ == id
    &&& forall|j: int| 0 <= j < i ==> #[trigger] s[j].trace_id@ != id
}

/// No trace carries identifier `id`.
pub open spec fn no_trace_with_id(s: Seq<CognitiveTrace>, id: Seq<char>) -> bool {
    forall|j: int| 0 <= j < s.len() ==> #[trigger] s[j].trace_id@ != id
}

/// Traces counted per verdict.
#[derive(Debug, Clone, Copy, PartialEq, Eq, Structural)]
pub struct TraceStats {
    pub total: usize,
    pub raw_pending: usize,
    pub verified_optimal: usize,
    pub verified_negative: usize,
    pub shadow_hold: usize,
}

/// How many traces carry verdict `v`.
pub open spec fn count_verdict(s: Seq<CognitiveTrace>, v: ShadowVerdict) -> nat {
    s.filter(with_verdict(v)).len()
}

/// The selection of traces belonging to one cycle.
pub open spec fn in_cycle(cycle: Seq<char>) -> spec_fn(CognitiveTrace) -> bool {
    |t: CognitiveTrace| t.cycle_id@ == cycle
}

/// The selection of traces carrying one verdict.
pub open spec fn with_verdict(v: ShadowVerdict) -> spec_fn(CognitiveTrace) -> bool {
    |t: CognitiveTrace| t.shadow_verdict == v
}

/// The selection of confirmed failures of a territory.
pub open spec fn confirmed_failure_in(territory: Seq<char>) -> spec_fn(CognitiveTrace) -> bool {
    |t: CognitiveTrace| is_confirmed_failure(t, territory)
}

/// The traces of a vector of references.
pub open spec fn derefs(v: Seq<&CognitiveTrace>) -> Seq<CognitiveTrace> {
    v.map_values(|t: &CognitiveTrace| *t)
}

/// A failure that the verdict authority confirmed as negative, in `territory`
/// unless `territory` is empty.
pub open spec fn is_confirmed_failure(t: CognitiveTrace, territory: Seq<char>) -> bool {
    t.outcome == Outcome::Failure && t.shadow_verdict == ShadowVerdict::VerifiedNegative && (
    territory.len() == 0 || t.territory@ == territory)
}

/// Every trace carries exactly one of the four verdicts, so the per-verdict
/// counts add up to the number of traces.
pub proof fn law_verdict_counts_partition(s: Seq<CognitiveTrace>)
    ensures
        count_verdict(s, ShadowVerdict::RawPending) + count_verdict(s, ShadowVerdict::VerifiedOptimal)
            + count_verdict(s, ShadowVerdict::VerifiedNegative) + count_verdict(
            s,
            ShadowVerdict::ShadowHold,
        ) == s.len(),
    decreases s.len(),
{
    reveal_with_fuel(Seq::filter, 1);
    if s.len() > 0 {
        law_verdict_counts_partition(s.drop_last());
    }
}

/// One more element of a prefix either joins the filtered prefix or not.
pub proof fn lemma_filter_take_step<A>(s: Seq<A>, i: int, p: spec_fn(A) -> bool)
    requires
        0 <= i < s.len(),
    ensures
        s.take(i + 1).filter(p) == (if p(s[i]) {
            s.take(i).filter(p).push(s[i])
        } else {
            s.take(i).filter(p)
        }),
{
    reveal_with_fuel(Seq::filter, 1);
    let t = s.take(i + 1);
    assert(t.drop_last() =~= s.take(i));
    assert(t.last() == s[i]);
}

/// The whole sequence is its longest prefix.
pub proof fn lemma_take_full<A>(s: Seq<A>)
    ensures
        s.take(s.len() as int) == s,
{
    assert(s.take(s.len() as int) =~= s);
}

/// `c` follows lineage references: it starts at the first trace carrying
/// `id`, and each next element is the first trace carrying the previous
/// element's (non-empty) `lineage_ref`.
pub open spec fn lineage_links(s: Seq<CognitiveTrace>, id: Seq<char>, c: Seq<CognitiveTrace>) -> bool {
    &&& (c.len() > 0 ==> exists|i: int| first_with_id(s, id, i) && c[0] == s[i])
    &&& forall|k: int|
        0 <= k < c.len() - 1 ==> (#[trigger] c[k]).lineage_ref@.len() > 0 && exists|i: int|
            first_with_id(s, c[k].lineage_ref@, i) && c[k + 1] == s[i]
}

/// The chain stops only where the lineage stops: an unknown start, an empty
/// or unknown reference, or a chain as long as the store (a reference cycle).
pub open spec fn lineage_ends(s: Seq<CognitiveTrace>, id: Seq<char>, c: Seq<CognitiveTrace>) -> bool {
    &&& (c.len() == 0 ==> no_trace_with_id(s, id) || s.len() == 0)
    &&& (c.len() > 0 ==> c.last().lineage_ref@.len() == 0 || no_trace_with_id(s, c.last().lineage_ref@)
        || c.len() == s.len())
}

/// The append-only store.
pub struct RawCognitiveTrace {
    store: Vec<CognitiveTrace>,
    next_id: u64,
}

impl RawCognitiveTrace {
    /// All traces, oldest first.
    pub closed spec fn traces(&self) -> Seq<CognitiveTrace> {
        self.store@
    }

    /// The next identifier follows the count, and each trace carries its ordinal identifier.
    pub closed spec fn wf(&self) -> bool {
        &&& self.next_id == self.store@.len()
        &&& forall|i: int| 0 <= i < self.store@.len() ==> (#[trigger] self.store@[i]).trace_id@ == trace_label(i as nat)
    }

    /// Each stored trace carries its ordinal identifier, so no two share one.
    pub proof fn law_trace_ids_are_ordinal(&self)
        requires
            self.wf(),
        ensures
            forall|i: int|
                0 <= i < self.traces().len() ==> (#[trigger] self.traces()[i]).trace_id@ == trace_label(
                    i as nat,
                ),
            forall|i: int, j: int|
                0 <= i < j < self.traces().len() ==> (#[trigger] self.traces()[i]).trace_id@
                    != (#[trigger] self.traces()[j]).trace_id@,
    {
        assert forall|i: int, j: int|
            0 <= i < j < self.traces().len() implies (#[trigger] self.traces()[i]).trace_id@
            != (#[trigger] self.traces()[j]).trace_id@ by {
            if self.traces()[i].trace_id@ == self.traces()[j].trace_id@ {
                lemma_trace_label_injective(i as nat, j as nat);
            }
        }
    }

    pub fn new() -> (r: Self)
        ensures
            r.wf(),
            r.traces().len() == 0,
    {
        RawCognitiveTrace { store: Vec::new(), next_id: 0 }
    }

    fn generate_id(&mut self) -> (r: String)
        requires
            old(self).next_id < u64::MAX,
        ensures
            r@ == trace_label(old(self).next_id as nat),
            final(self).next_id == old(self).next_id + 1,
            final(self).store == old(self).store,
    {
        let mut id = owned("CT_");
        push_decimal(&mut id, self.next_id);
        self.next_id += 1;
        id
    }

    /// Records a new trace, always `RawPending`, and returns its identifier.
    pub fn record(
        &mut self,
        cycle_id: &str,
        phase: &str,
        territory: &str,
        pressure_state: &str,
        event_type: EventType,
        payload: &str,
        module_source: &str,
        outcome: Outcome,
        cause: &str,
        consequence: &str,
        lineage_ref: &str,
    ) -> (r: String)
        requires
            old(self).wf(),
            old(self).traces().len() < u64::MAX,
        ensures
            final(self).wf(),
            r@ == trace_label(old(self).traces().len()),
            first_with_id(final(self).traces(), r@, old(self).traces().len() as int),
            final(self).traces().len() == old(self).traces().len() + 1,
            final(self).traces().drop_last() == old(self).traces(),
            ({
                let t = final(self).traces().last();
                &&& t.trace_id@ == r@
                &&& t.cycle_id@ == cycle_id@
                &&& t.phase@ == phase@
                &&& t.territory@ == territory@
                &&& t.pressure_state@ == pressure_state@
                &&& t.event_type == event_type
                &&& t.payload@ == payload@
                &&& t.module_source@ == module_source@
                &&& t.outcome == outcome
                &&& t.cause@ == cause@
                &&& t.consequence@ == consequence@
                &&& t.lineage_ref@ == lineage_ref@
                &&& t.shadow_verdict == ShadowVerdict::RawPending
            }),
    {
        let trace_id = self.generate_id();
        let returned = trace_id.clone();
        let t = CognitiveTrace {
            trace_id,
            cycle_id: owned(cycle_id),
            phase: owned(phase),
            territory: owned(territory),
            pressure_state: owned(pressure_state),
            event_type,
            payload: owned(payload),
            module_source: owned(module_source),
            outcome,
            cause: owned(cause),
            consequence: owned(consequence),
            lineage_ref: owned(lineage_ref),
            shadow_verdict: ShadowVerdict::RawPending,
        };
        let ghost before = self.store@;
        self.store.push(t);
        assert(self.store@.drop_last() =~= before);
        proof {
            assert forall|j: int| 0 <= j < before.len() implies #[trigger] self.store@[j].trace_id@
                != returned@ by {
                assert(self.store@[j] == before[j]);
                if before[j].trace_id@ == returned@ {
                    lemma_trace_label_injective(j as nat, before.len());
                }
            }
        }
        returned
    }

    fn find_index(&self, trace_id: &str) -> (r: Option<usize>)
        ensures
            r matches Some(i) ==> first_with_id(self.traces(), trace_id@, i as int),
            r is None ==> no_trace_with_id(self.traces(), trace_id@),
    {
        let mut i: usize = 0;
        while i < self.store.len()
            invariant
                i <= self.store@.len(),
                forall|j: int| 0 <= j < i ==> #[trigger] self.store@[j].trace_id@ != trace_id@,
            decreases self.store@.len() - i,
        {
            if str_eq(self.store[i].trace_id.as_str(), trace_id) {
                return Some(i);
            }
            i += 1;
        }
        None
    }

    /// Sets the verdict of the first trace carrying `trace_id`. Only the
    /// verdict authority succeeds; nothing else of any trace ever changes.
    pub fn set_verdict(&mut self, trace_id: &str, verdict: ShadowVerdict, caller: &str) -> (r: bool)
        requires
            old(self).wf(),
        ensures
            final(self).wf(),
            final(self).traces().len() == old(self).traces().len(),
            forall|j: int| 0 <= j < old(self).traces().len() ==> same_but_verdict(
                #[trigger] final(self).traces()[j],
                old(self).traces()[j],
            ),
            r == (caller@ == verdict_authority() && !no_trace_with_id(old(self).traces(), trace_id@)),
            !r ==> final(self).traces() == old(self).traces(),
            r ==> exists|i: int| first_with_id(old(self).traces(), trace_id@, i)
                && final(self).traces() == old(self).traces().update(
                i,
                CognitiveTrace { shadow_verdict: verdict, ..old(self).traces()[i] },
            ),
    {
        if !str_eq(caller, "shadow_gj_legacy.lgc") {
            return false;
        }
        match self.find_index(trace_id) {
            Some(i) => {
                let ghost before = self.store@;
                let old_t = &self.store[i];
                let t = CognitiveTrace {
                    trace_id: old_t.trace_id.clone(),
                    cycle_id: old_t.cycle_id.clone(),
                    phase: old_t.phase.clone(),
                    territory: old_t.territory.clone(),
                    pressure_state: old_t.pressure_state.clone(),
                    event_type: old_t.event_type,
                    payload: old_t.payload.clone(),
                    module_source: old_t.module_source.clone(),
                    outcome: old_t.outcome,
                    cause: old_t.cause.clone(),
                    consequence: old_t.consequence.clone(),
                    lineage_ref: old_t.lineage_ref.clone(),
                    shadow_verdict: verdict,
                };
                self.store.set(i, t);
                assert(self.store@ =~= before.update(
                    i as int,
                    CognitiveTrace { shadow_verdict: verdict, ..before[i as int] },
                ));
                assert(forall|j: int| 0 <= j < before.len() && j != i ==> #[trigger] self.store@[j] == before[j]);
                true
            },
            None => false,
        }
    }

    /// The traces of one cycle, in record order.
    pub fn get_by_cycle(&self, cycle_id: &str) -> (r: Vec<&CognitiveTrace>)
        ensures
            derefs(r@) == self.traces().filter(in_cycle(cycle_id@)),
    {
        let ghost pred = in_cycle(cycle_id@);
        let mut out: Vec<&CognitiveTrace> = Vec::new();
        let mut i: usize = 0;
        while i < self.store.len()
            invariant
                i <= self.store@.len(),
                pred == in_cycle(cycle_id@),
                derefs(out@) == self.store@.take(i as int).filter(pred),
            decreases self.store@.len() - i,
        {
            proof {
                lemma_filter_take_step(self.store@, i as int, pred);
            }
            let ghost before = out@;
            if str_eq(self.store[i].cycle_id.as_str(), cycle_id) {
                out.push(&self.store[i]);
                assert(derefs(out@) =~= derefs(before).push(self.store@[i as int]));
            }
            i += 1;
        }
        proof {
            lemma_take_full(self.store@);
        }
        out
    }

    /// The traces still waiting for a verdict.
    pub fn get_pending(&self) -> (r: Vec<&CognitiveTrace>)
        ensures
            derefs(r@) == self.traces().filter(with_verdict(ShadowVerdict::RawPending)),
    {
        let ghost pred = with_verdict(ShadowVerdict::RawPending);
        let mut out: Vec<&CognitiveTrace> = Vec::new();
        let mut i: usize = 0;
        while i < self.store.len()
            invariant
                i <= self.store@.len(),
                pred == with_verdict(ShadowVerdict::RawPending),
                derefs(out@) == self.store@.take(i as int).filter(pred),
            decreases self.store@.len() - i,
        {
            proof {
                lemma_filter_take_step(self.store@, i as int, pred);
            }
            let ghost before = out@;
            if self.store[i].shadow_verdict == ShadowVerdict::RawPending {
                out.push(&self.store[i]);
                assert(derefs(out@) =~= derefs(before).push(self.store@[i as int]));
            }
            assert(derefs(out@) == self.store@.take(i + 1).filter(pred));
            i += 1;
        }
        proof {
            lemma_take_full(self.store@);
        }
        out
    }

    /// Confirmed failures, in `territory` unless `territory` is empty.
    pub fn get_failures(&self, territory: &str) -> (r: Vec<&CognitiveTrace>)
        ensures
            derefs(r@) == self.traces().filter(confirmed_failure_in(territory@)),
    {
        let ghost pred = confirmed_failure_in(territory@);
        let no_filter = territory.is_empty();
        let mut out: Vec<&CognitiveTrace> = Vec::new();
        let mut i: usize = 0;
        while i < self.store.len()
            invariant
                i <= self.store@.len(),
                no_filter == (territory@.len() == 0),
                pred == confirmed_failure_in(territory@),
                derefs(out@) == self.store@.take(i as int).filter(pred),
            decreases self.store@.len() - i,
        {
            proof {
                lemma_filter_take_step(self.store@, i as int, pred);
            }
            let ghost before = out@;
            let t = &self.store[i];
            if t.outcome == Outcome::Failure && t.shadow_verdict == ShadowVerdict::VerifiedNegative
                && (no_filter || str_eq(t.territory.as_str(), territory)) {
                out.push(t);
                assert(derefs(out@) =~= derefs(before).push(self.store@[i as int]));
            }
            i += 1;
        }
        proof {
            lemma_take_full(self.store@);
        }
        out
    }

    /// Follows the lineage references back from `trace_id`.
    pub fn get_lineage(&self, trace_id: &str) -> (r: Vec<&CognitiveTrace>)
        ensures
            r@.len() <= self.traces().len(),
            lineage_links(self.traces(), trace_id@, derefs(r@)),
            lineage_ends(self.traces(), trace_id@, derefs(r@)),
    {
        let mut chain: Vec<&CognitiveTrace> = Vec::new();
        let mut current = owned(trace_id);
        let n = self.store.len();
        while chain.len() < n
            invariant_except_break
                chain@.len() <= n,
                n == self.store@.len(),
                chain@.len() == 0 ==> current@ == trace_id@,
                chain@.len() > 0 ==> current@ == derefs(chain@).last().lineage_ref@
                    && current@.len() > 0,
                lineage_links(self.store@, trace_id@, derefs(chain@)),
            invariant
                n == self.store@.len(),
                chain@.len() <= n,
            ensures
                lineage_links(self.store@, trace_id@, derefs(chain@)),
                lineage_ends(self.store@, trace_id@, derefs(chain@)),
            decreases n - chain@.len(),
        {
            let ghost before = derefs(chain@);
            match self.find_index(current.as_str()) {
                Some(i) => {
                    chain.push(&self.store[i]);
                    assert(derefs(chain@) =~= before.push(self.store@[i as int]));
                    assert forall|k: int| 0 <= k < derefs(chain@).len() - 1 implies (#[trigger] derefs(
                        chain@,
                    )[k]).lineage_ref@.len() > 0 && exists|j: int|
                        first_with_id(self.store@, derefs(chain@)[k].lineage_ref@, j)
                            && derefs(chain@)[k + 1] == self.store@[j] by {
                        if k < before.len() - 1 {
                            assert(derefs(chain@)[k] == before[k]);
                            assert(derefs(chain@)[k + 1] == before[k + 1]);
                        } else {
                            assert(derefs(chain@)[k + 1] == self.store@[i as int]);
                        }
                    }
                    if self.store[i].lineage_ref.as_str().is_empty() {
                        break;
                    }
                    current = self.store[i].lineage_ref.clone();
                },
                None => {
                    break;
                },
            }
        }
        chain
    }

    /// The first trace carrying `trace_id`.
    pub fn find_by_id(&self, trace_id: &str) -> (r: Option<&CognitiveTrace>)
        ensures
            r is None <==> no_trace_with_id(self.traces(), trace_id@),
            r matches Some(t) ==> exists|i: int| first_with_id(self.traces(), trace_id@, i) && *t == self.traces()[i],
    {
        match self.find_index(trace_id) {
            Some(i) => Some(&self.store[i]),
            None => None,
        }
    }

    /// Counts per verdict.
    pub fn stats(&self) -> (r: TraceStats)
        ensures
            r.total == self.traces().len(),
            r.raw_pending == count_verdict(self.traces(), ShadowVerdict::RawPending),
            r.verified_optimal == count_verdict(self.traces(), ShadowVerdict::VerifiedOptimal),
            r.verified_negative == count_verdict(self.traces(), ShadowVerdict::VerifiedNegative),
            r.shadow_hold == count_verdict(self.traces(), ShadowVerdict::ShadowHold),
            r.raw_pending + r.verified_optimal + r.verified_negative + r.shadow_hold == r.total,
    {
        proof {
            law_verdict_counts_partition(self.traces());
        }
        TraceStats {
            total: self.store.len(),
            raw_pending: self.count(ShadowVerdict::RawPending),
            verified_optimal: self.count(ShadowVerdict::VerifiedOptimal),
            verified_negative: self.count(ShadowVerdict::VerifiedNegative),
            shadow_hold: self.count(ShadowVerdict::ShadowHold),
        }
    }

    fn count(&self, v: ShadowVerdict) -> (r: usize)
        ensures
            r == count_verdict(self.traces(), v),
    {
        let ghost pred = with_verdict(v);
        let mut n: usize = 0;
        let mut i: usize = 0;
        while i < self.store.len()
            invariant
                i <= self.store@.len(),
                pred == with_verdict(v),
                n == self.store@.take(i as int).filter(pred).len(),
                n <= i,
            decreases self.store@.len() - i,
        {
            proof {
                lemma_filter_take_step(self.store@, i as int, pred);
            }
            if self.store[i].shadow_verdict == v {
                n += 1;
            }
            i += 1;
        }
        proof {
            lemma_take_full(self.store@);
        }
        n
    }

    pub fn len(&self) -> (r: usize)
        ensures
            r == self.traces().len(),
    {
        self.store.len()
    }

    pub fn is_empty(&self) -> (r: bool)
        ensures
            r == (self.traces().len() == 0),
    {
        self.store.len() == 0
    }
}

impl Default for RawCognitiveTrace {
    fn default() -> (r: Self)
        ensures
            r.wf(),
            r.traces().len() == 0,
    {
        Self::new()
    }
}

} // verus!
