//! The sealed entry points: a session is opened and a message ingested only
//! under the module's seal; a wrong seal is refused before anything changes.

use vstd::prelude::*;
use vstd::string::StringExecFns;
use crate::text::{hex_upper, push_hex_upper, trim_chars, lower_chars, str_eq, ascii_lower, trimmed};
use super::types::{PD_SEAL, DebateMode, PdEngineOutput, PdError, PdResponseType, PdContinuationBasis};
use crate::pd_continuum_contract::PdContinuumBasis;
use super::engine::{ProgressiveDebatic, pd_wf, find_session, open_effect, ingest_effect};

verus! {

/// The refusal of a wrong seal: the difference from the module's seal.
pub open spec fn seal_refusal(runtime_seal: u64) -> Seq<char> {
    "delta=0x"@ + hex_upper(PD_SEAL ^ runtime_seal, 16)
}

/// Opens the module's seal gate with the seal presented at run time.
pub fn authorize(runtime_seal: u64) -> (r: Result<(), PdError>)
    ensures
        runtime_seal == PD_SEAL ==> r is Ok,
        runtime_seal != PD_SEAL ==> (r matches Err(PdError::SealInvalid(m)) && m@ == seal_refusal(
            runtime_seal,
        )),
{
    if runtime_seal == PD_SEAL {
        return Ok(());
    }
    let mut m = String::from_str("delta=0x");
    push_hex_upper(&mut m, PD_SEAL ^ runtime_seal, 16);
    Err(PdError::SealInvalid(m))
}

/// The question a cycle's output carries forward, with its response kind:
/// a turn's hint, the next step of a genius concept, or nothing.
pub open spec fn output_question_spec(output: PdEngineOutput) -> (Seq<char>, Seq<char>) {
    match output {
        PdEngineOutput::Continue { turn } => (
            turn.pd_response_hint@,
            turn.pd_response_type.label_spec(),
        ),
        PdEngineOutput::GeniusDetected { package, .. } => (
            "Cila provë konkrete e ngre konceptin '"@ + package.dominant_concept@
                + "' në hapin tjetër?"@,
            PdResponseType::ScaffoldStructure.label_spec(),
        ),
        PdEngineOutput::BudgetExhausted { .. } => (Seq::empty(), "BUDGET_EXHAUSTED"@),
        PdEngineOutput::SessionClosed { .. } => (Seq::empty(), "SESSION_CLOSED"@),
    }
}

pub fn output_question(output: &PdEngineOutput) -> (r: (String, &'static str))
    ensures
        r.0@ == output_question_spec(*output).0,
        r.1@ == output_question_spec(*output).1,
{
    match output {
        PdEngineOutput::Continue { turn } => (
            turn.pd_response_hint.clone(),
            turn.pd_response_type.label(),
        ),
        PdEngineOutput::GeniusDetected { package, .. } => {
            let mut q = String::from_str("Cila provë konkrete e ngre konceptin '");
            q.append(package.dominant_concept.as_str());
            q.append("' në hapin tjetër?");
            (q, PdResponseType::ScaffoldStructure.label())
        },
        PdEngineOutput::BudgetExhausted { .. } => (String::new(), "BUDGET_EXHAUSTED"),
        PdEngineOutput::SessionClosed { .. } => (String::new(), "SESSION_CLOSED"),
    }
}

/// The continuum contract's basis for a continuation basis.
pub fn continuum_basis(basis: PdContinuationBasis) -> (r: PdContinuumBasis)
    ensures
        r == (match basis {
            PdContinuationBasis::VerifiedPositive => PdContinuumBasis::VerifiedPositive,
            PdContinuationBasis::VerifiedNegativeRebuild => PdContinuumBasis::VerifiedNegativeRebuild,
        }),
{
    match basis {
        PdContinuationBasis::VerifiedPositive => PdContinuumBasis::VerifiedPositive,
        PdContinuationBasis::VerifiedNegativeRebuild => PdContinuumBasis::VerifiedNegativeRebuild,
    }
}


/// The opening mode for a declared territory, read trimmed and in ASCII
/// lowercase: philosophy, science, or intellect for anything else.
pub open spec fn mode_for_territory_spec(territory: Seq<char>) -> DebateMode {
    let t = ascii_lower(trimmed(territory));
    if t == "philosophy"@ || t == "philosophical"@ {
        DebateMode::Philosophy
    } else if t == "science"@ || t == "scientific"@ || t == "research"@ {
        DebateMode::Scientific
    } else {
        DebateMode::Intellect
    }
}

/// The opening mode of a session comes from its declared territory alone;
/// a novel mode is never guessed from the text.
pub fn mode_for_territory(territory: &str) -> (r: DebateMode)
    ensures
        r == mode_for_territory_spec(territory@),
{
    let t = trim_chars(territory);
    let lowered = lower_chars(&t);
    let n = lowered.as_str();
    if str_eq(n, "philosophy") || str_eq(n, "philosophical") {
        DebateMode::Philosophy
    } else if str_eq(n, "science") || str_eq(n, "scientific") || str_eq(n, "research") {
        DebateMode::Scientific
    } else {
        DebateMode::Intellect
    }
}

impl ProgressiveDebatic {
    /// Opens a session under the seal; a wrong seal changes nothing.
    pub fn open_session_sealed(
        &mut self,
        session_id: &str,
        territory: &str,
        mode: DebateMode,
        ts: u64,
        runtime_seal: u64,
    ) -> (r: Result<(), PdError>)
        requires
            pd_wf(*old(self)),
        ensures
            runtime_seal != PD_SEAL ==> *final(self) == *old(self) && (r matches Err(
                PdError::SealInvalid(m),
            ) && m@ == seal_refusal(runtime_seal)),
            runtime_seal == PD_SEAL ==> r is Ok && open_effect(
                *old(self),
                *final(self),
                session_id@,
                territory@,
                mode,
                ts,
            ),
    {
        match authorize(runtime_seal) {
            Ok(()) => {
                self.open_session(session_id, territory, mode, ts);
                Ok(())
            },
            Err(e) => Err(e),
        }
    }

    /// Ingests a message under the seal; a wrong seal changes nothing.
    pub fn ingest_sealed(&mut self, session_id: &str, content: &str, ts: u64, runtime_seal: u64) -> (r:
        Result<PdEngineOutput, PdError>)
        requires
            pd_wf(*old(self)),
            find_session(old(self).sessions@, session_id@) matches Some(i) ==> {
                &&& old(self).sessions@[i].trace.total_turns < u32::MAX
                &&& old(self).sessions@[i].pressure_budget.challenges_issued < u32::MAX
            },
        ensures
            runtime_seal != PD_SEAL ==> *final(self) == *old(self) && (r matches Err(
                PdError::SealInvalid(m),
            ) && m@ == seal_refusal(runtime_seal)),
            runtime_seal == PD_SEAL ==> ingest_effect(
                *old(self),
                *final(self),
                session_id@,
                content@,
                ts,
                r,
            ),
    {
        match authorize(runtime_seal) {
            Ok(()) => self.ingest(session_id, content, ts),
            Err(e) => Err(e),
        }
    }
}

} // verus!
