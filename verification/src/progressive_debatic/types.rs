//! Types of the progressive debatic layer: the signals, the epistemic trace,
//! the genius signal, the pressure budget, the engine outputs and the
//! verified-continuation records.

use vstd::prelude::*;
use vstd::string::StringExecFns;
use crate::codec::{fnv64, fnv_extend, FNV_OFFSET, FNV_PRIME, utf8};
use crate::text::{hex_lower, push_hex, owned};
use crate::pd_continuum_contract::PdContinuumCompletion;
use crate::words::strs;

verus! {

/// The seal of the progressive debatic module: the FNV-1a digest of the
/// module name `PROGRESSIVE_DEBATIC`.
pub const PD_SEAL: u64 = 0xf57c_119a_6888_0b29;

/// The fold behind every PD identifier: start from the FNV offset basis,
/// and for each part take the part's FNV-1a digest xor the previous state
/// multiplied (mod 2^64) by the FNV prime.
pub open spec fn pd_fold(parts: Seq<Seq<u8>>) -> u64
    decreases parts.len(),
{
    if parts.len() == 0 {
        FNV_OFFSET
    } else {
        fnv64(parts.last()) ^ pd_fold(parts.drop_last()).wrapping_mul(FNV_PRIME)
    }
}

/// The 12 lowercase hexadecimal digits of the low 48 bits of the fold.
pub open spec fn pd_id_spec(parts: Seq<Seq<u8>>) -> Seq<char> {
    hex_lower(pd_fold(parts) & 0xFFFF_FFFF_FFFF, 12)
}

pub open spec fn views(parts: Seq<&[u8]>) -> Seq<Seq<u8>> {
    parts.map_values(|p: &[u8]| p@)
}

/// A deterministic 12-digit hexadecimal identifier for a list of byte parts.
pub fn pd_id(parts: &[&[u8]]) -> (r: String)
    ensures
        r@ == pd_id_spec(views(parts@)),
{
    let mut h: u64 = FNV_OFFSET;
    let mut i: usize = 0;
    while i < parts.len()
        invariant
            i <= parts@.len(),
            h == pd_fold(views(parts@).take(i as int)),
        decreases parts@.len() - i,
    {
        let d = fnv_extend(FNV_OFFSET, parts[i]);
        h = d ^ h.wrapping_mul(FNV_PRIME);
        assert(views(parts@).take(i + 1).drop_last() =~= views(parts@).take(i as int));
        i += 1;
    }
    assert(views(parts@).take(i as int) =~= views(parts@));
    let mut out = String::new();
    push_hex(&mut out, h & 0xFFFF_FFFF_FFFF, 12);
    out
}

/// Every PD identifier is twelve lowercase hexadecimal digits.
pub proof fn law_pd_id_is_twelve_hex_digits(parts: Seq<Seq<u8>>)
    ensures
        pd_id_spec(parts).len() == 12,
        forall|i: int|
            0 <= i < 12 ==> {
                let c = #[trigger] pd_id_spec(parts)[i];
                ('0' <= c && c <= '9') || ('a' <= c && c <= 'f')
            },
{
    let x = pd_fold(parts) & 0xFFFF_FFFF_FFFF;
    assert forall|i: int| 0 <= i < 12 implies {
        let c = #[trigger] pd_id_spec(parts)[i];
        ('0' <= c && c <= '9') || ('a' <= c && c <= 'f')
    } by {
        let sh = (4 * (12 - 1 - i)) as u64;
        let n = (x >> sh) & 0xf;
        assert(n < 16) by (bit_vector)
            requires
                n == (x >> sh) & 0xf,
        ;
        assert(pd_id_spec(parts)[i] == crate::text::hex_digit(n));
    }
}

/// The four ways of engaging.
#[derive(Debug, Clone, Copy, PartialEq, Eq, Structural)]
pub enum DebateMode {
    Intellect,
    Philosophy,
    Scientific,
    Novel,
}

impl DebateMode {
    pub open spec fn label_spec(self) -> Seq<char> {
        match self {
            DebateMode::Intellect => "INTELLECT"@,
            DebateMode::Philosophy => "PHILOSOPHY"@,
            DebateMode::Scientific => "SCIENTIFIC"@,
            DebateMode::Novel => "NOVEL"@,
        }
    }

    pub fn label(self) -> (r: &'static str)
        ensures
            r@ == self.label_spec(),
    {
        match self {
            DebateMode::Intellect => "INTELLECT",
            DebateMode::Philosophy => "PHILOSOPHY",
            DebateMode::Scientific => "SCIENTIFIC",
            DebateMode::Novel => "NOVEL",
        }
    }
}

/// One message, as processed at ingest.
#[derive(Debug, Clone)]
pub struct CognitiveSignal {
    pub signal_id: String,
    pub turn_index: u32,
    pub raw_content: String,
    pub content_length: u32,
    pub idea_density: u32,
    pub energy_level: u32,
    pub concept_refs: Vec<String>,
    pub contradicts: Vec<String>,
    pub returns_to: Vec<String>,
    pub timestamp: u64,
}

/// The mathematical content of a signal.
pub struct SignalView {
    pub signal_id: Seq<char>,
    pub turn_index: u32,
    pub raw_content: Seq<char>,
    pub content_length: u32,
    pub idea_density: u32,
    pub energy_level: u32,
    pub concept_refs: Seq<Seq<char>>,
    pub contradicts: Seq<Seq<char>>,
    pub returns_to: Seq<Seq<char>>,
    pub timestamp: u64,
}

impl View for CognitiveSignal {
    type V = SignalView;

    open spec fn view(&self) -> SignalView {
        SignalView {
            signal_id: self.signal_id@,
            turn_index: self.turn_index,
            raw_content: self.raw_content@,
            content_length: self.content_length,
            idea_density: self.idea_density,
            energy_level: self.energy_level,
            concept_refs: strs(self.concept_refs@),
            contradicts: strs(self.contradicts@),
            returns_to: strs(self.returns_to@),
            timestamp: self.timestamp,
        }
    }
}

/// A copy of a list of strings.
pub fn copy_strings(v: &Vec<String>) -> (r: Vec<String>)
    ensures
        strs(r@) == strs(v@),
{
    let mut out: Vec<String> = Vec::new();
    let mut i: usize = 0;
    while i < v.len()
        invariant
            i <= v@.len(),
            strs(out@) == strs(v@).take(i as int),
        decreases v@.len() - i,
    {
        out.push(v[i].clone());
        assert(strs(v@).take(i + 1) =~= strs(v@).take(i as int).push(v@[i as int]@));
        assert(strs(out@) =~= strs(v@).take(i + 1));
        i += 1;
    }
    assert(strs(v@).take(i as int) =~= strs(v@));
    out
}

impl CognitiveSignal {
    /// A copy with the same content.
    pub fn duplicate(&self) -> (r: Self)
        ensures
            r@ == self@,
    {
        CognitiveSignal {
            signal_id: self.signal_id.clone(),
            turn_index: self.turn_index,
            raw_content: self.raw_content.clone(),
            content_length: self.content_length,
            idea_density: self.idea_density,
            energy_level: self.energy_level,
            concept_refs: copy_strings(&self.concept_refs),
            contradicts: copy_strings(&self.contradicts),
            returns_to: copy_strings(&self.returns_to),
            timestamp: self.timestamp,
        }
    }
}

/// The trace accumulated over a session. The concept map holds each concept
/// once, with the number of signals that referred to it, in the order the
/// concepts first appeared.
#[derive(Debug, Clone)]
pub struct EpistemicTrace {
    pub trace_id: String,
    pub session_id: String,
    pub signals: Vec<CognitiveSignal>,
    pub total_turns: u32,
    pub dominant_concept: Option<String>,
    pub concept_map: Vec<(String, u32)>,
    pub energy_trajectory: Vec<u32>,
    pub idea_evolution: Vec<u32>,
    pub accumulated_mass: u32,
    pub structural_coherence: u32,
    pub implicit_primitives: Vec<String>,
    pub contradiction_pairs: Vec<(String, String)>,
    pub territory: String,
    pub started_at: u64,
    pub last_updated_at: u64,
}

pub open spec fn trace_id_spec(session_id: Seq<char>) -> Seq<char> {
    pd_id_spec(seq![utf8(session_id), utf8("trace"@)])
}

impl EpistemicTrace {
    /// An empty trace for a session.
    pub fn new(session_id: &str, territory: &str, started_at: u64) -> (r: Self)
        ensures
            r.trace_id@ == trace_id_spec(session_id@),
            r.session_id@ == session_id@,
            r.signals@.len() == 0,
            r.total_turns == 0,
            r.dominant_concept is None,
            r.concept_map@.len() == 0,
            r.energy_trajectory@.len() == 0,
            r.idea_evolution@.len() == 0,
            r.accumulated_mass == 0,
            r.structural_coherence == 0,
            r.implicit_primitives@.len() == 0,
            r.contradiction_pairs@.len() == 0,
            r.territory@ == territory@,
            r.started_at == started_at,
            r.last_updated_at == started_at,
    {
        let parts: [&[u8]; 2] = [session_id.as_bytes(), "trace".as_bytes()];
        let trace_id = pd_id(parts.as_slice());
        assert(views(parts@) =~= seq![utf8(session_id@), utf8("trace"@)]);
        EpistemicTrace {
            trace_id,
            session_id: owned(session_id),
            signals: Vec::new(),
            total_turns: 0,
            dominant_concept: None,
            concept_map: Vec::new(),
            energy_trajectory: Vec::new(),
            idea_evolution: Vec::new(),
            accumulated_mass: 0,
            structural_coherence: 0,
            implicit_primitives: Vec::new(),
            contradiction_pairs: Vec::new(),
            territory: owned(territory),
            started_at,
            last_updated_at: started_at,
        }
    }
}

/// The moment the system senses something real: three signals and a score.
#[derive(Debug, Clone)]
pub struct GeniusSignal {
    pub signal_id: String,
    pub session_id: String,
    pub returns_to_idea: bool,
    pub energy_increasing: bool,
    pub concept_gaining_shape: bool,
    pub returns_score: u32,
    pub energy_score: u32,
    pub shape_score: u32,
    pub genius_score: u32,
    pub detected_concept: String,
    pub detected_at_turn: u32,
    pub trace_ref: String,
    pub timestamp: u64,
}

impl GeniusSignal {
    /// A copy with the same fields.
    pub fn duplicate(&self) -> (r: Self)
        ensures
            r == *self,
    {
        GeniusSignal {
            signal_id: self.signal_id.clone(),
            session_id: self.session_id.clone(),
            returns_to_idea: self.returns_to_idea,
            energy_increasing: self.energy_increasing,
            concept_gaining_shape: self.concept_gaining_shape,
            returns_score: self.returns_score,
            energy_score: self.energy_score,
            shape_score: self.shape_score,
            genius_score: self.genius_score,
            detected_concept: self.detected_concept.clone(),
            detected_at_turn: self.detected_at_turn,
            trace_ref: self.trace_ref.clone(),
            timestamp: self.timestamp,
        }
    }
}

/// How far the layer may push before it withdraws.
#[derive(Debug, Clone, Copy, PartialEq, Eq, Structural)]
pub struct PressureBudget {
    pub challenges_issued: u32,
    pub current_mode: DebateMode,
    pub budget_exhausted: bool,
    pub user_resistance_detected: bool,
}

pub const MAX_INTELLECT: u32 = 2;
pub const MAX_PHILOSOPHY: u32 = 3;
pub const MAX_SCIENTIFIC: u32 = 4;
pub const MAX_NOVEL: u32 = 2;

/// The challenge limit of each mode.
pub open spec fn max_for_spec(mode: DebateMode) -> u32 {
    match mode {
        DebateMode::Intellect => MAX_INTELLECT,
        DebateMode::Philosophy => MAX_PHILOSOPHY,
        DebateMode::Scientific => MAX_SCIENTIFIC,
        DebateMode::Novel => MAX_NOVEL,
    }
}

impl PressureBudget {
    pub fn new(mode: DebateMode) -> (r: Self)
        ensures
            r == (PressureBudget {
                challenges_issued: 0,
                current_mode: mode,
                budget_exhausted: false,
                user_resistance_detected: false,
            }),
    {
        PressureBudget {
            challenges_issued: 0,
            current_mode: mode,
            budget_exhausted: false,
            user_resistance_detected: false,
        }
    }

    pub fn max_for(mode: DebateMode) -> (r: u32)
        ensures
            r == max_for_spec(mode),
    {
        match mode {
            DebateMode::Intellect => MAX_INTELLECT,
            DebateMode::Philosophy => MAX_PHILOSOPHY,
            DebateMode::Scientific => MAX_SCIENTIFIC,
            DebateMode::Novel => MAX_NOVEL,
        }
    }
}

/// What the layer decides to do on a turn.
#[derive(Debug, Clone, Copy, PartialEq, Eq, Structural)]
pub enum PdResponseType {
    Help,
    Orient,
    Clarify,
    ChallengeGentle,
    ChallengeWithFacts,
    ScaffoldBullet,
    ScaffoldMeasure,
    ScaffoldStructure,
    Listen,
}

impl PdResponseType {
    pub open spec fn label_spec(self) -> Seq<char> {
        match self {
            PdResponseType::Help => "HELP"@,
            PdResponseType::Orient => "ORIENT"@,
            PdResponseType::Clarify => "CLARIFY"@,
            PdResponseType::ChallengeGentle => "CHALLENGE_GENTLE"@,
            PdResponseType::ChallengeWithFacts => "CHALLENGE_WITH_FACTS"@,
            PdResponseType::ScaffoldBullet => "SCAFFOLD_BULLET"@,
            PdResponseType::ScaffoldMeasure => "SCAFFOLD_MEASURE"@,
            PdResponseType::ScaffoldStructure => "SCAFFOLD_STRUCTURE"@,
            PdResponseType::Listen => "LISTEN"@,
        }
    }

    pub fn label(self) -> (r: &'static str)
        ensures
            r@ == self.label_spec(),
    {
        match self {
            PdResponseType::Help => "HELP",
            PdResponseType::Orient => "ORIENT",
            PdResponseType::Clarify => "CLARIFY",
            PdResponseType::ChallengeGentle => "CHALLENGE_GENTLE",
            PdResponseType::ChallengeWithFacts => "CHALLENGE_WITH_FACTS",
            PdResponseType::ScaffoldBullet => "SCAFFOLD_BULLET",
            PdResponseType::ScaffoldMeasure => "SCAFFOLD_MEASURE",
            PdResponseType::ScaffoldStructure => "SCAFFOLD_STRUCTURE",
            PdResponseType::Listen => "LISTEN",
        }
    }

    pub open spec fn is_challenge_spec(self) -> bool {
        self == PdResponseType::ChallengeGentle || self == PdResponseType::ChallengeWithFacts
    }

    /// A challenge consumes budget.
    pub fn is_challenge(self) -> (r: bool)
        ensures
            r == self.is_challenge_spec(),
    {
        match self {
            PdResponseType::ChallengeGentle | PdResponseType::ChallengeWithFacts => true,
            _ => false,
        }
    }
}

/// One turn: the user's signal and the layer's decision.
#[derive(Debug, Clone)]
pub struct PdTurn {
    pub turn_id: String,
    pub turn_index: u32,
    pub user_signal: CognitiveSignal,
    pub pd_response_type: PdResponseType,
    pub pd_response_hint: String,
    pub challenge_issued: bool,
    pub mode_at_turn: DebateMode,
    pub genius_check: Option<u32>,
}

/// Two turns with the same content (the signals compared by their views).
pub open spec fn same_turn(a: PdTurn, b: PdTurn) -> bool {
    &&& a.turn_id == b.turn_id
    &&& a.turn_index == b.turn_index
    &&& a.user_signal@ == b.user_signal@
    &&& a.pd_response_type == b.pd_response_type
    &&& a.pd_response_hint == b.pd_response_hint
    &&& a.challenge_issued == b.challenge_issued
    &&& a.mode_at_turn == b.mode_at_turn
    &&& a.genius_check == b.genius_check
}

impl PdTurn {
    /// A copy with the same content.
    pub fn duplicate(&self) -> (r: Self)
        ensures
            same_turn(r, *self),
    {
        PdTurn {
            turn_id: self.turn_id.clone(),
            turn_index: self.turn_index,
            user_signal: self.user_signal.duplicate(),
            pd_response_type: self.pd_response_type,
            pd_response_hint: self.pd_response_hint.clone(),
            challenge_issued: self.challenge_issued,
            mode_at_turn: self.mode_at_turn,
            genius_check: self.genius_check,
        }
    }
}

/// What the engine hands back after a turn.
#[derive(Debug, Clone)]
pub enum PdEngineOutput {
    Continue { turn: PdTurn },
    GeniusDetected { genius_signal: GeniusSignal, package: PdCognitivePackage },
    BudgetExhausted { trace_id: String },
    SessionClosed { session_id: String, reason: String },
}

/// The receipt of the first (preparation) phase.
#[derive(Debug, Clone)]
pub struct PdPreSealReceipt {
    pub seal: u64,
    pub session_id: String,
    pub parent_i0: String,
    pub receipt_id: String,
    pub prepared_at: u64,
    pub spine_activation_id: u64,
    pub spine_completion_digest: u64,
    pub layer_mask: u8,
    pub mpro_mass: u32,
    pub action_sha256: [u8; 32],
    pub law_trace_sha256: [u8; 32],
}

/// The action authorization handed out with a pre-seal.
#[derive(Debug, Clone)]
pub struct GclActionAuthorizationToken {
    pub contract_version: u32,
    pub action_sha256: [u8; 32],
    pub law_trace_sha256: [u8; 32],
    pub law_mask: u32,
    pub verdict: u8,
    pub issued_at: u64,
}

/// The sealed receipt of a verified output, as it comes back for release.
#[derive(Debug, Clone)]
pub struct PdVerificationCompletion {
    pub session_id: String,
    pub parent_i0: String,
    pub primitive_anchor: u64,
    pub xy_digest: u64,
    pub pd_binding_digest: u64,
    pub pd_continuum_activation_digest: u64,
    pub y_verdict: u8,
    pub x_verdict: u8,
    pub verification_seal: u64,
    pub verification_generation: u64,
    pub verification_receipt_id: String,
    pub living_trust_sha256: [u8; 32],
    pub living_trust_intensity: u32,
    pub living_trust_kind: u8,
    pub living_trust_sovereign_value: u32,
    pub living_trust_digest: u64,
}

/// Whether a continuation rests on a verified positive or a rebuilt negative.
#[derive(Debug, Clone, Copy, PartialEq, Eq, Structural)]
pub enum PdContinuationBasis {
    VerifiedPositive,
    VerifiedNegativeRebuild,
}

impl PdContinuationBasis {
    pub open spec fn label_spec(self) -> Seq<char> {
        match self {
            PdContinuationBasis::VerifiedPositive => "VERIFIED_POSITIVE"@,
            PdContinuationBasis::VerifiedNegativeRebuild => "VERIFIED_NEGATIVE_REBUILD"@,
        }
    }

    pub fn label(self) -> (r: &'static str)
        ensures
            r@ == self.label_spec(),
    {
        match self {
            PdContinuationBasis::VerifiedPositive => "VERIFIED_POSITIVE",
            PdContinuationBasis::VerifiedNegativeRebuild => "VERIFIED_NEGATIVE_REBUILD",
        }
    }
}

/// The next `i₀` derived from a verified output and its iZ.
#[derive(Debug, Clone)]
pub struct PdNextI0 {
    pub session_id: String,
    pub parent_i0: String,
    pub next_i0_id: String,
    pub question: String,
    pub basis: PdContinuationBasis,
    pub y_verdict: u8,
    pub x_verdict: u8,
    pub verification_seal: u64,
    pub verification_generation: u64,
    pub verification_receipt_id: String,
    pub primitive_anchor: u64,
    pub xy_digest: u64,
    pub pd_binding_digest: u64,
    pub continuum_activation_digest: u64,
    pub question_increment_digest: u64,
    pub pd_output_id: String,
    pub pd_output_digest: u64,
    pub iz_id: String,
    pub iz_digest: u64,
    pub iz_sha256: [u8; 32],
    pub living_trust_sha256: [u8; 32],
    pub living_trust_intensity: u32,
    pub living_trust_kind: u8,
    pub living_trust_sovereign_value: u32,
    pub living_trust_digest: u64,
    pub continuum_completion_digest: u64,
}

/// The released output of a verified cycle.
#[derive(Debug, Clone)]
pub struct PdVerifiedOutput {
    pub output_id: String,
    pub output_digest: u64,
    pub session_id: String,
    pub parent_i0: String,
    pub turn_id: String,
    pub question: String,
    pub response_type: PdResponseType,
    pub mpro_mass: u32,
    pub y_verdict: u8,
    pub x_verdict: u8,
    pub verification_receipt_id: String,
}

/// The iZ completion bound to a verified output.
#[derive(Debug, Clone)]
pub struct PdIzCompletion {
    pub iz_id: String,
    pub iz_digest: u64,
    pub iz_sha256: [u8; 32],
    pub origin_i0: String,
    pub question_increment_digest: u64,
    pub pd_output_digest: u64,
    pub verification_receipt_id: String,
    pub basis: PdContinuationBasis,
    pub living_trust_sha256: [u8; 32],
    pub living_trust_intensity: u32,
    pub living_trust_kind: u8,
    pub living_trust_sovereign_value: u32,
    pub living_trust_digest: u64,
}

/// Output, iZ and next `i₀` with the closed continuum contract.
#[derive(Debug, Clone)]
pub struct PdContinuumClosure {
    pub output: PdVerifiedOutput,
    pub iz: PdIzCompletion,
    pub next_i0: PdNextI0,
    pub contract: PdContinuumCompletion,
}

/// How a verified cycle ends.
#[derive(Debug, Clone)]
pub enum PdFinalization {
    Released(PdContinuumClosure),
    RebuiltFromNegative(PdContinuumClosure),
    Rejected { reason: String },
}

/// The layer's suggestion of a category (never a fact candidate).
#[derive(Debug, Clone)]
pub struct PdPreClassification {
    pub suggested_category: String,
    pub confidence_hint: u32,
    pub reasoning: String,
}

/// The material handed on after a genius signal.
#[derive(Debug, Clone)]
pub struct PdCognitivePackage {
    pub package_id: String,
    pub session_id: String,
    pub genius_signal: GeniusSignal,
    pub pre_classification: PdPreClassification,
    pub accumulated_text: String,
    pub dominant_concept: String,
    pub concept_territory: String,
    pub accumulated_mass: u32,
    pub structural_coherence: u32,
    pub accumulated_turns: u32,
    pub estimated_trl: u8,
    pub origin: String,
    pub created_at: u64,
}

#[derive(Debug, Clone, PartialEq, Eq)]
pub enum PdError {
    SealInvalid(String),
    SessionNotFound(String),
    BroadcastMissing,
    TraceIngestFailed(String),
    BridgeFailed(String),
    BudgetViolation,
}

pub open spec fn pd_error_message(e: PdError) -> Seq<char> {
    match e {
        PdError::SealInvalid(m) => "PD seal invalid: "@ + m@,
        PdError::SessionNotFound(m) => "PD session not found: "@ + m@,
        PdError::BroadcastMissing => "PD broadcast missing"@,
        PdError::TraceIngestFailed(m) => "PD trace ingest failed: "@ + m@,
        PdError::BridgeFailed(m) => "PD bridge failed: "@ + m@,
        PdError::BudgetViolation => "PD budget violation"@,
    }
}

impl PdError {
    /// The human-readable message of the error.
    pub fn message(&self) -> (r: String)
        ensures
            r@ == pd_error_message(*self),
    {
        match self {
            PdError::SealInvalid(m) => {
                let mut s = String::from_str("PD seal invalid: ");
                s.append(m.as_str());
                s
            },
            PdError::SessionNotFound(m) => {
                let mut s = String::from_str("PD session not found: ");
                s.append(m.as_str());
                s
            },
            PdError::BroadcastMissing => String::from_str("PD broadcast missing"),
            PdError::TraceIngestFailed(m) => {
                let mut s = String::from_str("PD trace ingest failed: ");
                s.append(m.as_str());
                s
            },
            PdError::BridgeFailed(m) => {
                let mut s = String::from_str("PD bridge failed: ");
                s.append(m.as_str());
                s
            },
            PdError::BudgetViolation => String::from_str("PD budget violation"),
        }
    }
}

} // verus!
