//! The continuum contract `i + U → i₀ → i₀ + 1Q → output + iZ → next i₀`:
//! each stage is a record bound to the previous one by an FNV-1a digest, and
//! each stage can re-derive its digests to check that it was not altered.

use vstd::prelude::*;
use crate::codec::{Fnv64, fnv64, fnv_parts, concat_parts, part_views, le32, le64, utf8};
use crate::text::{str_is_blank, is_blank, owned, push_hex, hex_lower, str_eq};

verus! {

pub const PD_CONTINUUM_CONTRACT_VERSION: u32 = 0x0001_0601;
pub const QUESTION_INCREMENT_UNITS: u32 = 1;

/// The stage a continuum record is in.
#[derive(Debug, Clone, Copy, PartialEq, Eq, Structural)]
pub enum PdContinuumState {
    I0Stimulated,
    QuestionIncremented,
    SpineActivated,
    VerifiedOutput,
    IzCompleted,
    NextI0Derived,
}

impl PdContinuumState {
    pub open spec fn label_spec(self) -> Seq<char> {
        match self {
            PdContinuumState::I0Stimulated => "I0_STIMULATED"@,
            PdContinuumState::QuestionIncremented => "I0_PLUS_1Q"@,
            PdContinuumState::SpineActivated => "PD_SPINE9_ACTIVATED"@,
            PdContinuumState::VerifiedOutput => "PD_VERIFIED_OUTPUT"@,
            PdContinuumState::IzCompleted => "IZ_COMPLETED"@,
            PdContinuumState::NextI0Derived => "OUTPUT_PLUS_IZ_TO_NEXT_I0"@,
        }
    }

    pub fn label(self) -> (r: &'static str)
        ensures
            r@ == self.label_spec(),
    {
        match self {
            PdContinuumState::I0Stimulated => "I0_STIMULATED",
            PdContinuumState::QuestionIncremented => "I0_PLUS_1Q",
            PdContinuumState::SpineActivated => "PD_SPINE9_ACTIVATED",
            PdContinuumState::VerifiedOutput => "PD_VERIFIED_OUTPUT",
            PdContinuumState::IzCompleted => "IZ_COMPLETED",
            PdContinuumState::NextI0Derived => "OUTPUT_PLUS_IZ_TO_NEXT_I0",
        }
    }
}

/// Whether the continuation rests on a verified positive or a rebuilt negative.
#[derive(Debug, Clone, Copy, PartialEq, Eq, Structural)]
pub enum PdContinuumBasis {
    VerifiedPositive,
    VerifiedNegativeRebuild,
}

impl PdContinuumBasis {
    pub open spec fn label_spec(self) -> Seq<char> {
        match self {
            PdContinuumBasis::VerifiedPositive => "VERIFIED_POSITIVE"@,
            PdContinuumBasis::VerifiedNegativeRebuild => "VERIFIED_NEGATIVE_REBUILD"@,
        }
    }

    pub fn label(self) -> (r: &'static str)
        ensures
            r@ == self.label_spec(),
    {
        match self {
            PdContinuumBasis::VerifiedPositive => "VERIFIED_POSITIVE",
            PdContinuumBasis::VerifiedNegativeRebuild => "VERIFIED_NEGATIVE_REBUILD",
        }
    }

    /// The basis whose label is `label`, if any.
    pub fn from_label(label: &str) -> (r: Option<Self>)
        ensures
            r matches Some(b) ==> b.label_spec() == label@,
            r is None ==> label@ != "VERIFIED_POSITIVE"@ && label@ != "VERIFIED_NEGATIVE_REBUILD"@,
    {
        if str_eq(label, "VERIFIED_POSITIVE") {
            Some(PdContinuumBasis::VerifiedPositive)
        } else if str_eq(label, "VERIFIED_NEGATIVE_REBUILD") {
            Some(PdContinuumBasis::VerifiedNegativeRebuild)
        } else {
            None
        }
    }
}

/// FNV-1a digest of the UTF-8 bytes of a text.
pub open spec fn text_digest(s: Seq<char>) -> u64 {
    fnv64(utf8(s))
}

/// The bytes bound by the `i + U → i₀` stimulus digest.
pub open spec fn stimulus_material(
    version: u32,
    session_digest: u64,
    initial_i_digest: u64,
    user_input_digest: u64,
    i0_digest: u64,
    created_at: u64,
) -> Seq<u8> {
    le32(version) + le64(session_digest) + le64(initial_i_digest) + le64(user_input_digest) + le64(
        i0_digest,
    ) + le64(created_at) + utf8("I_PLUS_U_TO_I0"@)
}

/// `i + U → i₀`: the session's initial state and the user's real input bound
/// to the existing primitive identity.
#[derive(Debug, Clone, PartialEq, Eq, Structural)]
pub struct PdI0Stimulus {
    pub contract_version: u32,
    pub session_digest: u64,
    pub initial_i_digest: u64,
    pub user_input_digest: u64,
    pub i0_digest: u64,
    pub stimulus_digest: u64,
    pub created_at: u64,
    pub state: PdContinuumState,
}

/// The stimulus built from a session, a parent `i₀`, a user input and a time.
pub open spec fn stimulus_spec(session_id: Seq<char>, parent_i0: Seq<char>, user_input: Seq<char>, created_at: u64) -> PdI0Stimulus {
    let session_digest = text_digest(session_id);
    let initial_i_digest = fnv64(utf8(session_id) + utf8("GCL_INITIAL_I"@));
    let user_input_digest = text_digest(user_input);
    let i0_digest = text_digest(parent_i0);
    PdI0Stimulus {
        contract_version: PD_CONTINUUM_CONTRACT_VERSION,
        session_digest,
        initial_i_digest,
        user_input_digest,
        i0_digest,
        stimulus_digest: fnv64(stimulus_material(PD_CONTINUUM_CONTRACT_VERSION, session_digest, initial_i_digest,
            user_input_digest, i0_digest, created_at)),
        created_at,
        state: PdContinuumState::I0Stimulated,
    }
}

/// A stimulus verifies when its version and state are canonical, its
/// component digests are non-zero and its own digest re-derives.
pub open spec fn stimulus_verifies(s: PdI0Stimulus) -> bool {
    &&& s.contract_version == PD_CONTINUUM_CONTRACT_VERSION
    &&& s.session_digest != 0
    &&& s.initial_i_digest != 0
    &&& s.user_input_digest != 0
    &&& s.i0_digest != 0
    &&& s.stimulus_digest == fnv64(stimulus_material(s.contract_version, s.session_digest,
        s.initial_i_digest, s.user_input_digest, s.i0_digest, s.created_at))
    &&& s.state == PdContinuumState::I0Stimulated
}

fn stimulus_digest_of(
    version: u32,
    session_digest: u64,
    initial_i_digest: u64,
    user_input_digest: u64,
    i0_digest: u64,
    created_at: u64,
) -> (r: u64)
    ensures
        r == fnv64(stimulus_material(version, session_digest, initial_i_digest, user_input_digest, i0_digest, created_at)),
{
    let mut h = Fnv64::new();
    h.update_u32(version);
    h.update_u64(session_digest);
    h.update_u64(initial_i_digest);
    h.update_u64(user_input_digest);
    h.update_u64(i0_digest);
    h.update_u64(created_at);
    h.update_str("I_PLUS_U_TO_I0");
    assert(h.absorbed() =~= stimulus_material(version, session_digest, initial_i_digest, user_input_digest, i0_digest, created_at));
    h.finish()
}

/// FNV-1a digest of the UTF-8 bytes of a string slice.
pub fn str_digest(s: &str) -> (r: u64)
    ensures
        r == text_digest(s@),
{
    let mut h = Fnv64::new();
    h.update_str(s);
    assert(h.absorbed() =~= utf8(s@));
    h.finish()
}

impl PdI0Stimulus {
    pub fn new(session_id: &str, parent_i0: &str, user_input: &str, created_at: u64) -> (r: Self)
        ensures
            r == stimulus_spec(session_id@, parent_i0@, user_input@, created_at),
    {
        let session_digest = str_digest(session_id);
        let mut h = Fnv64::new();
        h.update_str(session_id);
        h.update_str("GCL_INITIAL_I");
        assert(h.absorbed() =~= utf8(session_id@) + utf8("GCL_INITIAL_I"@));
        let initial_i_digest = h.finish();
        let user_input_digest = str_digest(user_input);
        let i0_digest = str_digest(parent_i0);
        let stimulus_digest = stimulus_digest_of(
            PD_CONTINUUM_CONTRACT_VERSION,
            session_digest,
            initial_i_digest,
            user_input_digest,
            i0_digest,
            created_at,
        );
        PdI0Stimulus {
            contract_version: PD_CONTINUUM_CONTRACT_VERSION,
            session_digest,
            initial_i_digest,
            user_input_digest,
            i0_digest,
            stimulus_digest,
            created_at,
            state: PdContinuumState::I0Stimulated,
        }
    }

    pub fn verifies(&self) -> (r: bool)
        ensures
            r == stimulus_verifies(*self),
    {
        self.contract_version == PD_CONTINUUM_CONTRACT_VERSION && self.session_digest != 0
            && self.initial_i_digest != 0 && self.user_input_digest != 0 && self.i0_digest != 0
            && self.stimulus_digest == stimulus_digest_of(
            self.contract_version,
            self.session_digest,
            self.initial_i_digest,
            self.user_input_digest,
            self.i0_digest,
            self.created_at,
        ) && self.state == PdContinuumState::I0Stimulated
    }
}

/// The bytes bound by the `i₀ + 1Q` increment digest.
pub open spec fn increment_material(
    version: u32,
    stimulus_digest: u64,
    unit_count: u32,
    question_digest: u64,
    response_kind_digest: u64,
    created_at: u64,
) -> Seq<u8> {
    le32(version) + le64(stimulus_digest) + le32(unit_count) + le64(question_digest) + le64(
        response_kind_digest,
    ) + le64(created_at) + utf8("I0_PLUS_ONE_QUESTION_IQ"@)
}

/// `1Q`: a single question increment on a stimulus; a blank question counts zero units.
#[derive(Debug, Clone, PartialEq, Eq, Structural)]
pub struct PdQuestionIncrement {
    pub contract_version: u32,
    pub stimulus_digest: u64,
    pub unit_count: u32,
    pub question_digest: u64,
    pub response_kind_digest: u64,
    pub increment_digest: u64,
    pub created_at: u64,
    pub state: PdContinuumState,
}

/// The increment built on `stimulus` from a question and a response kind.
pub open spec fn increment_spec(stimulus: PdI0Stimulus, question: Seq<char>, response_kind: Seq<char>, created_at: u64) -> PdQuestionIncrement {
    let unit_count: u32 = if is_blank(question) { 0 } else { QUESTION_INCREMENT_UNITS };
    let question_digest = text_digest(question);
    let response_kind_digest = text_digest(response_kind);
    PdQuestionIncrement {
        contract_version: PD_CONTINUUM_CONTRACT_VERSION,
        stimulus_digest: stimulus.stimulus_digest,
        unit_count,
        question_digest,
        response_kind_digest,
        increment_digest: fnv64(increment_material(PD_CONTINUUM_CONTRACT_VERSION, stimulus.stimulus_digest,
            unit_count, question_digest, response_kind_digest, created_at)),
        created_at,
        state: PdContinuumState::QuestionIncremented,
    }
}

/// An increment verifies against a verifying stimulus it is bound to, with exactly one unit.
pub open spec fn increment_verifies(q: PdQuestionIncrement, stimulus: PdI0Stimulus) -> bool {
    &&& q.contract_version == PD_CONTINUUM_CONTRACT_VERSION
    &&& stimulus_verifies(stimulus)
    &&& q.stimulus_digest == stimulus.stimulus_digest
    &&& q.unit_count == QUESTION_INCREMENT_UNITS
    &&& q.question_digest != 0
    &&& q.response_kind_digest != 0
    &&& q.increment_digest == fnv64(increment_material(q.contract_version, q.stimulus_digest,
        q.unit_count, q.question_digest, q.response_kind_digest, q.created_at))
    &&& q.state == PdContinuumState::QuestionIncremented
}

fn increment_digest_of(
    version: u32,
    stimulus_digest: u64,
    unit_count: u32,
    question_digest: u64,
    response_kind_digest: u64,
    created_at: u64,
) -> (r: u64)
    ensures
        r == fnv64(increment_material(version, stimulus_digest, unit_count, question_digest, response_kind_digest, created_at)),
{
    let mut h = Fnv64::new();
    h.update_u32(version);
    h.update_u64(stimulus_digest);
    h.update_u32(unit_count);
    h.update_u64(question_digest);
    h.update_u64(response_kind_digest);
    h.update_u64(created_at);
    h.update_str("I0_PLUS_ONE_QUESTION_IQ");
    assert(h.absorbed() =~= increment_material(version, stimulus_digest, unit_count, question_digest, response_kind_digest, created_at));
    h.finish()
}

impl PdQuestionIncrement {
    pub fn new(stimulus: &PdI0Stimulus, question: &str, response_kind: &str, created_at: u64) -> (r: Self)
        ensures
            r == increment_spec(*stimulus, question@, response_kind@, created_at),
    {
        let unit_count: u32 = if str_is_blank(question) { 0 } else { QUESTION_INCREMENT_UNITS };
        let question_digest = str_digest(question);
        let response_kind_digest = str_digest(response_kind);
        let increment_digest = increment_digest_of(
            PD_CONTINUUM_CONTRACT_VERSION,
            stimulus.stimulus_digest,
            unit_count,
            question_digest,
            response_kind_digest,
            created_at,
        );
        PdQuestionIncrement {
            contract_version: PD_CONTINUUM_CONTRACT_VERSION,
            stimulus_digest: stimulus.stimulus_digest,
            unit_count,
            question_digest,
            response_kind_digest,
            increment_digest,
            created_at,
            state: PdContinuumState::QuestionIncremented,
        }
    }

    pub fn verifies(&self, stimulus: &PdI0Stimulus) -> (r: bool)
        ensures
            r == increment_verifies(*self, *stimulus),
    {
        self.contract_version == PD_CONTINUUM_CONTRACT_VERSION && stimulus.verifies()
            && self.stimulus_digest == stimulus.stimulus_digest
            && self.unit_count == QUESTION_INCREMENT_UNITS && self.question_digest != 0
            && self.response_kind_digest != 0 && self.increment_digest == increment_digest_of(
            self.contract_version,
            self.stimulus_digest,
            self.unit_count,
            self.question_digest,
            self.response_kind_digest,
            self.created_at,
        ) && self.state == PdContinuumState::QuestionIncremented
    }
}

/// The bytes bound by the activation digest.
pub open spec fn activation_material(version: u32, stimulus_digest: u64, increment_digest: u64) -> Seq<u8> {
    le32(version) + le64(stimulus_digest) + le64(increment_digest) + utf8("PD_CONTINUUM_ACTIVATION"@)
}

/// The activation handed to Spine 9: one stimulus and its single increment.
#[derive(Debug, Clone, PartialEq, Eq, Structural)]
pub struct PdContinuumActivation {
    pub contract_version: u32,
    pub stimulus: PdI0Stimulus,
    pub question_increment: PdQuestionIncrement,
    pub activation_digest: u64,
    pub state: PdContinuumState,
}

pub open spec fn activation_spec(
    session_id: Seq<char>,
    parent_i0: Seq<char>,
    user_input: Seq<char>,
    question: Seq<char>,
    response_kind: Seq<char>,
    created_at: u64,
) -> PdContinuumActivation {
    let stimulus = stimulus_spec(session_id, parent_i0, user_input, created_at);
    let question_increment = increment_spec(stimulus, question, response_kind, created_at);
    PdContinuumActivation {
        contract_version: PD_CONTINUUM_CONTRACT_VERSION,
        stimulus,
        question_increment,
        activation_digest: fnv64(activation_material(PD_CONTINUUM_CONTRACT_VERSION,
            stimulus.stimulus_digest, question_increment.increment_digest)),
        state: PdContinuumState::SpineActivated,
    }
}

pub open spec fn activation_ready(a: PdContinuumActivation) -> bool {
    &&& a.contract_version == PD_CONTINUUM_CONTRACT_VERSION
    &&& stimulus_verifies(a.stimulus)
    &&& increment_verifies(a.question_increment, a.stimulus)
    &&& a.activation_digest == fnv64(activation_material(a.contract_version,
        a.stimulus.stimulus_digest, a.question_increment.increment_digest))
    &&& a.state == PdContinuumState::SpineActivated
}

fn activation_digest_of(version: u32, stimulus_digest: u64, increment_digest: u64) -> (r: u64)
    ensures
        r == fnv64(activation_material(version, stimulus_digest, increment_digest)),
{
    let mut h = Fnv64::new();
    h.update_u32(version);
    h.update_u64(stimulus_digest);
    h.update_u64(increment_digest);
    h.update_str("PD_CONTINUUM_ACTIVATION");
    assert(h.absorbed() =~= activation_material(version, stimulus_digest, increment_digest));
    h.finish()
}

impl PdContinuumActivation {
    pub fn new(
        session_id: &str,
        parent_i0: &str,
        user_input: &str,
        question: &str,
        response_kind: &str,
        created_at: u64,
    ) -> (r: Self)
        ensures
            r == activation_spec(session_id@, parent_i0@, user_input@, question@, response_kind@, created_at),
    {
        let stimulus = PdI0Stimulus::new(session_id, parent_i0, user_input, created_at);
        let question_increment = PdQuestionIncrement::new(&stimulus, question, response_kind, created_at);
        let activation_digest = activation_digest_of(
            PD_CONTINUUM_CONTRACT_VERSION,
            stimulus.stimulus_digest,
            question_increment.increment_digest,
        );
        PdContinuumActivation {
            contract_version: PD_CONTINUUM_CONTRACT_VERSION,
            stimulus,
            question_increment,
            activation_digest,
            state: PdContinuumState::SpineActivated,
        }
    }

    pub fn is_ready(&self) -> (r: bool)
        ensures
            r == activation_ready(*self),
    {
        self.contract_version == PD_CONTINUUM_CONTRACT_VERSION && self.stimulus.verifies()
            && self.question_increment.verifies(&self.stimulus)
            && self.activation_digest == activation_digest_of(
            self.contract_version,
            self.stimulus.stimulus_digest,
            self.question_increment.increment_digest,
        ) && self.state == PdContinuumState::SpineActivated
    }
}

/// The bytes bound by the verified-output digest.
pub open spec fn output_material(
    activation_digest: u64,
    pd_binding_digest: u64,
    question_increment_digest: u64,
    receipt: Seq<char>,
    output_text: Seq<char>,
    y_verdict: u8,
    x_verdict: u8,
    basis: PdContinuumBasis,
) -> Seq<u8> {
    le32(PD_CONTINUUM_CONTRACT_VERSION) + le64(activation_digest) + le64(pd_binding_digest) + le64(
        question_increment_digest,
    ) + utf8(receipt) + utf8(output_text) + seq![y_verdict] + seq![x_verdict] + utf8(basis.label_spec())
        + utf8("PD_VERIFIED_OUTPUT"@)
}

pub fn derive_pd_output_digest(
    activation_digest: u64,
    pd_binding_digest: u64,
    question_increment_digest: u64,
    verification_receipt_id: &str,
    output_text: &str,
    y_verdict: u8,
    x_verdict: u8,
    basis: PdContinuumBasis,
) -> (r: u64)
    ensures
        r == fnv64(output_material(activation_digest, pd_binding_digest, question_increment_digest,
            verification_receipt_id@, output_text@, y_verdict, x_verdict, basis)),
{
    let mut h = Fnv64::new();
    h.update_u32(PD_CONTINUUM_CONTRACT_VERSION);
    h.update_u64(activation_digest);
    h.update_u64(pd_binding_digest);
    h.update_u64(question_increment_digest);
    h.update_str(verification_receipt_id);
    h.update_str(output_text);
    h.update_byte(y_verdict);
    h.update_byte(x_verdict);
    h.update_str(basis.label());
    h.update_str("PD_VERIFIED_OUTPUT");
    assert(h.absorbed() =~= output_material(activation_digest, pd_binding_digest, question_increment_digest,
        verification_receipt_id@, output_text@, y_verdict, x_verdict, basis));
    h.finish()
}

/// `prefix` followed by the 16 lowercase hex digits of `digest`.
pub open spec fn tagged_id(prefix: Seq<char>, digest: u64) -> Seq<char> {
    prefix + hex_lower(digest, 16)
}

pub fn pd_output_id(output_digest: u64) -> (r: String)
    ensures
        r@ == tagged_id("pdo-"@, output_digest),
{
    let mut s = owned("pdo-");
    push_hex(&mut s, output_digest, 16);
    s
}

/// The bytes bound by the iZ digest.
pub open spec fn iz_material(
    activation_digest: u64,
    question_increment_digest: u64,
    pd_output_digest: u64,
    living_trust_digest: u64,
    receipt: Seq<char>,
    basis: PdContinuumBasis,
) -> Seq<u8> {
    le32(PD_CONTINUUM_CONTRACT_VERSION) + le64(activation_digest) + le64(question_increment_digest)
        + le64(pd_output_digest) + le64(living_trust_digest) + utf8(receipt) + utf8(basis.label_spec())
        + utf8("PD_COMPLETES_IZ_WITH_LIVING_TRUST_V161"@)
}

pub fn derive_iz_digest(
    activation_digest: u64,
    question_increment_digest: u64,
    pd_output_digest: u64,
    living_trust_digest: u64,
    verification_receipt_id: &str,
    basis: PdContinuumBasis,
) -> (r: u64)
    ensures
        r == fnv64(iz_material(activation_digest, question_increment_digest, pd_output_digest,
            living_trust_digest, verification_receipt_id@, basis)),
{
    let mut h = Fnv64::new();
    h.update_u32(PD_CONTINUUM_CONTRACT_VERSION);
    h.update_u64(activation_digest);
    h.update_u64(question_increment_digest);
    h.update_u64(pd_output_digest);
    h.update_u64(living_trust_digest);
    h.update_str(verification_receipt_id);
    h.update_str(basis.label());
    h.update_str("PD_COMPLETES_IZ_WITH_LIVING_TRUST_V161");
    assert(h.absorbed() =~= iz_material(activation_digest, question_increment_digest, pd_output_digest,
        living_trust_digest, verification_receipt_id@, basis));
    h.finish()
}

pub fn iz_id(iz_digest: u64) -> (r: String)
    ensures
        r@ == tagged_id("iZ-"@, iz_digest),
{
    let mut s = owned("iZ-");
    push_hex(&mut s, iz_digest, 16);
    s
}

/// The bytes from which the next `i₀` is derived.
pub open spec fn next_i0_material(pd_output_digest: u64, iz_digest: u64) -> Seq<u8> {
    le32(PD_CONTINUUM_CONTRACT_VERSION) + le64(pd_output_digest) + le64(iz_digest) + utf8(
        "PD_OUTPUT_PLUS_IZ_TO_NEXT_I0"@,
    )
}

/// `PD output + iZ → next i₀`.
pub open spec fn next_i0_spec(pd_output_digest: u64, iz_digest: u64) -> Seq<char> {
    tagged_id("i0-"@, fnv64(next_i0_material(pd_output_digest, iz_digest)))
}

pub fn derive_next_i0_id(pd_output_digest: u64, iz_digest: u64) -> (r: String)
    ensures
        r@ == next_i0_spec(pd_output_digest, iz_digest),
{
    let mut h = Fnv64::new();
    h.update_u32(PD_CONTINUUM_CONTRACT_VERSION);
    h.update_u64(pd_output_digest);
    h.update_u64(iz_digest);
    h.update_str("PD_OUTPUT_PLUS_IZ_TO_NEXT_I0");
    assert(h.absorbed() =~= next_i0_material(pd_output_digest, iz_digest));
    let next_digest = h.finish();
    let mut s = owned("i0-");
    push_hex(&mut s, next_digest, 16);
    s
}

/// The bytes bound by the completion digest.
pub open spec fn completion_material(
    activation_digest: u64,
    question_increment_digest: u64,
    pd_output_digest: u64,
    iz_digest: u64,
    living_trust_digest: u64,
    next_i0_id: Seq<char>,
    receipt: Seq<char>,
    basis: PdContinuumBasis,
) -> Seq<u8> {
    le32(PD_CONTINUUM_CONTRACT_VERSION) + le64(activation_digest) + le64(question_increment_digest)
        + le64(pd_output_digest) + le64(iz_digest) + le64(living_trust_digest) + utf8(next_i0_id)
        + utf8(receipt) + utf8(basis.label_spec()) + utf8("PD_CONTINUUM_COMPLETE"@)
}

pub fn derive_completion_digest(
    activation_digest: u64,
    question_increment_digest: u64,
    pd_output_digest: u64,
    iz_digest: u64,
    living_trust_digest: u64,
    next_i0_id: &str,
    verification_receipt_id: &str,
    basis: PdContinuumBasis,
) -> (r: u64)
    ensures
        r == fnv64(completion_material(activation_digest, question_increment_digest, pd_output_digest,
            iz_digest, living_trust_digest, next_i0_id@, verification_receipt_id@, basis)),
{
    let mut h = Fnv64::new();
    h.update_u32(PD_CONTINUUM_CONTRACT_VERSION);
    h.update_u64(activation_digest);
    h.update_u64(question_increment_digest);
    h.update_u64(pd_output_digest);
    h.update_u64(iz_digest);
    h.update_u64(living_trust_digest);
    h.update_str(next_i0_id);
    h.update_str(verification_receipt_id);
    h.update_str(basis.label());
    h.update_str("PD_CONTINUUM_COMPLETE");
    assert(h.absorbed() =~= completion_material(activation_digest, question_increment_digest,
        pd_output_digest, iz_digest, living_trust_digest, next_i0_id@, verification_receipt_id@, basis));
    h.finish()
}

/// The closed formula: verified output and iZ together derive the next `i₀`.
#[derive(Debug, Clone, PartialEq, Eq)]
pub struct PdContinuumCompletion {
    pub contract_version: u32,
    pub activation_digest: u64,
    pub question_increment_digest: u64,
    pub pd_output_digest: u64,
    pub iz_digest: u64,
    pub living_trust_digest: u64,
    pub next_i0_id: String,
    pub verification_receipt_digest: u64,
    pub basis: PdContinuumBasis,
    pub output_state: PdContinuumState,
    pub iz_state: PdContinuumState,
    pub completion_digest: u64,
    pub state: PdContinuumState,
}

/// A completion closes the formula for a receipt when every digest is
/// non-zero, the next `i₀` and the completion digest re-derive, and the
/// states are the final ones.
pub open spec fn closes_formula_spec(c: PdContinuumCompletion, receipt: Seq<char>) -> bool {
    &&& c.contract_version == PD_CONTINUUM_CONTRACT_VERSION
    &&& c.activation_digest != 0
    &&& c.question_increment_digest != 0
    &&& c.pd_output_digest != 0
    &&& c.iz_digest != 0
    &&& c.living_trust_digest != 0
    &&& c.next_i0_id@ == next_i0_spec(c.pd_output_digest, c.iz_digest)
    &&& c.verification_receipt_digest == text_digest(receipt)
    &&& c.output_state == PdContinuumState::VerifiedOutput
    &&& c.iz_state == PdContinuumState::IzCompleted
    &&& c.completion_digest == fnv64(completion_material(c.activation_digest,
        c.question_increment_digest, c.pd_output_digest, c.iz_digest, c.living_trust_digest,
        c.next_i0_id@, receipt, c.basis))
    &&& c.state == PdContinuumState::NextI0Derived
}

impl PdContinuumCompletion {
    pub fn new(
        activation_digest: u64,
        question_increment_digest: u64,
        pd_output_digest: u64,
        iz_digest: u64,
        living_trust_digest: u64,
        next_i0_id: String,
        verification_receipt_id: &str,
        basis: PdContinuumBasis,
    ) -> (r: Self)
        ensures
            r.contract_version == PD_CONTINUUM_CONTRACT_VERSION,
            r.activation_digest == activation_digest,
            r.question_increment_digest == question_increment_digest,
            r.pd_output_digest == pd_output_digest,
            r.iz_digest == iz_digest,
            r.living_trust_digest == living_trust_digest,
            r.next_i0_id@ == next_i0_id@,
            r.verification_receipt_digest == text_digest(verification_receipt_id@),
            r.basis == basis,
            r.output_state == PdContinuumState::VerifiedOutput,
            r.iz_state == PdContinuumState::IzCompleted,
            r.completion_digest == fnv64(completion_material(activation_digest,
                question_increment_digest, pd_output_digest, iz_digest, living_trust_digest,
                next_i0_id@, verification_receipt_id@, basis)),
            r.state == PdContinuumState::NextI0Derived,
    {
        let verification_receipt_digest = str_digest(verification_receipt_id);
        let completion_digest = derive_completion_digest(
            activation_digest,
            question_increment_digest,
            pd_output_digest,
            iz_digest,
            living_trust_digest,
            next_i0_id.as_str(),
            verification_receipt_id,
            basis,
        );
        PdContinuumCompletion {
            contract_version: PD_CONTINUUM_CONTRACT_VERSION,
            activation_digest,
            question_increment_digest,
            pd_output_digest,
            iz_digest,
            living_trust_digest,
            next_i0_id,
            verification_receipt_digest,
            basis,
            output_state: PdContinuumState::VerifiedOutput,
            iz_state: PdContinuumState::IzCompleted,
            completion_digest,
            state: PdContinuumState::NextI0Derived,
        }
    }

    pub fn closes_formula(&self, verification_receipt_id: &str) -> (r: bool)
        ensures
            r == closes_formula_spec(*self, verification_receipt_id@),
    {
        if !(self.contract_version == PD_CONTINUUM_CONTRACT_VERSION && self.activation_digest != 0
            && self.question_increment_digest != 0 && self.pd_output_digest != 0
            && self.iz_digest != 0 && self.living_trust_digest != 0) {
            return false;
        }
        let expected_next = derive_next_i0_id(self.pd_output_digest, self.iz_digest);
        self.next_i0_id == expected_next && self.verification_receipt_digest == str_digest(
            verification_receipt_id,
        ) && self.output_state == PdContinuumState::VerifiedOutput
            && self.iz_state == PdContinuumState::IzCompleted
            && self.completion_digest == derive_completion_digest(
            self.activation_digest,
            self.question_increment_digest,
            self.pd_output_digest,
            self.iz_digest,
            self.living_trust_digest,
            self.next_i0_id.as_str(),
            verification_receipt_id,
            self.basis,
        ) && self.state == PdContinuumState::NextI0Derived
    }
}

/// FNV-1a digest of the concatenation of byte parts.
pub fn digest_parts(parts: &[&[u8]]) -> (r: u64)
    ensures
        r == fnv64(concat_parts(part_views(parts@))),
{
    fnv_parts(parts)
}

/// A freshly built stimulus verifies exactly when its four component digests are non-zero.
pub proof fn lemma_new_stimulus_verifies(session_id: Seq<char>, parent_i0: Seq<char>, user_input: Seq<char>, created_at: u64)
    ensures
        stimulus_verifies(stimulus_spec(session_id, parent_i0, user_input, created_at)) <==> {
            let s = stimulus_spec(session_id, parent_i0, user_input, created_at);
            s.session_digest != 0 && s.initial_i_digest != 0 && s.user_input_digest != 0 && s.i0_digest != 0
        },
{
}

/// A freshly built activation is ready exactly when its stimulus verifies,
/// the question is not blank, and the question and response-kind digests are non-zero.
pub proof fn lemma_new_activation_ready(
    session_id: Seq<char>,
    parent_i0: Seq<char>,
    user_input: Seq<char>,
    question: Seq<char>,
    response_kind: Seq<char>,
    created_at: u64,
)
    ensures
        activation_ready(activation_spec(session_id, parent_i0, user_input, question, response_kind, created_at))
            <==> {
            let a = activation_spec(session_id, parent_i0, user_input, question, response_kind, created_at);
            &&& stimulus_verifies(a.stimulus)
            &&& !is_blank(question)
            &&& a.question_increment.question_digest != 0
            &&& a.question_increment.response_kind_digest != 0
        },
{
}

/// A completion built by `PdContinuumCompletion::new` with the next `i₀`
/// derived from its own output and iZ digests closes the formula for the
/// receipt it was built with exactly when none of its five digests is zero.
pub proof fn lemma_completion_closes_formula(c: PdContinuumCompletion, receipt: Seq<char>)
    requires
        c.contract_version == PD_CONTINUUM_CONTRACT_VERSION,
        c.next_i0_id@ == next_i0_spec(c.pd_output_digest, c.iz_digest),
        c.verification_receipt_digest == text_digest(receipt),
        c.output_state == PdContinuumState::VerifiedOutput,
        c.iz_state == PdContinuumState::IzCompleted,
        c.completion_digest == fnv64(completion_material(c.activation_digest,
            c.question_increment_digest, c.pd_output_digest, c.iz_digest, c.living_trust_digest,
            c.next_i0_id@, receipt, c.basis)),
        c.state == PdContinuumState::NextI0Derived,
    ensures
        closes_formula_spec(c, receipt) <==> (c.activation_digest != 0 && c.question_increment_digest != 0
            && c.pd_output_digest != 0 && c.iz_digest != 0 && c.living_trust_digest != 0),
{
}

/// A closed completion is bound to its receipt and its next `i₀`: it closes
/// the formula for no receipt of another digest, and a completion whose next
/// `i₀` is not the one its output and iZ derive closes it for no receipt.
pub proof fn law_formula_binds_receipt_and_next_i0(
    c: PdContinuumCompletion,
    receipt: Seq<char>,
    other: Seq<char>,
)
    ensures
        closes_formula_spec(c, receipt) && text_digest(other) != text_digest(receipt)
            ==> !closes_formula_spec(c, other),
        c.next_i0_id@ != next_i0_spec(c.pd_output_digest, c.iz_digest) ==> !closes_formula_spec(
            c,
            other,
        ),
{
}



/// `i + U → i₀` binds the parent `i₀`: the stimulus's `i₀` digest is the
/// FNV-1a digest of the parent `i₀`'s bytes, whatever the input, and the
/// input and session digests are those of their own texts; two stimuli whose
/// parents digest differently carry different `i₀` digests.
pub proof fn law_stimulus_binds_parent_i0(
    session_id: Seq<char>,
    parent_i0: Seq<char>,
    other_parent_i0: Seq<char>,
    user_input: Seq<char>,
    created_at: u64,
)
    ensures
        stimulus_spec(session_id, parent_i0, user_input, created_at).i0_digest == fnv64(utf8(parent_i0)),
        stimulus_spec(session_id, parent_i0, user_input, created_at).user_input_digest == fnv64(utf8(user_input)),
        stimulus_spec(session_id, parent_i0, user_input, created_at).session_digest == fnv64(utf8(session_id)),
        fnv64(utf8(parent_i0)) != fnv64(utf8(other_parent_i0)) ==> stimulus_spec(
            session_id,
            parent_i0,
            user_input,
            created_at,
        ).i0_digest != stimulus_spec(session_id, other_parent_i0, user_input, created_at).i0_digest,
{
}


/// The stimulus digest binds every part of `i + U → i₀`: it is the FNV-1a
/// digest of the contract version `0x00010601`, the session, initial-state,
/// input and `i₀` digests and the time, all little-endian, then the tag
/// `I_PLUS_U_TO_I0`; the initial state is the digest of the session followed
/// by `GCL_INITIAL_I`.
pub proof fn law_stimulus_digest_binds_all(session_id: Seq<char>, parent_i0: Seq<char>, user_input: Seq<char>, created_at: u64)
    ensures
        ({
            let s = stimulus_spec(session_id, parent_i0, user_input, created_at);
            &&& s.initial_i_digest == fnv64(utf8(session_id) + utf8("GCL_INITIAL_I"@))
            &&& s.stimulus_digest == fnv64(le32(0x0001_0601) + le64(fnv64(utf8(session_id))) + le64(
                s.initial_i_digest,
            ) + le64(fnv64(utf8(user_input))) + le64(fnv64(utf8(parent_i0))) + le64(created_at) + utf8(
                "I_PLUS_U_TO_I0"@,
            ))
            &&& s.created_at == created_at
        }),
{
}

} // verus!
