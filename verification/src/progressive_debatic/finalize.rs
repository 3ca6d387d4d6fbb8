//! The release of a verified cycle: a pending candidate, prepared after its
//! Spine 9 completion and pre-sealed, meets the sealed verification receipt.
//! Only a receipt bound to this very candidate, with both verdicts agreeing,
//! releases `PD output + iZ → next i₀`; anything else is refused with the
//! first binding that failed.

use vstd::prelude::*;
use vstd::string::StringExecFns;
use crate::codec::{fnv64, le32, le64, utf8, push_le, push_bytes, Fnv64};
use crate::text::{str_eq, decimal, push_decimal};
use crate::sha::{sha256, sha256_of};
use crate::pd_continuum_contract::{PdContinuumBasis, PdContinuumCompletion, PdContinuumState,
    PD_CONTINUUM_CONTRACT_VERSION, output_material, iz_material, next_i0_spec, tagged_id, text_digest,
    completion_material, derive_pd_output_digest, derive_iz_digest, pd_output_id,
    iz_id, derive_next_i0_id};
use super::types::{pd_id, pd_id_spec, views, PD_SEAL, PdResponseType, PdPreSealReceipt,
    PdVerificationCompletion, PdContinuationBasis, PdVerifiedOutput, PdIzCompletion, PdNextI0,
    PdContinuumClosure, PdFinalization};
use super::runtime::{continuum_basis, authorize, seal_refusal};
use super::types::{GclActionAuthorizationToken, PdError, PdEngineOutput};
use super::runtime::{output_question, output_question_spec};
use crate::pd_continuum_contract::{text_digest as digest_of_text, str_digest};
use super::engine::ProgressiveDebatic;
use crate::living_trust_contract::{LivingTrustSeal, identity_digest_material, TRUST_INTENSITY_SCALE,
    TRUST_KIND_NONE, TRUST_KIND_CONSTRUCTIVE, TRUST_KIND_RIGOROUS_NEGATIVE, SOVEREIGN_SEAL_PRIMITIVE};

verus! {

/// The Spine 9 layer bits when layers 1, 2 and 3 have all closed.
pub const ALL_LAYERS_MASK: u8 = 0b0000_0111;

/// The verification authority's seal: the FNV-1a digest of the output name
/// `SHADOW_VERIFICATION_OUTPUT`.
pub const EXPECTED_SHADOW_VERIFICATION_SEAL: u64 = 0x6efb_2d25_e28a_20ff;

/// What a pending candidate keeps of the Spine 9 completion it was prepared from.
#[derive(Debug, Clone, Copy, PartialEq, Eq, Structural)]
pub struct PdSpineClosure {
    /// Layers 1, 2 and 3 all closed.
    pub closes_all_layers: bool,
    /// The digest of the whole completion.
    pub completion_digest: u64,
    /// The continuum activation (`i₀ + 1Q`) digest of the request.
    pub continuum_activation_digest: u64,
    /// The digest of the question increment of that activation.
    pub question_increment_digest: u64,
    /// The MPRO mass, in fixed point.
    pub mpro_mass: u32,
}

/// A candidate for the next `i₀`: prepared and pre-sealed, not yet verified.
#[derive(Debug, Clone)]
pub struct PdPendingNextI0 {
    pub session_id: String,
    pub parent_i0: String,
    pub turn_id: String,
    pub prepared_question: String,
    pub response_type: PdResponseType,
    pub prepared_at: u64,
    pub spine_completion: PdSpineClosure,
    pub pre_seal: PdPreSealReceipt,
}

/// The bytes that identify a candidate: a change of question, turn,
/// pre-seal or completion changes them.
pub open spec fn binding_material(p: PdPendingNextI0) -> Seq<u8> {
    utf8(p.session_id@) + utf8(p.parent_i0@) + utf8(p.turn_id@) + utf8(p.prepared_question@)
        + utf8(p.response_type.label_spec()) + le64(p.prepared_at) + utf8(p.pre_seal.receipt_id@)
        + le64(p.pre_seal.spine_activation_id) + le64(p.pre_seal.spine_completion_digest) + le32(
        p.pre_seal.mpro_mass,
    ) + p.pre_seal.action_sha256@ + p.pre_seal.law_trace_sha256@ + le64(
        p.spine_completion.continuum_activation_digest,
    ) + le64(p.spine_completion.question_increment_digest) + utf8("PD_CANDIDATE_BINDING_V156"@)
}

pub open spec fn binding_spec(p: PdPendingNextI0) -> u64 {
    fnv64(binding_material(p))
}

impl PdPendingNextI0 {
    /// The identity of the candidate that the verification receipt must bind.
    pub fn binding_digest(&self) -> (r: u64)
        ensures
            r == binding_spec(*self),
    {
        let mut h = Fnv64::new();
        h.update_str(self.session_id.as_str());
        h.update_str(self.parent_i0.as_str());
        h.update_str(self.turn_id.as_str());
        h.update_str(self.prepared_question.as_str());
        h.update_str(self.response_type.label());
        h.update_u64(self.prepared_at);
        h.update_str(self.pre_seal.receipt_id.as_str());
        h.update_u64(self.pre_seal.spine_activation_id);
        h.update_u64(self.pre_seal.spine_completion_digest);
        h.update_u32(self.pre_seal.mpro_mass);
        h.update(self.pre_seal.action_sha256.as_slice());
        h.update(self.pre_seal.law_trace_sha256.as_slice());
        h.update_u64(self.spine_completion.continuum_activation_digest);
        h.update_u64(self.spine_completion.question_increment_digest);
        h.update_str("PD_CANDIDATE_BINDING_V156");
        assert(h.absorbed() =~= binding_material(*self));
        h.finish()
    }
}

/// 32 zero bytes.
pub open spec fn zeros32() -> Seq<u8> {
    Seq::new(32, |i: int| 0u8)
}

/// Whether a 32-byte digest is all zeros.
pub fn is_zero32(a: &[u8; 32]) -> (r: bool)
    ensures
        r == (a@ == zeros32()),
{
    let mut i: usize = 0;
    while i < 32
        invariant
            i <= 32,
            a@.len() == 32,
            forall|j: int| 0 <= j < i ==> a@[j] == 0u8,
        decreases 32 - i,
    {
        if a[i] != 0 {
            assert(a@[i as int] != zeros32()[i as int]);
            return false;
        }
        i += 1;
    }
    assert(a@ =~= zeros32());
    true
}

/// The parts of a pre-seal's identifier.
pub open spec fn pre_seal_parts(r: PdPreSealReceipt, session_id: Seq<char>, parent_i0: Seq<char>) -> Seq<Seq<u8>> {
    seq![
        utf8(session_id),
        utf8(parent_i0),
        le64(r.prepared_at),
        le64(r.spine_activation_id),
        le64(r.spine_completion_digest),
        seq![r.layer_mask],
        le32(r.mpro_mass),
        r.action_sha256@,
        r.law_trace_sha256@,
        le64(PD_SEAL),
        utf8("GCL_PD_PRESEAL_V160"@),
    ]
}

/// A pre-seal is valid for a session and parent `i₀` when it carries the
/// module's seal, names them, was taken over all three closed layers with
/// non-zero digests, and its identifier re-derives.
pub open spec fn pre_seal_valid(r: PdPreSealReceipt, session_id: Seq<char>, parent_i0: Seq<char>) -> bool {
    &&& r.seal == PD_SEAL
    &&& r.session_id@ == session_id
    &&& r.parent_i0@ == parent_i0
    &&& r.layer_mask == ALL_LAYERS_MASK
    &&& r.spine_activation_id != 0
    &&& r.spine_completion_digest != 0
    &&& r.action_sha256@ != zeros32()
    &&& r.law_trace_sha256@ != zeros32()
    &&& r.receipt_id@ == pd_id_spec(pre_seal_parts(r, session_id, parent_i0))
}

/// The little-endian bytes of `x`, `n` of them.
fn le_vec(x: u64, n: usize) -> (r: Vec<u8>)
    requires
        n <= 8,
    ensures
        r@ == crate::codec::le_bytes(x, n as nat),
{
    let mut v: Vec<u8> = Vec::new();
    push_le(&mut v, x, n);
    assert(v@ =~= crate::codec::le_bytes(x, n as nat));
    v
}

/// Whether a pre-seal is valid for a session and parent `i₀`.
pub fn pre_seal_verifies(r: &PdPreSealReceipt, session_id: &str, parent_i0: &str) -> (ok: bool)
    ensures
        ok == pre_seal_valid(*r, session_id@, parent_i0@),
{
    if !(r.seal == PD_SEAL && str_eq(r.session_id.as_str(), session_id) && str_eq(
        r.parent_i0.as_str(),
        parent_i0,
    ) && r.layer_mask == ALL_LAYERS_MASK && r.spine_activation_id != 0
        && r.spine_completion_digest != 0 && !is_zero32(&r.action_sha256) && !is_zero32(
        &r.law_trace_sha256,
    )) {
        return false;
    }
    let ts = le_vec(r.prepared_at, 8);
    let act = le_vec(r.spine_activation_id, 8);
    let comp = le_vec(r.spine_completion_digest, 8);
    let mask: [u8; 1] = [r.layer_mask];
    let mass = le_vec(r.mpro_mass as u64, 4);
    let seal = le_vec(PD_SEAL, 8);
    let parts: [&[u8]; 11] = [
        session_id.as_bytes(),
        parent_i0.as_bytes(),
        ts.as_slice(),
        act.as_slice(),
        comp.as_slice(),
        mask.as_slice(),
        mass.as_slice(),
        r.action_sha256.as_slice(),
        r.law_trace_sha256.as_slice(),
        seal.as_slice(),
        "GCL_PD_PRESEAL_V160".as_bytes(),
    ];
    let expected = pd_id(parts.as_slice());
    assert(mask@ =~= seq![r.layer_mask]);
    assert(views(parts@)[5] == seq![r.layer_mask]);
    assert(views(parts@)[0] == utf8(session_id@));
    assert(views(parts@)[10] == utf8("GCL_PD_PRESEAL_V160"@));
    assert(views(parts@) =~= pre_seal_parts(*r, session_id@, parent_i0@));
    str_eq(r.receipt_id.as_str(), expected.as_str())
}


/// The continuum contract's basis for a continuation basis.
pub open spec fn basis_spec(b: PdContinuationBasis) -> PdContinuumBasis {
    match b {
        PdContinuationBasis::VerifiedPositive => PdContinuumBasis::VerifiedPositive,
        PdContinuationBasis::VerifiedNegativeRebuild => PdContinuumBasis::VerifiedNegativeRebuild,
    }
}

/// The verified output's digest: the activation, the candidate, the
/// question increment, the receipt, the question carried forward and the verdicts.
pub open spec fn output_digest_spec(p: PdPendingNextI0, c: PdVerificationCompletion, q: Seq<char>, b: PdContinuationBasis) -> u64 {
    fnv64(output_material(
        p.spine_completion.continuum_activation_digest,
        binding_spec(p),
        p.spine_completion.question_increment_digest,
        c.verification_receipt_id@,
        q,
        c.y_verdict,
        c.x_verdict,
        basis_spec(b),
    ))
}

/// The iZ digest: the output completed with the living trust.
pub open spec fn iz_digest_spec(p: PdPendingNextI0, c: PdVerificationCompletion, q: Seq<char>, b: PdContinuationBasis) -> u64 {
    fnv64(iz_material(
        p.spine_completion.continuum_activation_digest,
        p.spine_completion.question_increment_digest,
        output_digest_spec(p, c, q, b),
        c.living_trust_digest,
        c.verification_receipt_id@,
        basis_spec(b),
    ))
}

/// The bytes whose SHA-256 identifies the iZ.
pub open spec fn iz_sha_material(p: PdPendingNextI0, c: PdVerificationCompletion, q: Seq<char>, b: PdContinuationBasis) -> Seq<u8> {
    utf8("ESS_MAI_IZ_V157"@) + le64(p.spine_completion.continuum_activation_digest) + le64(
        p.spine_completion.question_increment_digest,
    ) + le64(output_digest_spec(p, c, q, b)) + utf8(c.verification_receipt_id@) + c.living_trust_sha256@
        + le32(c.living_trust_intensity) + seq![c.living_trust_kind] + le32(c.living_trust_sovereign_value)
        + le64(c.living_trust_digest) + p.pre_seal.action_sha256@ + p.pre_seal.law_trace_sha256@
}

/// The continuum closes when each digest of the formula is non-zero.
pub open spec fn continuum_closes(p: PdPendingNextI0, c: PdVerificationCompletion, q: Seq<char>, b: PdContinuationBasis) -> bool {
    &&& p.spine_completion.continuum_activation_digest != 0
    &&& p.spine_completion.question_increment_digest != 0
    &&& output_digest_spec(p, c, q, b) != 0
    &&& iz_digest_spec(p, c, q, b) != 0
    &&& c.living_trust_digest != 0
}

/// `cl` is the closure of candidate `p` under receipt `c`, carrying question
/// `q` on basis `b`: the verified output, its iZ, the next `i₀` derived from
/// both, and the closed continuum contract.
pub open spec fn is_closure(cl: PdContinuumClosure, p: PdPendingNextI0, c: PdVerificationCompletion, q: Seq<char>, b: PdContinuationBasis) -> bool {
    let act = p.spine_completion.continuum_activation_digest;
    let inc = p.spine_completion.question_increment_digest;
    let od = output_digest_spec(p, c, q, b);
    let izd = iz_digest_spec(p, c, q, b);
    let lt = c.living_trust_digest;
    let receipt = c.verification_receipt_id@;
    let next = next_i0_spec(od, izd);
    let o = cl.output;
    let z = cl.iz;
    let n = cl.next_i0;
    let k = cl.contract;
    &&& o.output_id@ == tagged_id("pdo-"@, od)
    &&& o.output_digest == od
    &&& o.session_id@ == p.session_id@
    &&& o.parent_i0@ == p.parent_i0@
    &&& o.turn_id@ == p.turn_id@
    &&& o.question@ == q
    &&& o.response_type == p.response_type
    &&& o.mpro_mass == p.spine_completion.mpro_mass
    &&& o.y_verdict == c.y_verdict
    &&& o.x_verdict == c.x_verdict
    &&& o.verification_receipt_id@ == receipt
    &&& z.iz_id@ == tagged_id("iZ-"@, izd)
    &&& z.iz_digest == izd
    &&& z.iz_sha256@ == sha256_of(iz_sha_material(p, c, q, b))
    &&& z.origin_i0@ == p.parent_i0@
    &&& z.question_increment_digest == inc
    &&& z.pd_output_digest == od
    &&& z.verification_receipt_id@ == receipt
    &&& z.basis == b
    &&& z.living_trust_sha256 == c.living_trust_sha256
    &&& z.living_trust_intensity == c.living_trust_intensity
    &&& z.living_trust_kind == c.living_trust_kind
    &&& z.living_trust_sovereign_value == c.living_trust_sovereign_value
    &&& z.living_trust_digest == lt
    &&& n.session_id@ == p.session_id@
    &&& n.parent_i0@ == p.parent_i0@
    &&& n.next_i0_id@ == next
    &&& n.question@ == q
    &&& n.basis == b
    &&& n.y_verdict == c.y_verdict
    &&& n.x_verdict == c.x_verdict
    &&& n.verification_seal == c.verification_seal
    &&& n.verification_generation == c.verification_generation
    &&& n.verification_receipt_id@ == receipt
    &&& n.primitive_anchor == c.primitive_anchor
    &&& n.xy_digest == c.xy_digest
    &&& n.pd_binding_digest == binding_spec(p)
    &&& n.continuum_activation_digest == act
    &&& n.question_increment_digest == inc
    &&& n.pd_output_id@ == tagged_id("pdo-"@, od)
    &&& n.pd_output_digest == od
    &&& n.iz_id@ == tagged_id("iZ-"@, izd)
    &&& n.iz_digest == izd
    &&& n.iz_sha256 == z.iz_sha256
    &&& n.living_trust_sha256 == c.living_trust_sha256
    &&& n.living_trust_intensity == c.living_trust_intensity
    &&& n.living_trust_kind == c.living_trust_kind
    &&& n.living_trust_sovereign_value == c.living_trust_sovereign_value
    &&& n.living_trust_digest == lt
    &&& n.continuum_completion_digest == k.completion_digest
    &&& k.contract_version == PD_CONTINUUM_CONTRACT_VERSION
    &&& k.activation_digest == act
    &&& k.question_increment_digest == inc
    &&& k.pd_output_digest == od
    &&& k.iz_digest == izd
    &&& k.living_trust_digest == lt
    &&& k.next_i0_id@ == next
    &&& k.verification_receipt_digest == text_digest(receipt)
    &&& k.basis == basis_spec(b)
    &&& k.output_state == PdContinuumState::VerifiedOutput
    &&& k.iz_state == PdContinuumState::IzCompleted
    &&& k.completion_digest == fnv64(completion_material(act, inc, od, izd, lt, next, receipt, basis_spec(b)))
    &&& k.state == PdContinuumState::NextI0Derived
}

/// The refusal of a continuum that does not close.
pub open spec fn continuum_refusal() -> Seq<char> {
    "PD continuum nuk mbylli formulën output + iZ → next i₀"@
}

/// Derives `PD output + iZ → next i₀` for a candidate and its receipt,
/// carrying `question` forward on `basis`; refused when the formula does not
/// close (one of its digests is zero).
pub fn build_continuum(
    pending: &PdPendingNextI0,
    completion: &PdVerificationCompletion,
    question: String,
    basis: PdContinuationBasis,
) -> (r: Result<PdContinuumClosure, String>)
    ensures
        continuum_closes(*pending, *completion, question@, basis) ==> (r matches Ok(cl) && is_closure(
            cl,
            *pending,
            *completion,
            question@,
            basis,
        )),
        !continuum_closes(*pending, *completion, question@, basis) ==> (r matches Err(m) && m@
            == continuum_refusal()),
{
    let ghost q = question@;
    let act = pending.spine_completion.continuum_activation_digest;
    let inc = pending.spine_completion.question_increment_digest;
    let shared_basis = continuum_basis(basis);
    let binding = pending.binding_digest();
    let receipt = completion.verification_receipt_id.as_str();
    let output_digest = derive_pd_output_digest(
        act,
        binding,
        inc,
        receipt,
        question.as_str(),
        completion.y_verdict,
        completion.x_verdict,
        shared_basis,
    );
    let output_id = pd_output_id(output_digest);
    let living_trust_digest = completion.living_trust_digest;
    let iz_digest = derive_iz_digest(act, inc, output_digest, living_trust_digest, receipt, shared_basis);
    let iz_id_s = iz_id(iz_digest);
    let mut m: Vec<u8> = Vec::new();
    push_bytes(&mut m, "ESS_MAI_IZ_V157".as_bytes());
    push_le(&mut m, act, 8);
    push_le(&mut m, inc, 8);
    push_le(&mut m, output_digest, 8);
    push_bytes(&mut m, receipt.as_bytes());
    push_bytes(&mut m, completion.living_trust_sha256.as_slice());
    push_le(&mut m, completion.living_trust_intensity as u64, 4);
    push_le(&mut m, completion.living_trust_kind as u64, 1);
    push_le(&mut m, completion.living_trust_sovereign_value as u64, 4);
    push_le(&mut m, living_trust_digest, 8);
    push_bytes(&mut m, pending.pre_seal.action_sha256.as_slice());
    push_bytes(&mut m, pending.pre_seal.law_trace_sha256.as_slice());
    proof {
        let k = completion.living_trust_kind;
        assert(crate::codec::le_bytes(k as u64, 1) =~= seq![k]) by {
            assert(((k as u64 >> 0u64) & 0xff) as u8 == k) by (bit_vector);
        }
        assert(m@ =~= iz_sha_material(*pending, *completion, q, basis));
    }
    let iz_sha256 = sha256(m.as_slice());
    let next_i0_id = derive_next_i0_id(output_digest, iz_digest);
    let contract = PdContinuumCompletion::new(
        act,
        inc,
        output_digest,
        iz_digest,
        living_trust_digest,
        next_i0_id.clone(),
        receipt,
        shared_basis,
    );
    if !contract.closes_formula(receipt) {
        return Err(String::from_str("PD continuum nuk mbylli formulën output + iZ → next i₀"));
    }
    let output = PdVerifiedOutput {
        output_id: output_id.clone(),
        output_digest,
        session_id: pending.session_id.clone(),
        parent_i0: pending.parent_i0.clone(),
        turn_id: pending.turn_id.clone(),
        question: question.clone(),
        response_type: pending.response_type,
        mpro_mass: pending.spine_completion.mpro_mass,
        y_verdict: completion.y_verdict,
        x_verdict: completion.x_verdict,
        verification_receipt_id: completion.verification_receipt_id.clone(),
    };
    let iz = PdIzCompletion {
        iz_id: iz_id_s.clone(),
        iz_digest,
        iz_sha256,
        origin_i0: pending.parent_i0.clone(),
        question_increment_digest: inc,
        pd_output_digest: output_digest,
        verification_receipt_id: completion.verification_receipt_id.clone(),
        basis,
        living_trust_sha256: completion.living_trust_sha256,
        living_trust_intensity: completion.living_trust_intensity,
        living_trust_kind: completion.living_trust_kind,
        living_trust_sovereign_value: completion.living_trust_sovereign_value,
        living_trust_digest,
    };
    let completion_digest = contract.completion_digest;
    let next_i0 = PdNextI0 {
        session_id: pending.session_id.clone(),
        parent_i0: pending.parent_i0.clone(),
        next_i0_id,
        question,
        basis,
        y_verdict: completion.y_verdict,
        x_verdict: completion.x_verdict,
        verification_seal: completion.verification_seal,
        verification_generation: completion.verification_generation,
        verification_receipt_id: completion.verification_receipt_id.clone(),
        primitive_anchor: completion.primitive_anchor,
        xy_digest: completion.xy_digest,
        pd_binding_digest: binding,
        continuum_activation_digest: act,
        question_increment_digest: inc,
        pd_output_id: output_id,
        pd_output_digest: output_digest,
        iz_id: iz_id_s,
        iz_digest,
        iz_sha256,
        living_trust_sha256: completion.living_trust_sha256,
        living_trust_intensity: completion.living_trust_intensity,
        living_trust_kind: completion.living_trust_kind,
        living_trust_sovereign_value: completion.living_trust_sovereign_value,
        living_trust_digest,
        continuum_completion_digest: completion_digest,
    };
    Ok(PdContinuumClosure { output, iz, next_i0, contract })
}


/// The living-trust kind the verdicts call for.
pub open spec fn expected_trust_kind(y: u8, x: u8) -> u8 {
    if y == 1 && x == 1 {
        TRUST_KIND_CONSTRUCTIVE
    } else if y == 0 && x == 0 {
        TRUST_KIND_RIGOROUS_NEGATIVE
    } else {
        TRUST_KIND_NONE
    }
}

/// The living-trust seal that a receipt carries.
pub open spec fn receipt_trust(c: PdVerificationCompletion) -> LivingTrustSeal {
    LivingTrustSeal {
        identity_sha256: c.living_trust_sha256,
        intensity: c.living_trust_intensity,
        kind: c.living_trust_kind,
        sovereign_value: c.living_trust_sovereign_value,
    }
}

/// The receipt's living trust is sound: a non-zero identity, an intensity
/// within scale, the kind the verdicts call for, the sovereign primitive, and
/// a digest that re-derives.
pub open spec fn living_trust_valid(c: PdVerificationCompletion) -> bool {
    &&& c.living_trust_sha256@ != zeros32()
    &&& c.living_trust_intensity <= TRUST_INTENSITY_SCALE
    &&& c.living_trust_kind == expected_trust_kind(c.y_verdict, c.x_verdict)
    &&& c.living_trust_sovereign_value == SOVEREIGN_SEAL_PRIMITIVE
    &&& c.living_trust_digest == fnv64(identity_digest_material(receipt_trust(c)))
}

/// The receipt carries the verification authority's seal, a generation, an
/// anchor and an XY digest, the expected identifier, and a sound living trust.
pub open spec fn verification_sealed(c: PdVerificationCompletion, expected_receipt_id: Seq<char>) -> bool {
    &&& c.verification_seal == EXPECTED_SHADOW_VERIFICATION_SEAL
    &&& c.verification_generation != 0
    &&& c.primitive_anchor != 0
    &&& c.xy_digest != 0
    &&& c.verification_receipt_id@ == expected_receipt_id
    &&& living_trust_valid(c)
}

/// The first binding between candidate and receipt that fails, with the
/// reason it is refused for, in the order checked: session, parent `i₀`,
/// pre-seal, Spine 9 closure, candidate, continuum activation, verification seal.
pub open spec fn binding_failure(p: PdPendingNextI0, c: PdVerificationCompletion, expected_receipt_id: Seq<char>) -> Option<Seq<char>> {
    if p.session_id@ != c.session_id@ {
        Some("PD session nuk përputhet me dëftesën e Shadow"@)
    } else if p.parent_i0@ != c.parent_i0@ {
        Some("PD parent i₀ nuk përputhet me output-in e vulosur"@)
    } else if !pre_seal_valid(p.pre_seal, p.session_id@, p.parent_i0@) {
        Some("kandidati PD nuk ka pre-seal të vlefshëm"@)
    } else if !(p.spine_completion.closes_all_layers && p.spine_completion.completion_digest
        == p.pre_seal.spine_completion_digest) {
        Some("pre-seal nuk është i lidhur me mbylljen e Spine 9"@)
    } else if !(c.pd_binding_digest != 0 && c.pd_binding_digest == binding_spec(p)) {
        Some("receipt-i i Shadow nuk është i lidhur me kandidatin PD"@)
    } else if !(c.pd_continuum_activation_digest != 0 && c.pd_continuum_activation_digest
        == p.spine_completion.continuum_activation_digest) {
        Some("receipt-i i Shadow nuk mban aktivizimin i₀ + 1Q të PD"@)
    } else if !verification_sealed(c, expected_receipt_id) {
        Some("output-i final nuk ka seal/receipt kanonik të Shadow"@)
    } else {
        None
    }
}

/// The question a rebuilt negative carries forward.
pub open spec fn rebuild_question(q: Seq<char>) -> Seq<char> {
    "Cila provë konkrete duhet të zëvendësojë bazën e rrëzuar: "@ + q
}

/// The refusal of verdicts that neither agree on 1 nor on 0.
pub open spec fn verdict_refusal(y: u8, x: u8) -> Seq<char> {
    "gjendje jo-kushtetuese Y="@ + decimal(y as nat) + " X="@ + decimal(x as nat) + " — pritej 1/1 ose 0/0"@
}

/// How a candidate and its receipt end, for a receipt that binds the
/// candidate: released on `Y = X = 1`, rebuilt on `Y = X = 0`, the closure
/// as `build_continuum` derives it.
pub open spec fn closure_outcome(r: PdFinalization, p: PdPendingNextI0, c: PdVerificationCompletion, q: Seq<char>, b: PdContinuationBasis) -> bool {
    &&& continuum_closes(p, c, q, b) ==> match r {
        PdFinalization::Released(cl) => b == PdContinuationBasis::VerifiedPositive && is_closure(cl, p, c, q, b),
        PdFinalization::RebuiltFromNegative(cl) => b == PdContinuationBasis::VerifiedNegativeRebuild
            && is_closure(cl, p, c, q, b),
        PdFinalization::Rejected { .. } => false,
    }
    &&& !continuum_closes(p, c, q, b) ==> (r matches PdFinalization::Rejected { reason } && reason@
        == continuum_refusal())
}

/// Whether the receipt's living trust is sound.
fn living_trust_checks(c: &PdVerificationCompletion) -> (ok: bool)
    ensures
        ok == living_trust_valid(*c),
{
    let kind = if c.y_verdict == 1 && c.x_verdict == 1 {
        TRUST_KIND_CONSTRUCTIVE
    } else if c.y_verdict == 0 && c.x_verdict == 0 {
        TRUST_KIND_RIGOROUS_NEGATIVE
    } else {
        TRUST_KIND_NONE
    };
    let seal = LivingTrustSeal {
        identity_sha256: c.living_trust_sha256,
        intensity: c.living_trust_intensity,
        kind: c.living_trust_kind,
        sovereign_value: c.living_trust_sovereign_value,
    };
    !is_zero32(&c.living_trust_sha256) && c.living_trust_intensity <= TRUST_INTENSITY_SCALE
        && c.living_trust_kind == kind && c.living_trust_sovereign_value == SOVEREIGN_SEAL_PRIMITIVE
        && c.living_trust_digest == seal.identity_digest()
}

impl ProgressiveDebatic {
    /// Releases a verified candidate. `expected_receipt_id` is the identifier
    /// the verification authority derives from the receipt's fields. The
    /// receipt must bind this candidate at every step; then `Y = X = 1`
    /// releases the output, `Y = X = 0` rebuilds from the negative, and any
    /// other verdict pair is refused.
    pub fn finalize_after_verification(
        &self,
        pending: PdPendingNextI0,
        completion: PdVerificationCompletion,
        expected_receipt_id: &str,
    ) -> (r: PdFinalization)
        ensures
            binding_failure(pending, completion, expected_receipt_id@) matches Some(m) ==> (r matches PdFinalization::Rejected { reason } && reason@ == m),
            binding_failure(pending, completion, expected_receipt_id@) is None ==> {
                if completion.y_verdict == 1 && completion.x_verdict == 1 {
                    closure_outcome(r, pending, completion, pending.prepared_question@, PdContinuationBasis::VerifiedPositive)
                } else if completion.y_verdict == 0 && completion.x_verdict == 0 {
                    closure_outcome(r, pending, completion, rebuild_question(pending.prepared_question@), PdContinuationBasis::VerifiedNegativeRebuild)
                } else {
                    r matches PdFinalization::Rejected { reason } && reason@ == verdict_refusal(completion.y_verdict, completion.x_verdict)
                }
            },
    {
        let same_session = str_eq(pending.session_id.as_str(), completion.session_id.as_str());
        let same_parent = str_eq(pending.parent_i0.as_str(), completion.parent_i0.as_str());
        let pre_sealed = pre_seal_verifies(&pending.pre_seal, pending.session_id.as_str(), pending.parent_i0.as_str());
        let spine_closed = pending.spine_completion.closes_all_layers
            && pending.spine_completion.completion_digest == pending.pre_seal.spine_completion_digest;
        let binding = pending.binding_digest();
        let candidate_bound = completion.pd_binding_digest != 0 && completion.pd_binding_digest == binding;
        let continuum_bound = completion.pd_continuum_activation_digest != 0
            && completion.pd_continuum_activation_digest == pending.spine_completion.continuum_activation_digest;
        let trust_ok = living_trust_checks(&completion);
        let verification_sealed = completion.verification_seal == EXPECTED_SHADOW_VERIFICATION_SEAL
            && completion.verification_generation != 0 && completion.primitive_anchor != 0
            && completion.xy_digest != 0 && str_eq(completion.verification_receipt_id.as_str(), expected_receipt_id)
            && trust_ok;
        if !same_session {
            return PdFinalization::Rejected { reason: String::from_str("PD session nuk përputhet me dëftesën e Shadow") };
        }
        if !same_parent {
            return PdFinalization::Rejected { reason: String::from_str("PD parent i₀ nuk përputhet me output-in e vulosur") };
        }
        if !pre_sealed {
            return PdFinalization::Rejected { reason: String::from_str("kandidati PD nuk ka pre-seal të vlefshëm") };
        }
        if !spine_closed {
            return PdFinalization::Rejected { reason: String::from_str("pre-seal nuk është i lidhur me mbylljen e Spine 9") };
        }
        if !candidate_bound {
            return PdFinalization::Rejected { reason: String::from_str("receipt-i i Shadow nuk është i lidhur me kandidatin PD") };
        }
        if !continuum_bound {
            return PdFinalization::Rejected { reason: String::from_str("receipt-i i Shadow nuk mban aktivizimin i₀ + 1Q të PD") };
        }
        if !verification_sealed {
            return PdFinalization::Rejected { reason: String::from_str("output-i final nuk ka seal/receipt kanonik të Shadow") };
        }
        if completion.y_verdict == 1 && completion.x_verdict == 1 {
            let question = pending.prepared_question.clone();
            match build_continuum(&pending, &completion, question, PdContinuationBasis::VerifiedPositive) {
                Ok(closure) => PdFinalization::Released(closure),
                Err(reason) => PdFinalization::Rejected { reason },
            }
        } else if completion.y_verdict == 0 && completion.x_verdict == 0 {
            let mut question = String::from_str("Cila provë konkrete duhet të zëvendësojë bazën e rrëzuar: ");
            question.append(pending.prepared_question.as_str());
            match build_continuum(&pending, &completion, question, PdContinuationBasis::VerifiedNegativeRebuild) {
                Ok(closure) => PdFinalization::RebuiltFromNegative(closure),
                Err(reason) => PdFinalization::Rejected { reason },
            }
        } else {
            let mut reason = String::from_str("gjendje jo-kushtetuese Y=");
            push_decimal(&mut reason, completion.y_verdict as u64);
            reason.append(" X=");
            push_decimal(&mut reason, completion.x_verdict as u64);
            reason.append(" — pritej 1/1 ose 0/0");
            PdFinalization::Rejected { reason }
        }
    }
}


/// Law bits of the pre-seal: the continuum is ready, the activation
/// verifies, the layer lineage closes, the origin is genius research, the
/// evidence is ready for the verification authority.
pub const LAW_CONTINUUM: u32 = 1;
pub const LAW_PD_ACTIVATION: u32 = 2;
pub const LAW_LAYER_LINEAGE: u32 = 4;
pub const LAW_GENIUS_RESEARCH: u32 = 8;
pub const LAW_READY_FOR_SHADOW: u32 = 16;
/// The laws a pre-seal cannot be given without.
pub const REQUIRED_LAWS: u32 = 23;

/// What the pre-seal reads of a Spine 9 completion, as plain values: the
/// checks made on its request and layers, and the digests it binds.
#[derive(Debug, Clone)]
pub struct PdSpineCompletionFacts {
    /// The GCL process held, unbroken, from the request through layers 1, 2 and 3.
    pub gcl_continuous: bool,
    /// Each layer's receipt continues the previous one's.
    pub layers_chained: bool,
    /// The layers that closed.
    pub layer_mask: u8,
    /// The request's continuum activation is ready.
    pub continuum_ready: bool,
    /// The request's activation contract verifies.
    pub activation_verifies: bool,
    /// The activation came from autonomous genius research.
    pub genius_origin: bool,
    /// The evidence is ready for the verification authority.
    pub ready_for_shadow: bool,
    pub contract_version: u32,
    pub activation_id: u64,
    pub activation_contract_digest: u64,
    pub gcl_process_digest: u64,
    pub gcl_law_seal: u64,
    pub gcl_system_laws_seal: u64,
    pub mode_label: String,
    pub origin_label: String,
    pub required_layer_mask: u8,
    pub layer1_digest: u64,
    pub layer2_digest: u64,
    pub layer3_digest: u64,
    pub evidence_digest: u64,
    pub mpro_mass: u32,
    pub completed_at: u64,
    pub completion_digest: u64,
    pub continuum_activation_digest: u64,
    pub question_increment_digest: u64,
    /// The identity of the activation request the completion answers.
    pub request_digest: u64,
    /// The digest of the request's session.
    pub session_digest: u64,
    /// The digest of the request's parent `i₀`.
    pub parent_i0_digest: u64,
}

/// All three layers closed, each continuing the previous one.
pub open spec fn closes_all_layers_spec(f: PdSpineCompletionFacts) -> bool {
    f.layer_mask == ALL_LAYERS_MASK && f.layers_chained
}

/// The law bits a completion satisfies.
pub open spec fn law_mask_spec(f: PdSpineCompletionFacts) -> u32 {
    ((if f.continuum_ready { LAW_CONTINUUM } else { 0 }) + (if f.activation_verifies {
        LAW_PD_ACTIVATION
    } else {
        0
    }) + (if closes_all_layers_spec(f) { LAW_LAYER_LINEAGE } else { 0 }) + (if f.genius_origin {
        LAW_GENIUS_RESEARCH
    } else {
        0
    }) + (if f.ready_for_shadow { LAW_READY_FOR_SHADOW } else { 0 })) as u32
}

/// The bytes of the action a pre-seal authorizes.
pub open spec fn action_material(session_id: Seq<char>, parent_i0: Seq<char>, f: PdSpineCompletionFacts) -> Seq<u8> {
    utf8("ESS_MAI_GCL_PD_ACTION_V160"@) + utf8(session_id) + utf8(parent_i0) + le64(f.activation_id)
        + le64(f.activation_contract_digest) + le64(f.gcl_process_digest) + le64(f.layer1_digest)
        + le64(f.layer2_digest) + le64(f.layer3_digest) + le64(f.evidence_digest) + le32(f.mpro_mass)
        + le64(f.completed_at)
}

/// The bytes of the law trace of an authorized action.
pub open spec fn law_trace_material(action: Seq<u8>, law_mask: u32, f: PdSpineCompletionFacts) -> Seq<u8> {
    utf8("ESS_MAI_IS_GCL_LAW_TRACE_V160"@) + action + le32(law_mask) + utf8(f.mode_label@) + utf8(
        f.origin_label@,
    ) + seq![f.required_layer_mask] + le64(f.gcl_law_seal) + le64(f.gcl_system_laws_seal) + le64(
        f.gcl_process_digest,
    )
}

/// The completion, its pre-seal and the action authorization, together.
#[derive(Debug, Clone)]
pub struct PdAuthorizedCompletion {
    pub completion: PdSpineCompletionFacts,
    pub pre_seal: PdPreSealReceipt,
    pub gcl_token: GclActionAuthorizationToken,
}

pub open spec fn gcl_refusal() -> Seq<char> {
    "GCL refuzoi completion: Spine 9/Layer1→2→3 nuk mbajtën të njëjtin proces GCL"@
}

pub open spec fn lineage_refusal() -> Seq<char> {
    "GCL refuzoi completion: PD/Spine9/Layer1→2→3 lineage nuk mbyllet"@
}

pub open spec fn laws_refusal() -> Seq<char> {
    "GCL refuzoi completion: ligjet kushtetuese të ESS-MAI nuk u plotësuan"@
}

impl PdSpineCompletionFacts {
    pub fn closes_all_layers(&self) -> (r: bool)
        ensures
            r == closes_all_layers_spec(*self),
    {
        self.layer_mask == ALL_LAYERS_MASK && self.layers_chained
    }

    /// What a pending candidate keeps of this completion.
    pub fn closure(&self) -> (r: PdSpineClosure)
        ensures
            r.closes_all_layers == closes_all_layers_spec(*self),
            r.completion_digest == self.completion_digest,
            r.continuum_activation_digest == self.continuum_activation_digest,
            r.question_increment_digest == self.question_increment_digest,
            r.mpro_mass == self.mpro_mass,
    {
        PdSpineClosure {
            closes_all_layers: self.closes_all_layers(),
            completion_digest: self.completion_digest,
            continuum_activation_digest: self.continuum_activation_digest,
            question_increment_digest: self.question_increment_digest,
            mpro_mass: self.mpro_mass,
        }
    }

    fn law_mask(&self) -> (r: u32)
        ensures
            r == law_mask_spec(*self),
    {
        let mut mask: u32 = 0;
        if self.continuum_ready {
            mask = mask + LAW_CONTINUUM;
        }
        if self.activation_verifies {
            mask = mask + LAW_PD_ACTIVATION;
        }
        if self.closes_all_layers() {
            mask = mask + LAW_LAYER_LINEAGE;
        }
        if self.genius_origin {
            mask = mask + LAW_GENIUS_RESEARCH;
        }
        if self.ready_for_shadow {
            mask = mask + LAW_READY_FOR_SHADOW;
        }
        mask
    }
}

/// Authorizes the pre-seal of a Spine 9 completion: refused when the GCL
/// process broke, when the layers do not all close, under a wrong seal, or
/// when a required law (continuum, activation, lineage, readiness) fails;
/// else the action and its law trace are hashed and the pre-seal is issued
/// over them.
pub fn authorize_after_spine(
    runtime_seal: u64,
    session_id: &str,
    parent_i0: &str,
    ts: u64,
    completion: PdSpineCompletionFacts,
) -> (r: Result<PdAuthorizedCompletion, PdError>)
    ensures
        !completion.gcl_continuous ==> (r matches Err(PdError::BridgeFailed(m)) && m@ == gcl_refusal()),
        completion.gcl_continuous && !closes_all_layers_spec(completion) ==> (r matches Err(
            PdError::BridgeFailed(m),
        ) && m@ == lineage_refusal()),
        completion.gcl_continuous && closes_all_layers_spec(completion) && runtime_seal != PD_SEAL ==> (
        r matches Err(PdError::SealInvalid(m)) && m@ == seal_refusal(runtime_seal)),
        completion.gcl_continuous && closes_all_layers_spec(completion) && runtime_seal == PD_SEAL
            && (law_mask_spec(completion) & REQUIRED_LAWS) != REQUIRED_LAWS ==> (r matches Err(
            PdError::BridgeFailed(m),
        ) && m@ == laws_refusal()),
        completion.gcl_continuous && closes_all_layers_spec(completion) && runtime_seal == PD_SEAL
            && (law_mask_spec(completion) & REQUIRED_LAWS) == REQUIRED_LAWS ==> (r matches Ok(a) && {
            let action = sha256_of(action_material(session_id@, parent_i0@, completion));
            let law_trace = sha256_of(law_trace_material(action, law_mask_spec(completion), completion));
            &&& a.completion == completion
            &&& a.gcl_token.contract_version == completion.contract_version
            &&& a.gcl_token.action_sha256@ == action
            &&& a.gcl_token.law_trace_sha256@ == law_trace
            &&& a.gcl_token.law_mask == law_mask_spec(completion)
            &&& a.gcl_token.verdict == 1
            &&& a.gcl_token.issued_at == ts
            &&& a.pre_seal.seal == PD_SEAL
            &&& a.pre_seal.session_id@ == session_id@
            &&& a.pre_seal.parent_i0@ == parent_i0@
            &&& a.pre_seal.prepared_at == ts
            &&& a.pre_seal.spine_activation_id == completion.activation_id
            &&& a.pre_seal.spine_completion_digest == completion.completion_digest
            &&& a.pre_seal.layer_mask == completion.layer_mask
            &&& a.pre_seal.mpro_mass == completion.mpro_mass
            &&& a.pre_seal.action_sha256@ == action
            &&& a.pre_seal.law_trace_sha256@ == law_trace
            &&& a.pre_seal.receipt_id@ == pd_id_spec(pre_seal_parts(a.pre_seal, session_id@, parent_i0@))
            &&& (pre_seal_valid(a.pre_seal, session_id@, parent_i0@) <==> (completion.activation_id != 0
                && completion.completion_digest != 0 && action != zeros32() && law_trace != zeros32()))
        }),
{
    if !completion.gcl_continuous {
        return Err(PdError::BridgeFailed(String::from_str(
            "GCL refuzoi completion: Spine 9/Layer1→2→3 nuk mbajtën të njëjtin proces GCL",
        )));
    }
    if !completion.closes_all_layers() {
        return Err(PdError::BridgeFailed(String::from_str(
            "GCL refuzoi completion: PD/Spine9/Layer1→2→3 lineage nuk mbyllet",
        )));
    }
    match authorize(runtime_seal) {
        Ok(()) => {},
        Err(e) => {
            return Err(e);
        },
    }
    let law_mask = completion.law_mask();
    if (law_mask & REQUIRED_LAWS) != REQUIRED_LAWS {
        return Err(PdError::BridgeFailed(String::from_str(
            "GCL refuzoi completion: ligjet kushtetuese të ESS-MAI nuk u plotësuan",
        )));
    }
    let mut a: Vec<u8> = Vec::new();
    push_bytes(&mut a, "ESS_MAI_GCL_PD_ACTION_V160".as_bytes());
    push_bytes(&mut a, session_id.as_bytes());
    push_bytes(&mut a, parent_i0.as_bytes());
    push_le(&mut a, completion.activation_id, 8);
    push_le(&mut a, completion.activation_contract_digest, 8);
    push_le(&mut a, completion.gcl_process_digest, 8);
    push_le(&mut a, completion.layer1_digest, 8);
    push_le(&mut a, completion.layer2_digest, 8);
    push_le(&mut a, completion.layer3_digest, 8);
    push_le(&mut a, completion.evidence_digest, 8);
    push_le(&mut a, completion.mpro_mass as u64, 4);
    push_le(&mut a, completion.completed_at, 8);
    assert(a@ =~= action_material(session_id@, parent_i0@, completion));
    let action_sha256 = sha256(a.as_slice());
    let mut t: Vec<u8> = Vec::new();
    push_bytes(&mut t, "ESS_MAI_IS_GCL_LAW_TRACE_V160".as_bytes());
    push_bytes(&mut t, action_sha256.as_slice());
    push_le(&mut t, law_mask as u64, 4);
    push_bytes(&mut t, completion.mode_label.as_str().as_bytes());
    push_bytes(&mut t, completion.origin_label.as_str().as_bytes());
    push_le(&mut t, completion.required_layer_mask as u64, 1);
    push_le(&mut t, completion.gcl_law_seal, 8);
    push_le(&mut t, completion.gcl_system_laws_seal, 8);
    push_le(&mut t, completion.gcl_process_digest, 8);
    proof {
        let k = completion.required_layer_mask;
        assert(crate::codec::le_bytes(k as u64, 1) =~= seq![k]) by {
            assert(((k as u64 >> 0u64) & 0xff) as u8 == k) by (bit_vector);
        }
    }
    assert(t@ =~= law_trace_material(action_sha256@, law_mask, completion));
    let law_trace_sha256 = sha256(t.as_slice());
    let ts_b = le_vec(ts, 8);
    let act_b = le_vec(completion.activation_id, 8);
    let comp_b = le_vec(completion.completion_digest, 8);
    let mask_b: [u8; 1] = [completion.layer_mask];
    let mass_b = le_vec(completion.mpro_mass as u64, 4);
    let seal_b = le_vec(PD_SEAL, 8);
    let parts: [&[u8]; 11] = [
        session_id.as_bytes(),
        parent_i0.as_bytes(),
        ts_b.as_slice(),
        act_b.as_slice(),
        comp_b.as_slice(),
        mask_b.as_slice(),
        mass_b.as_slice(),
        action_sha256.as_slice(),
        law_trace_sha256.as_slice(),
        seal_b.as_slice(),
        "GCL_PD_PRESEAL_V160".as_bytes(),
    ];
    let receipt_id = pd_id(parts.as_slice());
    let gcl_token = GclActionAuthorizationToken {
        contract_version: completion.contract_version,
        action_sha256,
        law_trace_sha256,
        law_mask,
        verdict: 1,
        issued_at: ts,
    };
    let pre_seal = PdPreSealReceipt {
        seal: PD_SEAL,
        session_id: String::from_str(session_id),
        parent_i0: String::from_str(parent_i0),
        receipt_id,
        prepared_at: ts,
        spine_activation_id: completion.activation_id,
        spine_completion_digest: completion.completion_digest,
        layer_mask: completion.layer_mask,
        mpro_mass: completion.mpro_mass,
        action_sha256,
        law_trace_sha256,
    };
    assert(mask_b@ =~= seq![completion.layer_mask]);
    assert(views(parts@)[5] == seq![completion.layer_mask]);
    assert(views(parts@) =~= pre_seal_parts(pre_seal, session_id@, parent_i0@));
    Ok(PdAuthorizedCompletion { completion, pre_seal, gcl_token })
}


/// Two pre-seals with the same fields, texts taken by their views.
pub open spec fn same_pre_seal(a: PdPreSealReceipt, b: PdPreSealReceipt) -> bool {
    &&& a.seal == b.seal
    &&& a.session_id@ == b.session_id@
    &&& a.parent_i0@ == b.parent_i0@
    &&& a.receipt_id@ == b.receipt_id@
    &&& a.prepared_at == b.prepared_at
    &&& a.spine_activation_id == b.spine_activation_id
    &&& a.spine_completion_digest == b.spine_completion_digest
    &&& a.layer_mask == b.layer_mask
    &&& a.mpro_mass == b.mpro_mass
    &&& a.action_sha256 == b.action_sha256
    &&& a.law_trace_sha256 == b.law_trace_sha256
}

/// A copy of a pre-seal.
pub fn copy_pre_seal(r: &PdPreSealReceipt) -> (c: PdPreSealReceipt)
    ensures
        same_pre_seal(c, *r),
{
    PdPreSealReceipt {
        seal: r.seal,
        session_id: r.session_id.clone(),
        parent_i0: r.parent_i0.clone(),
        receipt_id: r.receipt_id.clone(),
        prepared_at: r.prepared_at,
        spine_activation_id: r.spine_activation_id,
        spine_completion_digest: r.spine_completion_digest,
        layer_mask: r.layer_mask,
        mpro_mass: r.mpro_mass,
        action_sha256: r.action_sha256,
        law_trace_sha256: r.law_trace_sha256,
    }
}

/// The first cycle of a session's turn: its output and the activation
/// request sent to Spine 9, identified by its digest.
#[derive(Debug, Clone)]
pub struct PdSpineCycle {
    pub output: PdEngineOutput,
    pub request_digest: u64,
}

/// The second cycle: the completion came back, the pre-seal was issued, and
/// a candidate for the next `i₀` is pending when the output carries a question.
#[derive(Debug, Clone)]
pub struct PdPreparedCycle {
    pub output: PdEngineOutput,
    pub pending_next: Option<PdPendingNextI0>,
    pub pre_seal: Option<PdPreSealReceipt>,
    pub spine_completion: PdSpineCompletionFacts,
    pub gcl_token: Option<GclActionAuthorizationToken>,
}

/// The turn a candidate continues and its response kind: a turn's own, or a
/// genius signal scaffolding its structure; nothing for a closed or
/// exhausted session.
pub open spec fn candidate_of(output: PdEngineOutput) -> Option<(Seq<char>, PdResponseType)> {
    match output {
        PdEngineOutput::Continue { turn } => Some((turn.turn_id@, turn.pd_response_type)),
        PdEngineOutput::GeniusDetected { genius_signal, .. } => Some(
            (genius_signal.signal_id@, PdResponseType::ScaffoldStructure),
        ),
        _ => None,
    }
}

/// `p` is the candidate an output leaves, prepared at `ts` from completion
/// `f` under pre-seal `r`.
pub open spec fn is_pending_of(
    p: PdPendingNextI0,
    output: PdEngineOutput,
    session_id: Seq<char>,
    parent_i0: Seq<char>,
    ts: u64,
    f: PdSpineCompletionFacts,
    r: PdPreSealReceipt,
) -> bool {
    &&& candidate_of(output) matches Some(c)
    &&& p.session_id@ == session_id
    &&& p.parent_i0@ == parent_i0
    &&& p.turn_id@ == c.0
    &&& p.prepared_question@ == output_question_spec(output).0
    &&& p.response_type == c.1
    &&& p.prepared_at == ts
    &&& p.spine_completion.closes_all_layers == closes_all_layers_spec(f)
    &&& p.spine_completion.completion_digest == f.completion_digest
    &&& p.spine_completion.continuum_activation_digest == f.continuum_activation_digest
    &&& p.spine_completion.question_increment_digest == f.question_increment_digest
    &&& p.spine_completion.mpro_mass == f.mpro_mass
    &&& same_pre_seal(p.pre_seal, r)
}

/// The candidate for the next `i₀` that an output leaves, if any.
pub fn pending_from_output(
    output: &PdEngineOutput,
    session_id: &str,
    parent_i0: &str,
    ts: u64,
    completion: &PdSpineCompletionFacts,
    pre_seal: &PdPreSealReceipt,
) -> (r: Option<PdPendingNextI0>)
    ensures
        candidate_of(*output) is None ==> r is None,
        candidate_of(*output) is Some ==> (r matches Some(p) && is_pending_of(
            p,
            *output,
            session_id@,
            parent_i0@,
            ts,
            *completion,
            *pre_seal,
        )),
{
    let (turn_id, response_type) = match output {
        PdEngineOutput::Continue { turn } => (turn.turn_id.clone(), turn.pd_response_type),
        PdEngineOutput::GeniusDetected { genius_signal, .. } => (
            genius_signal.signal_id.clone(),
            PdResponseType::ScaffoldStructure,
        ),
        _ => {
            return None;
        },
    };
    let (question, _) = output_question(output);
    Some(
        PdPendingNextI0 {
            session_id: String::from_str(session_id),
            parent_i0: String::from_str(parent_i0),
            turn_id,
            prepared_question: question,
            response_type,
            prepared_at: ts,
            spine_completion: completion.closure(),
            pre_seal: copy_pre_seal(pre_seal),
        },
    )
}

pub open spec fn foreign_activation_refusal() -> Seq<char> {
    "Spine 9 completion nuk i përket aktivizimit të PD"@
}

pub open spec fn foreign_session_refusal() -> Seq<char> {
    "Spine 9 completion ka session tjetër"@
}

pub open spec fn foreign_parent_refusal() -> Seq<char> {
    "Spine 9 completion ka parent i₀ tjetër"@
}

pub open spec fn open_layers_refusal() -> Seq<char> {
    "Layer 1/2/3 nuk u mbyllën; PendingNextI0 refuzohet"@
}

/// The completion answers this cycle's request, for this session and parent `i₀`.
pub open spec fn completion_belongs(cycle_request: u64, session_id: Seq<char>, parent_i0: Seq<char>, f: PdSpineCompletionFacts) -> bool {
    &&& cycle_request == f.request_digest
    &&& f.session_digest == digest_of_text(session_id)
    &&& f.parent_i0_digest == digest_of_text(parent_i0)
    &&& closes_all_layers_spec(f)
}

impl ProgressiveDebatic {
    /// The second phase: the Spine 9 completion comes back. It must answer
    /// this cycle's request, for this session and parent `i₀`, with all three
    /// layers closed; then the pre-seal is authorized and, when the output
    /// carries a question, the candidate for the next `i₀` is prepared.
    pub fn prepare_after_spine_sealed(
        &self,
        session_id: &str,
        parent_i0: &str,
        cycle: PdSpineCycle,
        completion: PdSpineCompletionFacts,
        ts: u64,
        runtime_seal: u64,
    ) -> (r: Result<PdPreparedCycle, PdError>)
        ensures
            cycle.request_digest != completion.request_digest ==> (r matches Err(PdError::BridgeFailed(m))
                && m@ == foreign_activation_refusal()),
            cycle.request_digest == completion.request_digest && completion.session_digest
                != digest_of_text(session_id@) ==> (r matches Err(PdError::BridgeFailed(m)) && m@
                == foreign_session_refusal()),
            cycle.request_digest == completion.request_digest && completion.session_digest
                == digest_of_text(session_id@) && completion.parent_i0_digest != digest_of_text(
                parent_i0@,
            ) ==> (r matches Err(PdError::BridgeFailed(m)) && m@ == foreign_parent_refusal()),
            cycle.request_digest == completion.request_digest && completion.session_digest
                == digest_of_text(session_id@) && completion.parent_i0_digest == digest_of_text(
                parent_i0@,
            ) && !closes_all_layers_spec(completion) ==> (r matches Err(PdError::BridgeFailed(m))
                && m@ == open_layers_refusal()),
            completion_belongs(cycle.request_digest, session_id@, parent_i0@, completion) ==> {
                &&& !completion.gcl_continuous ==> (r matches Err(PdError::BridgeFailed(m)) && m@
                    == gcl_refusal())
                &&& completion.gcl_continuous && runtime_seal != PD_SEAL ==> (r matches Err(
                    PdError::SealInvalid(m),
                ) && m@ == seal_refusal(runtime_seal))
                &&& completion.gcl_continuous && runtime_seal == PD_SEAL && (law_mask_spec(completion)
                    & REQUIRED_LAWS) != REQUIRED_LAWS ==> (r matches Err(PdError::BridgeFailed(m))
                    && m@ == laws_refusal())
                &&& completion.gcl_continuous && runtime_seal == PD_SEAL && (law_mask_spec(completion)
                    & REQUIRED_LAWS) == REQUIRED_LAWS ==> (r matches Ok(pc) && {
                    let action = sha256_of(action_material(session_id@, parent_i0@, completion));
                    let law_trace = sha256_of(law_trace_material(action, law_mask_spec(completion), completion));
                    &&& pc.output == cycle.output
                    &&& pc.spine_completion == completion
                    &&& pc.pre_seal matches Some(ps) && ps.seal == PD_SEAL
                        && ps.session_id@ == session_id@ && ps.parent_i0@ == parent_i0@
                        && ps.prepared_at == ts && ps.spine_activation_id == completion.activation_id
                        && ps.spine_completion_digest == completion.completion_digest
                        && ps.layer_mask == completion.layer_mask && ps.mpro_mass == completion.mpro_mass
                        && ps.action_sha256@ == action && ps.law_trace_sha256@ == law_trace
                        && ps.receipt_id@ == pd_id_spec(pre_seal_parts(ps, session_id@, parent_i0@))
                        && (candidate_of(cycle.output) is None ==> pc.pending_next is None)
                        && (candidate_of(cycle.output) is Some ==> (pc.pending_next matches Some(p)
                        && is_pending_of(p, cycle.output, session_id@, parent_i0@, ts, completion, ps)))
                    &&& pc.gcl_token matches Some(t) && t.contract_version == completion.contract_version
                        && t.action_sha256@ == action && t.law_trace_sha256@ == law_trace
                        && t.law_mask == law_mask_spec(completion) && t.verdict == 1 && t.issued_at == ts
                })
            },
    {
        if cycle.request_digest != completion.request_digest {
            return Err(PdError::BridgeFailed(String::from_str("Spine 9 completion nuk i përket aktivizimit të PD")));
        }
        if completion.session_digest != str_digest(session_id) {
            return Err(PdError::BridgeFailed(String::from_str("Spine 9 completion ka session tjetër")));
        }
        if completion.parent_i0_digest != str_digest(parent_i0) {
            return Err(PdError::BridgeFailed(String::from_str("Spine 9 completion ka parent i₀ tjetër")));
        }
        if !completion.closes_all_layers() {
            return Err(PdError::BridgeFailed(String::from_str("Layer 1/2/3 nuk u mbyllën; PendingNextI0 refuzohet")));
        }
        let authorized = match authorize_after_spine(runtime_seal, session_id, parent_i0, ts, completion) {
            Ok(a) => a,
            Err(e) => {
                return Err(e);
            },
        };
        let pending_next = pending_from_output(
            &cycle.output,
            session_id,
            parent_i0,
            ts,
            &authorized.completion,
            &authorized.pre_seal,
        );
        Ok(
            PdPreparedCycle {
                output: cycle.output,
                pending_next,
                pre_seal: Some(authorized.pre_seal),
                spine_completion: authorized.completion,
                gcl_token: Some(authorized.gcl_token),
            },
        )
    }
}


/// A pre-seal as `authorize_after_spine` issues it for a session, parent
/// `i₀` and time over completion `f`.
pub open spec fn issued_pre_seal(ps: PdPreSealReceipt, session_id: Seq<char>, parent_i0: Seq<char>, ts: u64, f: PdSpineCompletionFacts) -> bool {
    &&& ps.seal == PD_SEAL
    &&& ps.session_id@ == session_id
    &&& ps.parent_i0@ == parent_i0
    &&& ps.prepared_at == ts
    &&& ps.spine_activation_id == f.activation_id
    &&& ps.spine_completion_digest == f.completion_digest
    &&& ps.layer_mask == f.layer_mask
    &&& ps.mpro_mass == f.mpro_mass
    &&& ps.receipt_id@ == pd_id_spec(pre_seal_parts(ps, session_id, parent_i0))
}

/// The candidate that the second phase prepares is bound to its own
/// pre-seal: its Spine 9 closure closed and matches the pre-seal, and the
/// pre-seal verifies for the candidate's session and parent `i₀` exactly
/// when the activation, the completion and both hashes are non-zero.
pub proof fn law_prepared_candidate_is_pre_sealed(
    p: PdPendingNextI0,
    output: PdEngineOutput,
    session_id: Seq<char>,
    parent_i0: Seq<char>,
    ts: u64,
    f: PdSpineCompletionFacts,
    ps: PdPreSealReceipt,
)
    requires
        closes_all_layers_spec(f),
        issued_pre_seal(ps, session_id, parent_i0, ts, f),
        is_pending_of(p, output, session_id, parent_i0, ts, f, ps),
    ensures
        p.spine_completion.closes_all_layers,
        p.spine_completion.completion_digest == p.pre_seal.spine_completion_digest,
        pre_seal_valid(p.pre_seal, p.session_id@, p.parent_i0@) <==> (f.activation_id != 0
            && f.completion_digest != 0 && ps.action_sha256@ != zeros32() && ps.law_trace_sha256@
            != zeros32()),
{
    assert(pre_seal_parts(p.pre_seal, session_id, parent_i0) == pre_seal_parts(ps, session_id, parent_i0));
}


/// Only a receipt bound to the very candidate releases it: when no binding
/// fails, the receipt names the candidate's session and parent `i₀`, carries
/// its binding digest and continuum activation, the candidate's pre-seal
/// verifies over a closed Spine 9, and the receipt is sealed by the
/// verification authority under the expected identifier.
pub proof fn law_only_a_bound_receipt_releases(p: PdPendingNextI0, c: PdVerificationCompletion, expected_receipt_id: Seq<char>)
    requires
        binding_failure(p, c, expected_receipt_id) is None,
    ensures
        c.session_id@ == p.session_id@,
        c.parent_i0@ == p.parent_i0@,
        pre_seal_valid(p.pre_seal, p.session_id@, p.parent_i0@),
        p.spine_completion.closes_all_layers,
        p.spine_completion.completion_digest == p.pre_seal.spine_completion_digest,
        c.pd_binding_digest == binding_spec(p),
        c.pd_continuum_activation_digest == p.spine_completion.continuum_activation_digest,
        verification_sealed(c, expected_receipt_id),
{
}

} // verus!
