//! The living trust seal: one SHA-256 over the converged action state, the
//! supreme verdict, the active laws and the sovereign primitive, admitted
//! only for complete action convergence and a constitutional verdict.

use vstd::prelude::*;
use crate::codec::{push_le, push_bytes, le32, le64, utf8, fnv64, concat_parts, part_views,
    hex_byte_value, is_hex_byte, hex_value, all_hex, bytes_all_hex, Fnv64};
use crate::sha::{sha256, sha256_of};
use crate::text::{push_hex_bytes, hex_of_bytes, hex_lower, hex_digit, ascii_lower, ascii_lower_char};

verus! {

pub const LIVING_TRUST_CONTRACT_VERSION: u32 = 0x0001_0603;
pub const TRUST_INTENSITY_SCALE: u32 = 10_000;
pub const TRUST_KIND_NONE: u8 = 0;
pub const TRUST_KIND_CONSTRUCTIVE: u8 = 1;
pub const TRUST_KIND_RIGOROUS_NEGATIVE: u8 = 2;
pub const SOVEREIGN_SEAL_XOR: u32 = 0xA5A5;
pub const SOVEREIGN_SEAL_MASK: u32 = 0x0000_FFFF;
pub const SOVEREIGN_SEAL_PRIMITIVE: u32 = 500;
pub const LEGACY_BITS_MASK: u32 = 0x54;
pub const REQUIRED_ACTION_MASK: u64 = 0x0000_0000_0000_03FE;

/// The evidence a living trust seal is computed from.
#[derive(Debug, Clone, Copy, PartialEq, Eq)]
pub struct LivingTrustProof {
    pub action_state: u64,
    pub action_mask: u64,
    pub required_action_mask: u64,
    pub verified: u8,
    pub primitive: u8,
    pub knowledge_band: u8,
    pub lgc_law: u32,
    pub system_laws_seal: u64,
    pub scientific_project_sha256: [u8; 32],
    pub scientific_project_verdict_sha256: [u8; 32],
    pub sovereign_flags: u32,
}

impl LivingTrustProof {
    pub open spec fn legacy_bits_spec(self) -> u32 {
        self.lgc_law & LEGACY_BITS_MASK
    }

    pub open spec fn sovereign_value_spec(self) -> u32 {
        (self.sovereign_flags & SOVEREIGN_SEAL_MASK) ^ SOVEREIGN_SEAL_XOR
    }

    /// `1/1` is constructive, `0/0` is a rigorous negative, anything else is none.
    pub open spec fn kind_spec(self) -> u8 {
        if self.verified == 1 && self.primitive == 1 {
            TRUST_KIND_CONSTRUCTIVE
        } else if self.verified == 0 && self.primitive == 0 {
            TRUST_KIND_RIGOROUS_NEGATIVE
        } else {
            TRUST_KIND_NONE
        }
    }

    pub open spec fn admissible_spec(self) -> bool {
        &&& self.action_state != 0
        &&& self.required_action_mask == REQUIRED_ACTION_MASK
        &&& self.action_mask == self.required_action_mask
        &&& self.system_laws_seal != 0
        &&& self.sovereign_flags != 0
        &&& self.sovereign_value_spec() == SOVEREIGN_SEAL_PRIMITIVE
        &&& self.verified <= 1
        &&& self.primitive <= 1
        &&& self.kind_spec() != TRUST_KIND_NONE
    }

    pub fn legacy_bits(self) -> (r: u32)
        ensures
            r == self.legacy_bits_spec(),
    {
        self.lgc_law & LEGACY_BITS_MASK
    }

    pub fn sovereign_value(self) -> (r: u32)
        ensures
            r == self.sovereign_value_spec(),
    {
        (self.sovereign_flags & SOVEREIGN_SEAL_MASK) ^ SOVEREIGN_SEAL_XOR
    }

    pub fn constitutional_kind(self) -> (r: u8)
        ensures
            r == self.kind_spec(),
    {
        match (self.verified, self.primitive) {
            (1, 1) => TRUST_KIND_CONSTRUCTIVE,
            (0, 0) => TRUST_KIND_RIGOROUS_NEGATIVE,
            _ => TRUST_KIND_NONE,
        }
    }

    pub fn is_admissible(self) -> (r: bool)
        ensures
            r == self.admissible_spec(),
    {
        self.action_state != 0 && self.required_action_mask == REQUIRED_ACTION_MASK
            && self.action_mask == self.required_action_mask && self.system_laws_seal != 0
            && self.sovereign_flags != 0 && self.sovereign_value() == SOVEREIGN_SEAL_PRIMITIVE
            && self.verified <= 1 && self.primitive <= 1
            && self.constitutional_kind() != TRUST_KIND_NONE
    }
}

/// The seal: a 32-byte identity with its intensity, kind and sovereign value.
#[derive(Debug, Clone, Copy, PartialEq, Eq)]
pub struct LivingTrustSeal {
    pub identity_sha256: [u8; 32],
    pub intensity: u32,
    pub kind: u8,
    pub sovereign_value: u32,
}

/// The bytes bound by the seal's 64-bit identity digest.
pub open spec fn identity_digest_material(s: LivingTrustSeal) -> Seq<u8> {
    s.identity_sha256@ + le32(s.intensity) + seq![s.kind] + le32(s.sovereign_value) + utf8(
        "GCL_LIVING_TRUST_TO_IZ_V164"@,
    )
}

impl LivingTrustSeal {
    pub fn identity_hex(self) -> (r: String)
        ensures
            r@ == hex_of_bytes(self.identity_sha256@),
    {
        hex_32(&self.identity_sha256)
    }

    pub fn identity_digest(self) -> (r: u64)
        ensures
            r == fnv64(identity_digest_material(self)),
    {
        let mut h = Fnv64::new();
        h.update(self.identity_sha256.as_slice());
        h.update_u32(self.intensity);
        h.update_byte(self.kind);
        h.update_u32(self.sovereign_value);
        h.update_str("GCL_LIVING_TRUST_TO_IZ_V164");
        assert(h.absorbed() =~= identity_digest_material(self));
        h.finish()
    }
}

/// The canonical material hashed into the seal identity.
pub open spec fn trust_material(p: LivingTrustProof) -> Seq<u8> {
    utf8("GCL_LIVING_TRUST_V164"@) + le32(LIVING_TRUST_CONTRACT_VERSION) + le64(p.action_state) + le64(
        p.action_mask,
    ) + le64(p.required_action_mask) + seq![p.verified] + seq![p.primitive] + seq![p.knowledge_band]
        + le32(p.lgc_law) + le32(p.legacy_bits_spec()) + le64(p.system_laws_seal)
        + p.scientific_project_sha256@ + p.scientific_project_verdict_sha256@ + le32(p.sovereign_flags)
        + le32(p.sovereign_value_spec())
}

/// Computes the seal from a proof and a fixed-point intensity: refused unless
/// the proof is admissible and the intensity is within scale.
pub fn compute_with_intensity(proof: LivingTrustProof, intensity: u32) -> (r: Option<LivingTrustSeal>)
    ensures
        r is Some <==> (proof.admissible_spec() && intensity <= TRUST_INTENSITY_SCALE),
        r matches Some(seal) ==> {
            &&& seal.identity_sha256@ == sha256_of(trust_material(proof))
            &&& seal.intensity == intensity
            &&& seal.kind == proof.kind_spec()
            &&& seal.sovereign_value == proof.sovereign_value_spec()
        },
{
    if !(proof.is_admissible() && intensity <= TRUST_INTENSITY_SCALE) {
        return None;
    }
    let kind = proof.constitutional_kind();
    let sovereign_value = proof.sovereign_value();
    let mut material: Vec<u8> = Vec::new();
    push_bytes(&mut material, "GCL_LIVING_TRUST_V164".as_bytes());
    push_le(&mut material, LIVING_TRUST_CONTRACT_VERSION as u64, 4);
    push_le(&mut material, proof.action_state, 8);
    push_le(&mut material, proof.action_mask, 8);
    push_le(&mut material, proof.required_action_mask, 8);
    material.push(proof.verified);
    material.push(proof.primitive);
    material.push(proof.knowledge_band);
    push_le(&mut material, proof.lgc_law as u64, 4);
    push_le(&mut material, proof.legacy_bits() as u64, 4);
    push_le(&mut material, proof.system_laws_seal, 8);
    push_bytes(&mut material, proof.scientific_project_sha256.as_slice());
    push_bytes(&mut material, proof.scientific_project_verdict_sha256.as_slice());
    push_le(&mut material, proof.sovereign_flags as u64, 4);
    push_le(&mut material, sovereign_value as u64, 4);
    assert(material@ =~= trust_material(proof));
    let identity_sha256 = sha256(material.as_slice());
    Some(LivingTrustSeal { identity_sha256, intensity, kind, sovereign_value })
}

/// The 32 bytes spelled by 64 hexadecimal digits, two per byte, high nibble first.
pub open spec fn hex_pairs_value(b: Seq<u8>, k: int) -> u8 {
    (hex_value(b[2 * k]) * 16 + hex_value(b[2 * k + 1])) as u8
}

/// Parses 64 ASCII hexadecimal digits (either case) into 32 bytes.
pub fn parse_hex_32(value: &str) -> (r: Option<[u8; 32]>)
    ensures
        r is Some <==> (utf8(value@).len() == 64 && all_hex(utf8(value@))),
        r matches Some(out) ==> forall|k: int| 0 <= k < 32 ==> #[trigger] out@[k] == hex_pairs_value(
            utf8(value@),
            k,
        ),
{
    let b = value.as_bytes();
    if !(b.len() == 64 && bytes_all_hex(b)) {
        return None;
    }
    let mut out = [0u8; 32];
    let mut k: usize = 0;
    while k < 32
        invariant
            b@ == utf8(value@),
            b@.len() == 64,
            all_hex(b@),
            k <= 32,
            forall|j: int| 0 <= j < k ==> #[trigger] out@[j] == hex_pairs_value(b@, j),
        decreases 32 - k,
    {
        assert(is_hex_byte(b@[2 * k as int]));
        assert(is_hex_byte(b@[2 * k as int + 1]));
        let hi = match hex_byte_value(b[2 * k]) {
            Some(v) => v,
            None => return None,
        };
        let lo = match hex_byte_value(b[2 * k + 1]) {
            Some(v) => v,
            None => return None,
        };
        out[k] = hi * 16 + lo;
        k += 1;
    }
    Some(out)
}

proof fn lemma_hex_len(b: Seq<u8>)
    ensures
        hex_of_bytes(b).len() == 2 * b.len(),
    decreases b.len(),
{
    if b.len() > 0 {
        lemma_hex_len(b.drop_last());
    }
}

/// The two digits of byte `k` stand at `2k` and `2k + 1`.
proof fn lemma_hex_digits_at(b: Seq<u8>, k: int)
    requires
        0 <= k < b.len(),
    ensures
        hex_of_bytes(b)[2 * k] == hex_digit(((b[k] as u64) >> 4u64) & 0xf),
        hex_of_bytes(b)[2 * k + 1] == hex_digit((b[k] as u64) & 0xf),
    decreases b.len(),
{
    let p = b.drop_last();
    lemma_hex_len(p);
    let x = b.last() as u64;
    assert((x >> 0u64) == x) by (bit_vector);
    if k == b.len() - 1 {
        assert(hex_lower(x, 2)[0] == hex_digit((x >> 4u64) & 0xf));
        assert(hex_lower(x, 2)[1] == hex_digit((x >> 0u64) & 0xf));
    } else {
        lemma_hex_digits_at(p, k);
        assert(p[k] == b[k]);
    }
}

/// The byte of a lowercase hexadecimal digit, read back, is the nibble.
proof fn lemma_hex_digit_byte(n: u64)
    requires
        n < 16,
    ensures
        is_hex_byte(hex_digit(n) as u8),
        hex_value(hex_digit(n) as u8) == n,
        '\0' <= hex_digit(n) <= '\u{7f}',
{
    if n < 10 {
        assert(hex_digit(n) as u32 == 48 + n);
    } else {
        assert(hex_digit(n) as u32 == 97 + n - 10);
    }
}

/// Reading back the 64 lowercase digits of 32 bytes gives the bytes: what
/// `hex_32` writes, `parse_hex_32` reads back unchanged.
pub proof fn law_hex_round_trip(b: Seq<u8>)
    requires
        b.len() == 32,
    ensures
        utf8(hex_of_bytes(b)).len() == 64,
        all_hex(utf8(hex_of_bytes(b))),
        forall|k: int| 0 <= k < 32 ==> #[trigger] hex_pairs_value(utf8(hex_of_bytes(b)), k) == b[k],
{
    let h = hex_of_bytes(b);
    lemma_hex_len(b);
    assert forall|i: int| 0 <= i < h.len() implies '\0' <= #[trigger] h[i] <= '\u{7f}'
        && is_hex_byte(h[i] as u8) by {
        let k = i / 2;
        lemma_hex_digits_at(b, k);
        let x = b[k] as u64;
        let hi = (x >> 4u64) & 0xf;
        let lo = x & 0xf;
        assert(hi < 16 && lo < 16) by (bit_vector)
            requires
                hi == (x >> 4u64) & 0xf,
                lo == x & 0xf,
        ;
        lemma_hex_digit_byte(hi);
        lemma_hex_digit_byte(lo);
        if i % 2 == 0 {
            assert(i == 2 * k);
        } else {
            assert(i == 2 * k + 1);
        }
    }
    assert(vstd::utf8::is_ascii_chars(h));
    vstd::utf8::is_ascii_chars_encode_utf8(h);
    let e = utf8(h);
    assert forall|j: int| 0 <= j < e.len() implies is_hex_byte(#[trigger] e[j]) by {
        assert(h[j] as u8 == e[j]);
    }
    assert forall|k: int| 0 <= k < 32 implies #[trigger] hex_pairs_value(e, k) == b[k] by {
        lemma_hex_digits_at(b, k);
        let x = b[k] as u64;
        let hi = (x >> 4u64) & 0xf;
        let lo = x & 0xf;
        assert(hi < 16 && lo < 16) by (bit_vector)
            requires
                hi == (x >> 4u64) & 0xf,
                lo == x & 0xf,
        ;
        lemma_hex_digit_byte(hi);
        lemma_hex_digit_byte(lo);
        assert(h[2 * k] as u8 == e[2 * k]);
        assert(h[2 * k + 1] as u8 == e[2 * k + 1]);
        let bk = b[k];
        assert((((((bk as u64) >> 4u64) & 0xf) * 16 + ((bk as u64) & 0xf)) as u8) == bk)
            by (bit_vector);
    }
}

/// A text whose UTF-8 bytes are all hexadecimal digits is ASCII: each
/// character is its own byte.
proof fn lemma_hex_text_is_ascii(s: Seq<char>)
    requires
        all_hex(utf8(s)),
    ensures
        utf8(s).len() == s.len(),
        forall|i: int| 0 <= i < s.len() ==> (#[trigger] s[i]) as u32 == utf8(s)[i] as u32,
    decreases s.len(),
{
    if s.len() > 0 {
        let c = s[0];
        let v = c as u32;
        let head = vstd::utf8::encode_scalar(v);
        let rest = vstd::utf8::encode_utf8(s.drop_first());
        assert(utf8(s) == head + rest);
        assert forall|i: int| 0 <= i < rest.len() implies is_hex_byte(#[trigger] rest[i]) by {
            assert((head + rest)[head.len() + i] == rest[i]);
        }
        assert(utf8(s.drop_first()) == rest);
        lemma_hex_text_is_ascii(s.drop_first());
        let b0 = head[0];
        assert((head + rest)[0] == b0);
        assert(is_hex_byte(b0));
        vstd::utf8::char_is_scalar(c);
        if vstd::utf8::has_width_1_encoding(v) {
            assert(b0 == (v & 0x7F) as u8);
            assert(((v & 0x7F) as u8) as u32 == v) by (bit_vector)
                requires
                    v <= 0x7f,
            ;
        } else if vstd::utf8::has_width_2_encoding(v) {
            assert((0xC0u8 | ((v >> 6) & 0x1F) as u8) >= 0xC0) by (bit_vector);
        } else if vstd::utf8::has_width_3_encoding(v) {
            assert((0xE0u8 | ((v >> 12) & 0x0F) as u8) >= 0xC0) by (bit_vector);
        } else {
            assert((0xF0u8 | ((v >> 18) & 0x7) as u8) >= 0xC0) by (bit_vector);
        }
        assert(head.len() == 1);
        assert forall|i: int| 0 <= i < s.len() implies (#[trigger] s[i]) as u32 == utf8(s)[i] as u32 by {
            if i > 0 {
                assert(s[i] == s.drop_first()[i - 1]);
                assert((head + rest)[i] == rest[i - 1]);
            }
        }
    }
}

/// The lowercase digit of a hexadecimal byte's value is the byte lowered.
proof fn lemma_hex_digit_of_value(b: u8, c: char)
    requires
        is_hex_byte(b),
        c as u32 == b as u32,
    ensures
        hex_value(b) < 16,
        hex_digit(hex_value(b) as u64) == ascii_lower_char(c),
{
    if b <= 0x39 {
        assert(hex_digit(hex_value(b) as u64) as u32 == b as u32);
    } else if b <= 0x46 {
        assert(hex_digit(hex_value(b) as u64) as u32 == b as u32 + 32);
    } else {
        assert(hex_digit(hex_value(b) as u64) as u32 == b as u32);
    }
}

/// Re-encoding a parsed hexadecimal identity gives its lowercase form: the
/// 32 bytes that `parse_hex_32` reads from a text, `hex_32` writes back as
/// that text with its ASCII letters lowered.
pub proof fn law_parse_then_hex_is_lowercase(s: Seq<char>, out: Seq<u8>)
    requires
        utf8(s).len() == 64,
        all_hex(utf8(s)),
        out.len() == 32,
        forall|k: int| 0 <= k < 32 ==> #[trigger] out[k] == hex_pairs_value(utf8(s), k),
    ensures
        hex_of_bytes(out) == ascii_lower(s),
{
    let e = utf8(s);
    lemma_hex_text_is_ascii(s);
    lemma_hex_len(out);
    let h = hex_of_bytes(out);
    assert forall|i: int| 0 <= i < 64 implies #[trigger] h[i] == ascii_lower(s)[i] by {
        let k = i / 2;
        lemma_hex_digits_at(out, k);
        let b0 = e[2 * k];
        let b1 = e[2 * k + 1];
        assert(is_hex_byte(b0) && is_hex_byte(b1));
        assert(s[2 * k] as u32 == b0 as u32);
        assert(s[2 * k + 1] as u32 == b1 as u32);
        lemma_hex_digit_of_value(b0, s[2 * k]);
        lemma_hex_digit_of_value(b1, s[2 * k + 1]);
        let hi = hex_value(b0);
        let lo = hex_value(b1);
        let x = out[k];
        assert(x == hex_pairs_value(e, k));
        assert(((x as u64) >> 4u64) & 0xf == hi as u64 && (x as u64) & 0xf == lo as u64) by (bit_vector)
            requires
                hi < 16,
                lo < 16,
                x == ((hi * 16 + lo) as u8),
        ;
        if i % 2 == 0 {
            assert(i == 2 * k);
        } else {
            assert(i == 2 * k + 1);
        }
    }
    assert(h =~= ascii_lower(s));
}

/// 64 lowercase hexadecimal digits for 32 bytes.
pub fn hex_32(value: &[u8; 32]) -> (r: String)
    ensures
        r@ == hex_of_bytes(value@),
{
    let mut out = String::new();
    push_hex_bytes(&mut out, value.as_slice());
    assert(out@ =~= hex_of_bytes(value@));
    out
}

/// FNV-1a digest of the concatenation of byte parts.
pub fn digest_parts(parts: &[&[u8]]) -> (r: u64)
    ensures
        r == fnv64(concat_parts(part_views(parts@))),
{
    crate::codec::fnv_parts(parts)
}

/// An admissible proof always names a constitutional kind: constructive for
/// a verified primitive (1/1), rigorous negative for a verified refutation (0/0).
pub proof fn lemma_admissible_kind(p: LivingTrustProof)
    requires
        p.admissible_spec(),
    ensures
        (p.verified == 1 && p.primitive == 1 && p.kind_spec() == TRUST_KIND_CONSTRUCTIVE) || (
        p.verified == 0 && p.primitive == 0 && p.kind_spec() == TRUST_KIND_RIGOROUS_NEGATIVE),
{
}


/// A living trust seal is admitted only for complete action convergence:
/// every required organ finished (the action mask is exactly `0x3FE`, the
/// required mask), the state is non-zero, the laws are sealed, the sovereign
/// value is the primitive 500, and the verdicts agree on 1/1 or 0/0.
pub proof fn law_admission_needs_full_convergence(p: LivingTrustProof)
    requires
        p.admissible_spec(),
    ensures
        p.action_mask == 0x3FE,
        p.required_action_mask == 0x3FE,
        p.action_state != 0,
        p.system_laws_seal != 0,
        p.sovereign_value_spec() == 500,
        (p.verified == 1 && p.primitive == 1) || (p.verified == 0 && p.primitive == 0),
{
}

/// Hence no seal is computed for an incomplete convergence: whenever the
/// action mask differs from `0x3FE`, the proof is not admissible, and
/// `compute_with_intensity` gives nothing.
pub proof fn law_incomplete_convergence_gets_no_seal(p: LivingTrustProof)
    requires
        p.action_mask != 0x3FE,
    ensures
        !p.admissible_spec(),
{
}


/// The kind and sovereign value a seal carries: `1/1` is constructive (1),
/// `0/0` a rigorous negative (2), anything else none (0); the sovereign
/// value is the low 16 bits of the flags xor `0xA5A5`.
pub proof fn law_seal_kind_and_sovereign_value(p: LivingTrustProof)
    ensures
        p.kind_spec() == (if p.verified == 1 && p.primitive == 1 {
            1u8
        } else if p.verified == 0 && p.primitive == 0 {
            2u8
        } else {
            0u8
        }),
        p.sovereign_value_spec() == (p.sovereign_flags & 0xFFFF) ^ 0xA5A5,
{
}

} // verus!
