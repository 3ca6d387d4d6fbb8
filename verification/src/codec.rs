//! Byte and text primitives shared by the contracts: the 64-bit FNV-1a digest,
//! little-endian encodings, hexadecimal and decimal renderings, and string
//! helpers whose behaviour is stated over `Seq<char>` views.

use vstd::prelude::*;

verus! {

/// FNV-1a offset basis.
pub const FNV_OFFSET: u64 = 0xcbf2_9ce4_8422_2325;
/// FNV-1a prime.
pub const FNV_PRIME: u64 = 0x0000_0100_0000_01b3;

/// One FNV-1a step: xor the byte in, then multiply modulo 2^64.
pub open spec fn fnv_step(h: u64, b: u8) -> u64 {
    (h ^ (b as u64)).wrapping_mul(FNV_PRIME)
}

/// FNV-1a state after absorbing `bytes` starting from state `h`.
pub open spec fn fnv_fold(h: u64, bytes: Seq<u8>) -> u64
    decreases bytes.len(),
{
    if bytes.len() == 0 {
        h
    } else {
        fnv_step(fnv_fold(h, bytes.drop_last()), bytes.last())
    }
}

/// The FNV-1a 64-bit digest of a byte sequence.
pub open spec fn fnv64(bytes: Seq<u8>) -> u64 {
    fnv_fold(FNV_OFFSET, bytes)
}

/// Absorbing two sequences one after the other equals absorbing their concatenation.
pub proof fn lemma_fnv_fold_concat(h: u64, a: Seq<u8>, b: Seq<u8>)
    ensures
        fnv_fold(h, a + b) == fnv_fold(fnv_fold(h, a), b),
    decreases b.len(),
{
    if b.len() == 0 {
        assert(a + b =~= a);
    } else {
        lemma_fnv_fold_concat(h, a, b.drop_last());
        assert((a + b).drop_last() =~= a + b.drop_last());
        assert((a + b).last() == b.last());
    }
}

/// Absorbs `bytes` into the FNV-1a state `h`.
pub fn fnv_extend(h: u64, bytes: &[u8]) -> (r: u64)
    ensures
        r == fnv_fold(h, bytes@),
{
    let mut acc = h;
    let mut i: usize = 0;
    while i < bytes.len()
        invariant
            i <= bytes@.len(),
            acc == fnv_fold(h, bytes@.take(i as int)),
        decreases bytes@.len() - i,
    {
        let b = bytes[i];
        acc = (acc ^ (b as u64)).wrapping_mul(FNV_PRIME);
        assert(bytes@.take(i + 1).drop_last() =~= bytes@.take(i as int));
        i += 1;
    }
    assert(bytes@.take(i as int) =~= bytes@);
    acc
}

/// The `n` low bytes of `x`, least significant first.
pub open spec fn le_bytes(x: u64, n: nat) -> Seq<u8> {
    Seq::new(n, |i: int| ((x >> (8 * i) as u64) & 0xff) as u8)
}

/// Little-endian encoding of a `u64`.
pub open spec fn le64(x: u64) -> Seq<u8> {
    le_bytes(x, 8)
}

/// Little-endian encoding of a `u32`.
pub open spec fn le32(x: u32) -> Seq<u8> {
    le_bytes(x as u64, 4)
}

/// The UTF-8 encoding of a character sequence.
pub open spec fn utf8(s: Seq<char>) -> Seq<u8> {
    vstd::utf8::encode_utf8(s)
}

/// The concatenation of byte parts, in order.
pub open spec fn concat_parts(parts: Seq<Seq<u8>>) -> Seq<u8>
    decreases parts.len(),
{
    if parts.len() == 0 {
        Seq::empty()
    } else {
        concat_parts(parts.drop_last()) + parts.last()
    }
}

/// The byte views of a slice of byte slices.
pub open spec fn part_views(parts: Seq<&[u8]>) -> Seq<Seq<u8>> {
    parts.map_values(|p: &[u8]| p@)
}

/// FNV-1a digest of the concatenation of `parts`.
pub fn fnv_parts(parts: &[&[u8]]) -> (r: u64)
    ensures
        r == fnv64(concat_parts(part_views(parts@))),
{
    let ghost views = part_views(parts@);
    let mut h = FNV_OFFSET;
    let mut i: usize = 0;
    while i < parts.len()
        invariant
            i <= parts@.len(),
            views == part_views(parts@),
            h == fnv64(concat_parts(views.take(i as int))),
        decreases parts@.len() - i,
    {
        proof {
            assert(views.take(i + 1).drop_last() =~= views.take(i as int));
            assert(views.take(i + 1).last() == parts@[i as int]@);
            lemma_fnv_fold_concat(FNV_OFFSET, concat_parts(views.take(i as int)), parts@[i as int]@);
        }
        h = fnv_extend(h, parts[i]);
        i += 1;
    }
    assert(views.take(i as int) =~= views);
    h
}

/// An FNV-1a hasher that remembers, as ghost state, every byte it absorbed.
pub struct Fnv64 {
    state: u64,
    seen: Ghost<Seq<u8>>,
}

impl Fnv64 {
    /// The bytes absorbed so far.
    pub closed spec fn absorbed(&self) -> Seq<u8> {
        self.seen@
    }

    /// The hasher's state is the digest of what it absorbed.
    pub closed spec fn wf(&self) -> bool {
        self.state == fnv64(self.seen@)
    }

    pub fn new() -> (r: Fnv64)
        ensures
            r.wf(),
            r.absorbed() == Seq::<u8>::empty(),
    {
        Fnv64 { state: FNV_OFFSET, seen: Ghost(Seq::empty()) }
    }

    /// Absorbs a byte slice.
    pub fn update(&mut self, bytes: &[u8])
        requires
            old(self).wf(),
        ensures
            final(self).wf(),
            final(self).absorbed() == old(self).absorbed() + bytes@,
    {
        proof {
            lemma_fnv_fold_concat(FNV_OFFSET, self.seen@, bytes@);
        }
        self.state = fnv_extend(self.state, bytes);
        self.seen = Ghost(self.seen@ + bytes@);
    }

    /// Absorbs the `n` low bytes of `x`, least significant first.
    pub fn update_le(&mut self, x: u64, n: usize)
        requires
            old(self).wf(),
            n <= 8,
        ensures
            final(self).wf(),
            final(self).absorbed() == old(self).absorbed() + le_bytes(x, n as nat),
    {
        let ghost start = self.seen@;
        let mut i: usize = 0;
        while i < n
            invariant
                i <= n <= 8,
                self.wf(),
                self.seen@ == start + le_bytes(x, i as nat),
            decreases n - i,
        {
            let b: u8 = #[verifier::truncate] (((x >> (8 * i) as u64) & 0xff) as u8);
            proof {
                lemma_fnv_fold_concat(FNV_OFFSET, self.seen@, seq![b]);
                assert(fnv_fold(self.state, seq![b]) == fnv_step(fnv_fold(self.state, seq![b].drop_last()), b));
                assert(seq![b].drop_last() =~= Seq::<u8>::empty());
            }
            self.state = (self.state ^ (b as u64)).wrapping_mul(FNV_PRIME);
            self.seen = Ghost(self.seen@ + seq![b]);
            assert(le_bytes(x, (i + 1) as nat) =~= le_bytes(x, i as nat) + seq![b]);
            assert(self.seen@ =~= start + le_bytes(x, (i + 1) as nat));
            i += 1;
        }
    }

    /// Absorbs the little-endian encoding of a `u64`.
    pub fn update_u64(&mut self, x: u64)
        requires
            old(self).wf(),
        ensures
            final(self).wf(),
            final(self).absorbed() == old(self).absorbed() + le64(x),
    {
        self.update_le(x, 8);
    }

    /// Absorbs the little-endian encoding of a `u32`.
    pub fn update_u32(&mut self, x: u32)
        requires
            old(self).wf(),
        ensures
            final(self).wf(),
            final(self).absorbed() == old(self).absorbed() + le32(x),
    {
        self.update_le(x as u64, 4);
    }

    /// Absorbs one byte.
    pub fn update_byte(&mut self, b: u8)
        requires
            old(self).wf(),
        ensures
            final(self).wf(),
            final(self).absorbed() == old(self).absorbed() + seq![b],
    {
        self.update_le(b as u64, 1);
        assert(le_bytes(b as u64, 1) =~= seq![b]) by {
            assert(((b as u64 >> 0u64) & 0xff) as u8 == b) by (bit_vector);
        }
    }

    /// Absorbs the UTF-8 bytes of a string.
    pub fn update_str(&mut self, s: &str)
        requires
            old(self).wf(),
        ensures
            final(self).wf(),
            final(self).absorbed() == old(self).absorbed() + utf8(s@),
    {
        self.update(s.as_bytes());
    }

    /// The digest of everything absorbed.
    pub fn finish(&self) -> (r: u64)
        requires
            self.wf(),
        ensures
            r == fnv64(self.absorbed()),
    {
        self.state
    }
}

/// Appends the `n` low bytes of `x`, least significant first.
pub fn push_le(out: &mut Vec<u8>, x: u64, n: usize)
    requires
        n <= 8,
    ensures
        final(out)@ == old(out)@ + le_bytes(x, n as nat),
{
    let ghost start = out@;
    let mut i: usize = 0;
    while i < n
        invariant
            i <= n <= 8,
            out@ == start + le_bytes(x, i as nat),
        decreases n - i,
    {
        let b: u8 = #[verifier::truncate] (((x >> (8 * i) as u64) & 0xff) as u8);
        out.push(b);
        assert(le_bytes(x, (i + 1) as nat) =~= le_bytes(x, i as nat).push(b));
        assert(out@ =~= start + le_bytes(x, (i + 1) as nat));
        i += 1;
    }
}

/// Appends a byte slice.
pub fn push_bytes(out: &mut Vec<u8>, bytes: &[u8])
    ensures
        final(out)@ == old(out)@ + bytes@,
{
    let ghost start = out@;
    let mut i: usize = 0;
    while i < bytes.len()
        invariant
            i <= bytes@.len(),
            out@ == start + bytes@.take(i as int),
        decreases bytes@.len() - i,
    {
        out.push(bytes[i]);
        assert(bytes@.take(i + 1) =~= bytes@.take(i as int).push(bytes@[i as int]));
        assert(out@ =~= start + bytes@.take(i + 1));
        i += 1;
    }
    assert(bytes@.take(i as int) =~= bytes@);
}

/// Whether a byte is an ASCII hexadecimal digit.
pub open spec fn is_hex_byte(b: u8) -> bool {
    (0x30 <= b && b <= 0x39) || (0x41 <= b && b <= 0x46) || (0x61 <= b && b <= 0x66)
}

/// The value of an ASCII hexadecimal digit.
pub open spec fn hex_value(b: u8) -> u8 {
    if b <= 0x39 {
        (b - 0x30) as u8
    } else if b <= 0x46 {
        (b - 0x41 + 10) as u8
    } else {
        (b - 0x61 + 10) as u8
    }
}

pub fn hex_byte_value(b: u8) -> (r: Option<u8>)
    ensures
        r is Some <==> is_hex_byte(b),
        r matches Some(v) ==> v == hex_value(b) && v < 16,
{
    if 0x30 <= b && b <= 0x39 {
        Some(b - 0x30)
    } else if 0x41 <= b && b <= 0x46 {
        Some(b - 0x41 + 10)
    } else if 0x61 <= b && b <= 0x66 {
        Some(b - 0x61 + 10)
    } else {
        None
    }
}

/// Every byte is an ASCII hexadecimal digit.
pub open spec fn all_hex(s: Seq<u8>) -> bool {
    forall|i: int| 0 <= i < s.len() ==> is_hex_byte(#[trigger] s[i])
}

pub fn bytes_all_hex(s: &[u8]) -> (r: bool)
    ensures
        r == all_hex(s@),
{
    let mut i: usize = 0;
    while i < s.len()
        invariant
            i <= s@.len(),
            forall|j: int| 0 <= j < i ==> is_hex_byte(#[trigger] s@[j]),
        decreases s@.len() - i,
    {
        if hex_byte_value(s[i]).is_none() {
            return false;
        }
        i += 1;
    }
    true
}

} // verus!
