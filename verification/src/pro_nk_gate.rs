//! Negative knowledge: what has been proven not to work. The vault is filled
//! from the authority's binary export, whose integrity is sealed with a
//! magic word, the body length and an FNV-1a checksum (`NKL1`), accepted in
//! the older checksum-only form (`NKB1`) and, declared as degraded, raw.

use vstd::prelude::*;
use crate::codec::{fnv64, fnv_extend, FNV_OFFSET, fnv_fold, push_le, push_bytes, le64, le_bytes};
use crate::text::{owned, push_decimal, decimal};
use crate::runtime_pulse::{RuntimePulse, Stage, stage_index};

verus! {

/// `String::from_utf8_lossy(bytes)`: the text of `bytes`, with every invalid
/// UTF-8 sequence replaced by U+FFFD.
pub uninterp spec fn utf8_lossy(bytes: Seq<u8>) -> Seq<char>;

/// Calls `String::from_utf8_lossy`. Trusted: the text depends on the bytes
/// alone, and valid UTF-8 decodes to exactly its characters; how invalid
/// sequences are replaced is left unstated.
#[verifier::external_body]
fn lossy_text(bytes: &[u8]) -> (r: String)
    ensures
        r@ == utf8_lossy(bytes@),
        vstd::utf8::valid_utf8(bytes@) ==> r@ == vstd::utf8::decode_utf8(bytes@),
{
    String::from_utf8_lossy(bytes).into_owned()
}

/// A failure proven by the authority: its identifier and the text it is recognised by.
#[derive(Debug, Clone)]
pub struct NegativeEntry {
    pub id: String,
    pub text: String,
    pub access_count: u64,
}

impl NegativeEntry {
    pub fn from_text(id: &str, text: &str) -> (r: Self)
        ensures
            r.id@ == id@,
            r.text@ == text@,
            r.access_count == 0,
    {
        NegativeEntry { id: owned(id), text: owned(text), access_count: 0 }
    }
}

/// The view of an entry: `(id, text, access_count)`.
pub open spec fn entry_view(e: NegativeEntry) -> (Seq<char>, Seq<char>, u64) {
    (e.id@, e.text@, e.access_count)
}

/// Little-endian `u32` at position `at`.
pub open spec fn u32_at(b: Seq<u8>, at: int) -> u32 {
    (b[at] as u32) | ((b[at + 1] as u32) << 8u32) | ((b[at + 2] as u32) << 16u32) | ((b[at + 3] as u32) << 24u32)
}

/// Little-endian `u64` at position `at`.
pub open spec fn u64_at(b: Seq<u8>, at: int) -> u64 {
    (b[at] as u64) | ((b[at + 1] as u64) << 8u64) | ((b[at + 2] as u64) << 16u64) | ((b[at + 3] as u64)
        << 24u64) | ((b[at + 4] as u64) << 32u64) | ((b[at + 5] as u64) << 40u64) | ((b[at + 6] as u64)
        << 48u64) | ((b[at + 7] as u64) << 56u64)
}

fn read_u32(b: &[u8], at: usize) -> (r: u32)
    requires
        at + 4 <= b@.len(),
    ensures
        r == u32_at(b@, at as int),
{
    (b[at] as u32) | ((b[at + 1] as u32) << 8u32) | ((b[at + 2] as u32) << 16u32) | ((b[at + 3] as u32) << 24u32)
}

fn read_u64(b: &[u8], at: usize) -> (r: u64)
    requires
        at + 8 <= b@.len(),
    ensures
        r == u64_at(b@, at as int),
{
    (b[at] as u64) | ((b[at + 1] as u64) << 8u64) | ((b[at + 2] as u64) << 16u64) | ((b[at + 3] as u64)
        << 24u64) | ((b[at + 4] as u64) << 32u64) | ((b[at + 5] as u64) << 40u64) | ((b[at + 6] as u64)
        << 48u64) | ((b[at + 7] as u64) << 56u64)
}

/// The magic word of an export: its structure is its version.
#[derive(Debug, Clone, Copy, PartialEq, Eq, Structural)]
pub enum NkMagic {
    Nkl1,
    Nkb1,
    Asnje,
}

/// `NKL1` needs room for magic, length and checksum; `NKB1` for magic and checksum.
pub open spec fn magic_of(b: Seq<u8>) -> NkMagic {
    if b.len() >= 20 && b[0] == 0x4E && b[1] == 0x4B && b[2] == 0x4C && b[3] == 0x31 {
        NkMagic::Nkl1
    } else if b.len() >= 12 && b[0] == 0x4E && b[1] == 0x4B && b[2] == 0x42 && b[3] == 0x31 {
        NkMagic::Nkb1
    } else {
        NkMagic::Asnje
    }
}

pub fn nk_blob_magic(bytes: &[u8]) -> (r: NkMagic)
    ensures
        r == magic_of(bytes@),
{
    let l1 = bytes.len() >= 20 && bytes[0] == 0x4E && bytes[1] == 0x4B && bytes[2] == 0x4C && bytes[3] == 0x31;
    let b1 = bytes.len() >= 12 && bytes[0] == 0x4E && bytes[1] == 0x4B && bytes[2] == 0x42 && bytes[3] == 0x31;
    match (l1, b1) {
        (true, _) => NkMagic::Nkl1,
        (false, true) => NkMagic::Nkb1,
        (false, false) => NkMagic::Asnje,
    }
}

pub fn is_sealed_nk_blob(bytes: &[u8]) -> (r: bool)
    ensures
        r == (magic_of(bytes@) != NkMagic::Asnje),
{
    match nk_blob_magic(bytes) {
        NkMagic::Asnje => false,
        _ => true,
    }
}

/// The one-way key: once a sealed export was seen, a raw one is a downgrade.
pub fn nk_downgrade(sealed_seen: bool, blob_sealed_now: bool) -> (r: bool)
    ensures
        r == (sealed_seen && !blob_sealed_now),
{
    match (sealed_seen, blob_sealed_now) {
        (true, false) => true,
        _ => false,
    }
}

/// The body an export carries, or `None` when its seal does not hold.
pub open spec fn nk_body(b: Seq<u8>) -> Option<Seq<u8>> {
    match magic_of(b) {
        NkMagic::Nkl1 => {
            let payload = b.subrange(20, b.len() as int);
            if payload.len() == (u64_at(b, 4) as usize) && fnv64(payload) == u64_at(b, 12) {
                Some(payload)
            } else {
                None
            }
        },
        NkMagic::Nkb1 => {
            let payload = b.subrange(12, b.len() as int);
            if fnv64(payload) == u64_at(b, 4) {
                Some(payload)
            } else {
                None
            }
        },
        NkMagic::Asnje => Some(b),
    }
}

/// The pulse an import leaves: ready for a holding seal, not ready for a
/// broken one, degraded for a raw export.
pub open spec fn nk_pulse_code(b: Seq<u8>) -> u8 {
    if magic_of(b) == NkMagic::Asnje {
        3
    } else if nk_body(b) is Some {
        1
    } else {
        2
    }
}

/// The number of entries a body announces.
pub open spec fn entry_count(body: Seq<u8>) -> nat {
    if body.len() >= 4 {
        u32_at(body, 0) as nat
    } else {
        0
    }
}

/// One read at `cursor`: the next cursor and the entry slice found, if any.
pub open spec fn scan_step(body: Seq<u8>, cursor: int) -> (int, Option<Seq<u8>>) {
    let has_len = cursor + 4 <= body.len();
    let entry_len: int = if has_len { u32_at(body, cursor) as int } else { 0 };
    let c1 = if has_len { cursor + 4 } else { cursor };
    if entry_len > 0 && c1 + entry_len <= body.len() {
        (c1 + entry_len, Some(body.subrange(c1, c1 + entry_len)))
    } else {
        (c1, None)
    }
}

/// The cursor and the entry slices after `k` reads.
pub open spec fn scan(body: Seq<u8>, k: nat) -> (int, Seq<Seq<u8>>)
    decreases k,
{
    if k == 0 {
        (4, Seq::empty())
    } else {
        let (c, s) = scan(body, (k - 1) as nat);
        let (c2, e) = scan_step(body, c);
        (c2, if e is Some { s.push(e.unwrap()) } else { s })
    }
}

/// The entry an authority record yields: the identifier from its input id,
/// the text from its process bytes (empty when they are cut short).
pub open spec fn absorb_spec(slice: Seq<u8>) -> Option<(Seq<char>, Seq<char>, u64)> {
    if slice.len() >= 36 {
        let proc_end = 36 + u32_at(slice, 32) as int;
        let text = if slice.len() >= proc_end {
            utf8_lossy(slice.subrange(36, proc_end))
        } else {
            Seq::empty()
        };
        Some(("shadow_nk_"@ + decimal(u64_at(slice, 0) as nat), text, 0u64))
    } else {
        None
    }
}

/// The entries absorbed from a sequence of records, in order.
pub open spec fn absorb_all(slices: Seq<Seq<u8>>) -> Seq<(Seq<char>, Seq<char>, u64)>
    decreases slices.len(),
{
    if slices.len() == 0 {
        Seq::empty()
    } else {
        let prev = absorb_all(slices.drop_last());
        match absorb_spec(slices.last()) {
            Some(e) => prev.push(e),
            None => prev,
        }
    }
}

/// The entries of a body.
pub open spec fn body_entries(body: Seq<u8>) -> Seq<(Seq<char>, Seq<char>, u64)> {
    absorb_all(scan(body, entry_count(body)).1)
}

/// The entries an export yields: those of its body, or none when its seal is broken.
pub open spec fn export_entries(b: Seq<u8>) -> Seq<(Seq<char>, Seq<char>, u64)> {
    match nk_body(b) {
        Some(body) => body_entries(body),
        None => Seq::empty(),
    }
}

/// A sealed export: `NKL1`, the body length, the body checksum, the body.
pub open spec fn sealed_export(body: Seq<u8>) -> Seq<u8> {
    seq![0x4Eu8, 0x4Bu8, 0x4Cu8, 0x31u8] + le64(body.len() as u64) + le64(fnv64(body)) + body
}

/// The vault of negative knowledge.
#[derive(Debug, Clone)]
pub struct KnowledgeVault {
    negative: Vec<NegativeEntry>,
}

impl KnowledgeVault {
    /// The entries, in insertion order.
    pub closed spec fn entries(&self) -> Seq<(Seq<char>, Seq<char>, u64)> {
        self.negative@.map_values(|e: NegativeEntry| entry_view(e))
    }

    pub fn new() -> (r: Self)
        ensures
            r.entries().len() == 0,
    {
        let r = KnowledgeVault { negative: Vec::new() };
        assert(r.entries() =~= Seq::<(Seq<char>, Seq<char>, u64)>::empty());
        r
    }

    pub fn len(&self) -> (r: usize)
        ensures
            r == self.entries().len(),
    {
        self.negative.len()
    }

    pub fn is_empty(&self) -> (r: bool)
        ensures
            r == (self.entries().len() == 0),
    {
        self.negative.len() == 0
    }

    pub fn negative_count(&self) -> (r: usize)
        ensures
            r == self.entries().len(),
    {
        self.negative.len()
    }

    /// Records a failure verified negative by the authority.
    pub fn add_negative(&mut self, entry: NegativeEntry)
        ensures
            final(self).entries() == old(self).entries().push(entry_view(entry)),
    {
        self.negative.push(entry);
        assert(self.entries() =~= old(self).entries().push(entry_view(entry)));
    }

    /// Same as `add_negative`, for entries imported from the authority's export.
    pub fn insert_negative(&mut self, entry: NegativeEntry)
        ensures
            final(self).entries() == old(self).entries().push(entry_view(entry)),
    {
        self.add_negative(entry);
    }

    /// Absorbs one authority record: `input_id(8) | ... | proc_len(4) at 32 | process`.
    fn absorb_shadow_entry(&mut self, slice: &[u8])
        ensures
            final(self).entries() == match absorb_spec(slice@) {
                Some(e) => old(self).entries().push(e),
                None => old(self).entries(),
            },
    {
        if slice.len() >= 36 {
            let input_id = read_u64(slice, 0);
            let proc_len = read_u32(slice, 32);
            let text = if slice.len() - 36 >= proc_len as usize {
                let rest = slice.split_at(36).1;
                let process = rest.split_at(proc_len as usize).0;
                assert(process@ =~= slice@.subrange(36, 36 + proc_len as int));
                lossy_text(process)
            } else {
                String::new()
            };
            let mut id = owned("shadow_nk_");
            push_decimal(&mut id, input_id);
            self.add_negative(NegativeEntry { id, text, access_count: 0 });
        }
    }

    /// Parses a body: a `u32` count, then that many `len(4) | record` entries.
    fn absorb_body(&mut self, body: &[u8])
        ensures
            final(self).entries() == old(self).entries() + body_entries(body@),
    {
        let count: u32 = if body.len() >= 4 { read_u32(body, 0) } else { 0 };
        assert(count as nat == entry_count(body@));
        let ghost start = self.entries();
        let mut cursor: usize = 4;
        let mut k: u32 = 0;
        while k < count
            invariant
                k <= count,
                count as nat == entry_count(body@),
                cursor as int == scan(body@, k as nat).0,
                self.entries() == start + absorb_all(scan(body@, k as nat).1),
                4 <= cursor,
                cursor <= body@.len() || cursor == 4,
            decreases count - k,
        {
            let ghost prev = scan(body@, k as nat);
            let has_len = cursor <= body.len() && body.len() - cursor >= 4;
            let entry_len: usize = if has_len {
                let l = read_u32(body, cursor) as usize;
                cursor += 4;
                l
            } else {
                0
            };
            if entry_len > 0 && cursor <= body.len() && body.len() - cursor >= entry_len {
                let rest = body.split_at(cursor).1;
                let slice = rest.split_at(entry_len).0;
                assert(slice@ =~= body@.subrange(cursor as int, cursor + entry_len));
                let ghost before = self.entries();
                self.absorb_shadow_entry(slice);
                cursor += entry_len;
                proof {
                    let s1 = scan(body@, (k + 1) as nat).1;
                    assert(s1 == prev.1.push(slice@));
                    assert(s1.drop_last() =~= prev.1);
                }
            } else {
                proof {
                    assert(scan(body@, (k + 1) as nat).1 == prev.1);
                }
            }
            k += 1;
        }
    }

    /// Builds a vault from the authority's export, checking its seal and
    /// leaving the import's pulse: ready, not ready (broken seal, empty vault)
    /// or degraded (raw export).
    pub fn from_negative_export(bytes: &[u8], pulse: &mut RuntimePulse) -> (r: Self)
        requires
            old(pulse).wf(),
        ensures
            final(pulse).wf(),
            final(pulse).codes().len() == 14,
            final(pulse).codes() == old(pulse).codes().update(
                stage_index(Stage::NkImport) as int,
                nk_pulse_code(bytes@),
            ),
            final(pulse).codes()[12] == nk_pulse_code(bytes@),
            final(pulse).state() == old(pulse).state(),
            final(pulse).mask() == old(pulse).mask(),
            final(pulse).entries() == old(pulse).entries(),
            r.entries() == export_entries(bytes@),
    {
        let mut vault = Self::new();
        match nk_blob_magic(bytes) {
            NkMagic::Nkl1 => {
                let len_want = read_u64(bytes, 4);
                let crc_want = read_u64(bytes, 12);
                let payload = bytes.split_at(20).1;
                assert(payload@ =~= bytes@.subrange(20, bytes@.len() as int));
                let len_ok = payload.len() == #[verifier::truncate] (len_want as usize);
                let crc_ok = fnv_extend(FNV_OFFSET, payload) == crc_want;
                if len_ok && crc_ok {
                    pulse.mark_ready(Stage::NkImport);
                    vault.absorb_body(payload);
                } else {
                    pulse.mark_notready(Stage::NkImport);
                }
            },
            NkMagic::Nkb1 => {
                let want = read_u64(bytes, 4);
                let payload = bytes.split_at(12).1;
                assert(payload@ =~= bytes@.subrange(12, bytes@.len() as int));
                if fnv_extend(FNV_OFFSET, payload) == want {
                    pulse.mark_ready(Stage::NkImport);
                    vault.absorb_body(payload);
                } else {
                    pulse.mark_notready(Stage::NkImport);
                }
            },
            NkMagic::Asnje => {
                pulse.mark_degraded(Stage::NkImport);
                vault.absorb_body(bytes);
            },
        }
        assert(vault.entries() =~= export_entries(bytes@));
        vault
    }

    /// Wraps a body in the `NKL1` seal: magic, length, checksum, body.
    pub fn seal_negative_export(body: &[u8]) -> (r: Vec<u8>)
        ensures
            r@ == sealed_export(body@),
    {
        let crc = fnv_extend(FNV_OFFSET, body);
        let len = body.len() as u64;
        let mut out: Vec<u8> = Vec::new();
        out.push(0x4E);
        out.push(0x4B);
        out.push(0x4C);
        out.push(0x31);
        push_le(&mut out, len, 8);
        push_le(&mut out, crc, 8);
        push_bytes(&mut out, body);
        assert(out@ =~= sealed_export(body@));
        out
    }
}

/// Reading back the little-endian encoding of a `u64` gives the `u64`.
pub proof fn lemma_u64_roundtrip(b: Seq<u8>, at: int, x: u64)
    requires
        0 <= at,
        at + 8 <= b.len(),
        b.subrange(at, at + 8) == le64(x),
    ensures
        u64_at(b, at) == x,
{
    let s = b.subrange(at, at + 8);
    assert(b[at] == s[0] && b[at + 1] == s[1] && b[at + 2] == s[2] && b[at + 3] == s[3]);
    assert(b[at + 4] == s[4] && b[at + 5] == s[5] && b[at + 6] == s[6] && b[at + 7] == s[7]);
    let b0 = ((x >> 0u64) & 0xff) as u8;
    let b1 = ((x >> 8u64) & 0xff) as u8;
    let b2 = ((x >> 16u64) & 0xff) as u8;
    let b3 = ((x >> 24u64) & 0xff) as u8;
    let b4 = ((x >> 32u64) & 0xff) as u8;
    let b5 = ((x >> 40u64) & 0xff) as u8;
    let b6 = ((x >> 48u64) & 0xff) as u8;
    let b7 = ((x >> 56u64) & 0xff) as u8;
    assert(s[0] == b0 && s[1] == b1 && s[2] == b2 && s[3] == b3);
    assert(s[4] == b4 && s[5] == b5 && s[6] == b6 && s[7] == b7);
    assert((b0 as u64) | ((b1 as u64) << 8u64) | ((b2 as u64) << 16u64) | ((b3 as u64) << 24u64) | ((
    b4 as u64) << 32u64) | ((b5 as u64) << 40u64) | ((b6 as u64) << 48u64) | ((b7 as u64) << 56u64) == x)
        by (bit_vector)
        requires
            b0 == ((x >> 0u64) & 0xff) as u8,
            b1 == ((x >> 8u64) & 0xff) as u8,
            b2 == ((x >> 16u64) & 0xff) as u8,
            b3 == ((x >> 24u64) & 0xff) as u8,
            b4 == ((x >> 32u64) & 0xff) as u8,
            b5 == ((x >> 40u64) & 0xff) as u8,
            b6 == ((x >> 48u64) & 0xff) as u8,
            b7 == ((x >> 56u64) & 0xff) as u8,
    ;
}

/// Sealing a body and importing it gives back exactly the body's entries,
/// and the import is marked ready.
pub proof fn lemma_seal_roundtrip(body: Seq<u8>)
    requires
        body.len() <= usize::MAX,
    ensures
        magic_of(sealed_export(body)) == NkMagic::Nkl1,
        nk_body(sealed_export(body)) == Some(body),
        export_entries(sealed_export(body)) == body_entries(body),
        nk_pulse_code(sealed_export(body)) == 1,
{
    let s = sealed_export(body);
    let magic = seq![0x4Eu8, 0x4Bu8, 0x4Cu8, 0x31u8];
    assert(s.len() == body.len() + 20);
    assert(s[0] == 0x4E && s[1] == 0x4B && s[2] == 0x4C && s[3] == 0x31);
    assert(s.subrange(4, 12) =~= le64(body.len() as u64));
    assert(s.subrange(12, 20) =~= le64(fnv64(body)));
    assert(s.subrange(20, s.len() as int) =~= body);
    lemma_u64_roundtrip(s, 4, body.len() as u64);
    lemma_u64_roundtrip(s, 12, fnv64(body));
    let payload = s.subrange(20, s.len() as int);
    assert(payload == body);
    assert(u64_at(s, 4) == body.len() as u64);
    assert((body.len() as u64) as usize == body.len());
    assert(payload.len() == (u64_at(s, 4) as usize));
    assert(fnv64(payload) == u64_at(s, 12));
}


/// The `NKB1` round trip: an export made of `NKB1`, the little-endian FNV-1a
/// checksum of a body, and that body imports exactly the body's entries and
/// marks the NK import ready.
pub proof fn law_nkb1_roundtrip(body: Seq<u8>)
    ensures
        export_entries(seq![0x4Eu8, 0x4Bu8, 0x42u8, 0x31u8] + le64(fnv64(body)) + body) == body_entries(body),
        nk_pulse_code(seq![0x4Eu8, 0x4Bu8, 0x42u8, 0x31u8] + le64(fnv64(body)) + body) == 1,
{
    let s = seq![0x4Eu8, 0x4Bu8, 0x42u8, 0x31u8] + le64(fnv64(body)) + body;
    assert(s.len() == body.len() + 12);
    assert(s[0] == 0x4E && s[1] == 0x4B && s[2] == 0x42 && s[3] == 0x31);
    assert(s.subrange(4, 12) =~= le64(fnv64(body)));
    assert(s.subrange(12, s.len() as int) =~= body);
    lemma_u64_roundtrip(s, 4, fnv64(body));
    assert(magic_of(s) == NkMagic::Nkb1);
    assert(nk_body(s) == Some(body));
}


/// The `NKL1` round trip, byte by byte: `NKL1`, the body length and the
/// body's FNV-1a checksum, both little-endian, then the body, imports
/// exactly the body's entries and marks the NK import ready.
pub proof fn law_nkl1_roundtrip(body: Seq<u8>)
    requires
        body.len() <= usize::MAX,
    ensures
        export_entries(seq![0x4Eu8, 0x4Bu8, 0x4Cu8, 0x31u8] + le64(body.len() as u64) + le64(fnv64(body)) + body)
            == body_entries(body),
        nk_pulse_code(seq![0x4Eu8, 0x4Bu8, 0x4Cu8, 0x31u8] + le64(body.len() as u64) + le64(fnv64(body)) + body)
            == 1,
{
    lemma_seal_roundtrip(body);
    assert(sealed_export(body) =~= seq![0x4Eu8, 0x4Bu8, 0x4Cu8, 0x31u8] + le64(body.len() as u64) + le64(
        fnv64(body),
    ) + body);
}

/// A tampered `NKB1` export, whose checksum is not the body's, imports
/// nothing and marks the NK import not ready.
pub proof fn law_nkb1_tamper_is_refused(body: Seq<u8>, crc: u64)
    requires
        crc != fnv64(body),
    ensures
        export_entries(seq![0x4Eu8, 0x4Bu8, 0x42u8, 0x31u8] + le64(crc) + body).len() == 0,
        nk_pulse_code(seq![0x4Eu8, 0x4Bu8, 0x42u8, 0x31u8] + le64(crc) + body) == 2,
{
    let s = seq![0x4Eu8, 0x4Bu8, 0x42u8, 0x31u8] + le64(crc) + body;
    assert(s[0] == 0x4E && s[1] == 0x4B && s[2] == 0x42 && s[3] == 0x31);
    assert(s.subrange(4, 12) =~= le64(crc));
    assert(s.subrange(12, s.len() as int) =~= body);
    lemma_u64_roundtrip(s, 4, crc);
    assert(magic_of(s) == NkMagic::Nkb1);
    assert(nk_body(s) is None);
}

} // verus!
