//! The excavation engine: a message becomes a cognitive signal, the signal
//! is folded into the epistemic trace, the detector looks for a genius
//! signal, and the engine decides its response under the pressure budget.

use vstd::prelude::*;
use vstd::string::StrSliceExecFns;
use crate::codec::{le64, push_le, utf8};
use crate::words::{strs, tokens, tokenize, strictly_sorted, insert_sorted};
use crate::text::{str_eq, chars_of};
use crate::memory::raw_cognitive_trace::lemma_filter_take_step;
use super::types::{pd_id, pd_id_spec, views, CognitiveSignal, SignalView, EpistemicTrace, DebateMode,
    PressureBudget, PdResponseType, PdTurn, GeniusSignal, PdCognitivePackage, PdPreClassification,
    PdEngineOutput, PdError, same_turn, max_for_spec, trace_id_spec};
use super::genius_detector::{GeniusDetector, default_detector, genius_of, detects, trend_fits, densities};
use crate::codec::le32;
use crate::text::owned;
use vstd::string::StringExecFns;
use crate::text::{decimal, push_decimal};
use super::genius_detector::{ratio_spec, ratio_mass, contains_str, lemma_insert_distinct, MASS_SCALE,
    mean, mean_spec, most_frequent_concept, most_frequent_spec, best_index, lemma_best_index_is_max};

verus! {

/// The concepts of a list of words: the distinct words of at least four characters.
pub open spec fn concept_set(ws: Seq<Seq<char>>) -> Set<Seq<char>> {
    ws.to_set().filter(|w: Seq<char>| w.len() >= 4)
}

/// The concepts of a concept map, in order.
pub open spec fn keys(m: Seq<(String, u32)>) -> Seq<Seq<char>> {
    m.map_values(|e: (String, u32)| e.0@)
}

/// Whether a concept map has an entry for `k`.
pub fn contains_key(map: &Vec<(String, u32)>, k: &str) -> (r: bool)
    ensures
        r == keys(map@).contains(k@),
{
    let mut i: usize = 0;
    while i < map.len()
        invariant
            i <= map@.len(),
            forall|j: int| 0 <= j < i ==> keys(map@)[j] != k@,
        decreases map@.len() - i,
    {
        if str_eq(map[i].0.as_str(), k) {
            assert(keys(map@)[i as int] == k@);
            return true;
        }
        i += 1;
    }
    false
}

/// Membership in the concepts of a map.
pub open spec fn known_in(prior: Seq<(String, u32)>) -> spec_fn(Seq<char>) -> bool {
    |c: Seq<char>| keys(prior).contains(c)
}

/// The number of `!` and `?` characters.
pub open spec fn emphasis_count(s: Seq<char>) -> nat
    decreases s.len(),
{
    if s.len() == 0 {
        0
    } else {
        emphasis_count(s.drop_last()) + if s.last() == '!' || s.last() == '?' {
            1nat
        } else {
            0nat
        }
    }
}

/// The words that mark a negation.
pub open spec fn is_negation(w: Seq<char>) -> bool {
    ||| w == "not"@
    ||| w == "never"@
    ||| w == "no"@
    ||| w == "nuk"@
    ||| w == "jo"@
    ||| w == "kurre"@
    ||| w == "pa"@
}

pub open spec fn has_negation(ws: Seq<Seq<char>>) -> bool {
    exists|i: int| 0 <= i < ws.len() && is_negation(#[trigger] ws[i])
}

/// The energy of a message: 80% from its length (saturating at 160
/// characters) and 20% from its emphasis (saturating at three marks).
pub open spec fn energy_level_spec(content_length: u32, emphasis: u32) -> u32 {
    let length_mass = ratio_spec(if content_length > 160 { 160 } else { content_length }, 160);
    let emphasis_mass = ratio_spec(if emphasis > 3 { 3 } else { emphasis }, 3);
    let e = (length_mass as int * 8_000 + emphasis_mass as int * 2_000) / MASS_SCALE as int;
    if e > MASS_SCALE as int {
        MASS_SCALE
    } else {
        e as u32
    }
}

/// `s` is the signal read from `content` at `turn_index` and `ts`, against
/// the concept map as it stood before the message.
pub open spec fn extracted(
    content: Seq<char>,
    turn_index: u32,
    ts: u64,
    prior: Seq<(String, u32)>,
    s: SignalView,
) -> bool {
    let ws = tokens(content);
    let len = content.len() as u32;
    let total = if ws.len() > 1 { ws.len() } else { 1 };
    &&& s.signal_id == pd_id_spec(seq![utf8(content), le64(ts)])
    &&& s.turn_index == turn_index
    &&& s.raw_content == content
    &&& s.content_length == len
    &&& s.idea_density == ratio_spec(ws.to_set().len() as u32, total as u32)
    &&& s.energy_level == energy_level_spec(len, emphasis_count(content) as u32)
    &&& strictly_sorted(s.concept_refs)
    &&& s.concept_refs.to_set() == concept_set(ws)
    &&& s.returns_to == s.concept_refs.filter(known_in(prior))
    &&& s.contradicts == (if has_negation(ws) {
        s.concept_refs
    } else {
        Seq::<Seq<char>>::empty()
    })
    &&& s.timestamp == ts
}

proof fn lemma_take_to_set(s: Seq<Seq<char>>, k: int)
    requires
        0 <= k < s.len(),
    ensures
        s.take(k + 1).to_set() == s.take(k).to_set().insert(s[k]),
{
    let a = s.take(k + 1);
    let b = s.take(k);
    assert(a =~= b.push(s[k]));
    assert(a.to_set() =~= b.to_set().insert(s[k])) by {
        assert forall|x: Seq<char>| a.to_set().contains(x) implies b.to_set().insert(s[k]).contains(
            x,
        ) by {
            let j = choose|j: int| 0 <= j < a.len() && a[j] == x;
            if j < k {
                assert(b[j] == x);
            }
        }
        assert forall|x: Seq<char>| b.to_set().insert(s[k]).contains(x) implies a.to_set().contains(
            x,
        ) by {
            if x == s[k] {
                assert(a[k] == x);
            } else {
                let j = choose|j: int| 0 <= j < b.len() && b[j] == x;
                assert(a[j] == x);
            }
        }
    }
}

/// Whether a word marks a negation.
fn negation_word(w: &str) -> (r: bool)
    ensures
        r == is_negation(w@),
{
    str_eq(w, "not") || str_eq(w, "never") || str_eq(w, "no") || str_eq(w, "nuk") || str_eq(
        w,
        "jo",
    ) || str_eq(w, "kurre") || str_eq(w, "pa")
}

/// Reads a message into a cognitive signal: its words, its concepts (sorted
/// and distinct), its idea density and energy, the concepts it returns to
/// and, when it negates, the concepts it contradicts.
pub fn extract_signal(content: &str, turn_index: u32, ts: u64, prior_concepts: &Vec<(String, u32)>) -> (r:
    CognitiveSignal)
    ensures
        extracted(content@, turn_index, ts, prior_concepts@, r@),
{
    let words = tokenize(content);
    let ghost ws = tokens(content@);
    #[verifier::truncate]
    let content_length = content.unicode_len() as u32;
    let mut concept_refs: Vec<String> = Vec::new();
    let mut distinct: Vec<String> = Vec::new();
    let mut negation = false;
    let mut k: usize = 0;
    while k < words.len()
        invariant
            strs(words@) == ws,
            k <= words@.len(),
            strictly_sorted(strs(concept_refs@)),
            strs(concept_refs@).to_set() == concept_set(ws.take(k as int)),
            strs(distinct@).no_duplicates(),
            strs(distinct@).to_set() == ws.take(k as int).to_set(),
            negation == exists|i: int| 0 <= i < k && is_negation(#[trigger] ws[i]),
        decreases words@.len() - k,
    {
        let w = &words[k];
        let ghost wv = ws[k as int];
        assert(w@ == wv);
        proof {
            lemma_take_to_set(ws, k as int);
        }
        if w.as_str().unicode_len() >= 4 {
            let ghost before = strs(concept_refs@).to_set();
            insert_sorted(&mut concept_refs, w.clone());
            assert(concept_set(ws.take(k + 1)) =~= before.insert(wv));
        } else {
            assert(concept_set(ws.take(k + 1)) =~= concept_set(ws.take(k as int)));
        }
        if !contains_str(&distinct, w.as_str()) {
            let ghost d = strs(distinct@);
            distinct.push(w.clone());
            proof {
                lemma_insert_distinct(d, wv);
                assert(strs(distinct@) =~= d.push(wv));
            }
        } else {
            assert(strs(distinct@).to_set().insert(wv) =~= strs(distinct@).to_set());
        }
        if negation_word(w.as_str()) {
            negation = true;
        }
        k += 1;
    }
    assert(ws.take(k as int) =~= ws);
    proof {
        strs(distinct@).unique_seq_to_set();
    }
    let total: usize = if words.len() > 1 { words.len() } else { 1 };
    #[verifier::truncate]
    let unique_count = distinct.len() as u32;
    #[verifier::truncate]
    let total_count = total as u32;
    let idea_density = ratio_mass(unique_count, total_count);
    let cs = chars_of(content);
    let mut emphasis: usize = 0;
    let mut i: usize = 0;
    while i < cs.len()
        invariant
            cs@ == content@,
            i <= cs@.len(),
            emphasis == emphasis_count(content@.take(i as int)),
            emphasis <= i,
        decreases cs@.len() - i,
    {
        assert(content@.take(i + 1).drop_last() =~= content@.take(i as int));
        assert(content@.take(i + 1).last() == cs@[i as int]);
        if cs[i] == '!' || cs[i] == '?' {
            emphasis = emphasis + 1;
        }
        i += 1;
    }
    assert(content@.take(i as int) =~= content@);
    #[verifier::truncate]
    let emphasis32 = emphasis as u32;
    let length_mass = ratio_mass(if content_length > 160 { 160 } else { content_length }, 160);
    let emphasis_mass = ratio_mass(if emphasis32 > 3 { 3 } else { emphasis32 }, 3);
    let e: u64 = ((length_mass as u64) * 8_000 + (emphasis_mass as u64) * 2_000) / (MASS_SCALE as u64);
    let energy_level: u32 = if e > MASS_SCALE as u64 { MASS_SCALE } else { e as u32 };
    let mut returns_to: Vec<String> = Vec::new();
    let mut j: usize = 0;
    while j < concept_refs.len()
        invariant
            j <= concept_refs@.len(),
            strs(returns_to@) == strs(concept_refs@).take(j as int).filter(known_in(prior_concepts@)),
        decreases concept_refs@.len() - j,
    {
        proof {
            lemma_filter_take_step(strs(concept_refs@), j as int, known_in(prior_concepts@));
        }
        let is_key = contains_key(prior_concepts, concept_refs[j].as_str());
        assert(strs(concept_refs@)[j as int] == concept_refs@[j as int]@);
        assert(known_in(prior_concepts@)(strs(concept_refs@)[j as int]) == is_key);
        if is_key {
            let ghost before = strs(returns_to@);
            returns_to.push(concept_refs[j].clone());
            assert(strs(returns_to@) =~= before.push(concept_refs@[j as int]@));
        }
        j += 1;
    }
    assert(strs(concept_refs@).take(j as int) =~= strs(concept_refs@));
    let contradicts: Vec<String> = if negation {
        super::types::copy_strings(&concept_refs)
    } else {
        Vec::new()
    };
    let mut ts_bytes: Vec<u8> = Vec::new();
    push_le(&mut ts_bytes, ts, 8);
    let parts: [&[u8]; 2] = [content.as_bytes(), ts_bytes.as_slice()];
    let signal_id = pd_id(parts.as_slice());
    assert(views(parts@) =~= seq![utf8(content@), le64(ts)]);
    let r = CognitiveSignal {
        signal_id,
        turn_index,
        raw_content: crate::text::owned(content),
        content_length,
        idea_density,
        energy_level,
        concept_refs,
        contradicts,
        returns_to,
        timestamp: ts,
    };
    assert(r@.contradicts =~= (if has_negation(ws) {
        r@.concept_refs
    } else {
        Seq::<Seq<char>>::empty()
    }));
    r
}

/// The views of a list of signals.
pub open spec fn sig_views(s: Seq<CognitiveSignal>) -> Seq<SignalView> {
    s.map_values(|x: CognitiveSignal| x@)
}

/// How often `k` occurs in a list of concepts.
pub open spec fn occ(cs: Seq<Seq<char>>, k: Seq<char>) -> nat
    decreases cs.len(),
{
    if cs.len() == 0 {
        0
    } else {
        occ(cs.drop_last(), k) + if cs.last() == k {
            1nat
        } else {
            0nat
        }
    }
}

/// How often `k` occurs among the concepts of all the signals.
pub open spec fn mentions(sigs: Seq<SignalView>, k: Seq<char>) -> nat
    decreases sigs.len(),
{
    if sigs.len() == 0 {
        0
    } else {
        mentions(sigs.drop_last(), k) + occ(sigs.last().concept_refs, k)
    }
}

pub proof fn lemma_occ_contains(cs: Seq<Seq<char>>, k: Seq<char>)
    ensures
        occ(cs, k) > 0 <==> cs.contains(k),
    decreases cs.len(),
{
    if cs.len() > 0 {
        let p = cs.drop_last();
        lemma_occ_contains(p, k);
        if p.contains(k) {
            let j = choose|j: int| 0 <= j < p.len() && p[j] == k;
            assert(cs[j] == k);
        }
        if cs.contains(k) {
            let j = choose|j: int| 0 <= j < cs.len() && cs[j] == k;
            if j < p.len() {
                assert(p[j] == k);
            }
        }
    }
}

pub proof fn lemma_occ_prefix(cs: Seq<Seq<char>>, i: int, k: Seq<char>)
    requires
        0 <= i <= cs.len(),
    ensures
        occ(cs.take(i), k) <= occ(cs, k),
    decreases cs.len(),
{
    if i < cs.len() {
        assert(cs.drop_last().take(i) =~= cs.take(i));
        lemma_occ_prefix(cs.drop_last(), i, k);
    } else {
        assert(cs.take(i) =~= cs);
    }
}

/// In a strictly sorted list every concept occurs at most once.
pub proof fn lemma_occ_sorted(cs: Seq<Seq<char>>, k: Seq<char>)
    requires
        strictly_sorted(cs),
    ensures
        occ(cs, k) <= 1,
    decreases cs.len(),
{
    if cs.len() > 0 {
        let p = cs.drop_last();
        assert(strictly_sorted(p));
        lemma_occ_sorted(p, k);
        if cs.last() == k {
            crate::words::lemma_strictly_sorted_no_duplicates(cs);
            lemma_occ_contains(p, k);
            if p.contains(k) {
                let j = choose|j: int| 0 <= j < p.len() && p[j] == k;
                assert(cs[j] == cs[cs.len() - 1]);
            }
        }
    }
}

/// With at most one occurrence per signal, a concept is mentioned at most
/// once per signal.
pub proof fn lemma_mentions_bound(sigs: Seq<SignalView>, k: Seq<char>)
    requires
        forall|i: int| 0 <= i < sigs.len() ==> strictly_sorted((#[trigger] sigs[i]).concept_refs),
    ensures
        mentions(sigs, k) <= sigs.len(),
    decreases sigs.len(),
{
    if sigs.len() > 0 {
        let p = sigs.drop_last();
        assert forall|i: int| 0 <= i < p.len() implies strictly_sorted((#[trigger] p[i]).concept_refs) by {
            assert(p[i] == sigs[i]);
        }
        lemma_mentions_bound(p, k);
        lemma_occ_sorted(sigs.last().concept_refs, k);
    }
}

/// A concept map as pairs of concept and count.
pub open spec fn cmap(m: Seq<(String, u32)>) -> Seq<(Seq<char>, u32)> {
    m.map_values(|e: (String, u32)| (e.0@, e.1))
}

/// The well-formed trace: one signal per turn, trajectories that follow the
/// signals, and a concept map that holds each concept once with the number
/// of times the signals named it.
pub open spec fn trace_wf(t: EpistemicTrace) -> bool {
    let sigs = sig_views(t.signals@);
    &&& t.signals@.len() == t.total_turns
    &&& t.energy_trajectory@.len() == sigs.len()
    &&& t.idea_evolution@.len() == sigs.len()
    &&& forall|i: int| 0 <= i < sigs.len() ==> t.energy_trajectory@[i] == (#[trigger] sigs[i]).energy_level
    &&& forall|i: int| 0 <= i < sigs.len() ==> t.idea_evolution@[i] == (#[trigger] sigs[i]).idea_density
    &&& keys(t.concept_map@).no_duplicates()
    &&& forall|i: int|
        0 <= i < t.concept_map@.len() ==> (#[trigger] t.concept_map@[i]).1 == mentions(
            sigs,
            t.concept_map@[i].0@,
        )
    &&& forall|k: Seq<char>| #[trigger] keys(t.concept_map@).contains(k) <==> mentions(sigs, k) > 0
}

/// Counting one more mention of `c`: its entry goes up by one, or a new
/// entry with count one is appended.
pub open spec fn bump(m: Seq<(Seq<char>, u32)>, c: Seq<char>) -> Seq<(Seq<char>, u32)> {
    if exists|i: int| 0 <= i < m.len() && (#[trigger] m[i]).0 == c {
        let i = choose|i: int| 0 <= i < m.len() && (#[trigger] m[i]).0 == c;
        m.update(i, (c, (m[i].1 + 1) as u32))
    } else {
        m.push((c, 1u32))
    }
}

pub open spec fn bump_all(m: Seq<(Seq<char>, u32)>, cs: Seq<Seq<char>>) -> Seq<(Seq<char>, u32)>
    decreases cs.len(),
{
    if cs.len() == 0 {
        m
    } else {
        bump(bump_all(m, cs.drop_last()), cs.last())
    }
}

/// Adds the pair `(c, dom)` for each contradicted concept `c`, unless the
/// pair is already there or `c` is the dominant concept itself.
pub open spec fn add_pairs(
    ps: Seq<(Seq<char>, Seq<char>)>,
    cs: Seq<Seq<char>>,
    dom: Seq<char>,
) -> Seq<(Seq<char>, Seq<char>)>
    decreases cs.len(),
{
    if cs.len() == 0 {
        ps
    } else {
        let q = add_pairs(ps, cs.drop_last(), dom);
        let c = cs.last();
        if !q.contains((c, dom)) && c != dom {
            q.push((c, dom))
        } else {
            q
        }
    }
}

pub open spec fn pair_views(p: Seq<(String, String)>) -> Seq<(Seq<char>, Seq<char>)> {
    p.map_values(|e: (String, String)| (e.0@, e.1@))
}

pub open spec fn opt_view(o: Option<String>) -> Option<Seq<char>> {
    match o {
        Some(s) => Some(s@),
        None => None,
    }
}

/// The concepts of a map that recur: counted at least twice.
pub open spec fn primitive_set(m: Seq<(String, u32)>) -> Set<Seq<char>> {
    Set::new(|k: Seq<char>| exists|i: int| 0 <= i < m.len() && (#[trigger] m[i]).0@ == k && m[i].1 >= 2)
}

/// The count of the most frequent concept, zero for an empty map.
pub open spec fn dominant_count(m: Seq<(String, u32)>) -> u32 {
    if m.len() == 0 {
        0
    } else {
        m[best_index(m)].1
    }
}

/// `new` is `old` after folding in the signal `s`.
pub open spec fn trace_step(old: EpistemicTrace, s: SignalView, new: EpistemicTrace) -> bool {
    let m = new.concept_map@;
    let dom = most_frequent_spec(m);
    &&& sig_views(new.signals@) == sig_views(old.signals@).push(s)
    &&& new.total_turns == old.total_turns + 1
    &&& cmap(m) == bump_all(cmap(old.concept_map@), s.concept_refs)
    &&& new.energy_trajectory@ == old.energy_trajectory@.push(s.energy_level)
    &&& new.idea_evolution@ == old.idea_evolution@.push(s.idea_density)
    &&& opt_view(new.dominant_concept) == dom
    &&& new.accumulated_mass == (if mean_spec(new.idea_evolution@) > MASS_SCALE {
        MASS_SCALE
    } else {
        mean_spec(new.idea_evolution@)
    })
    &&& new.structural_coherence == ratio_spec(
        dominant_count(m),
        if new.total_turns > 1 { new.total_turns } else { 1 },
    )
    &&& strictly_sorted(strs(new.implicit_primitives@))
    &&& strs(new.implicit_primitives@).to_set() == primitive_set(m)
    &&& pair_views(new.contradiction_pairs@) == add_pairs(
        pair_views(old.contradiction_pairs@),
        s.contradicts,
        match dom {
            Some(d) => d,
            None => Seq::empty(),
        },
    )
    &&& new.last_updated_at == s.timestamp
    &&& new.trace_id == old.trace_id
    &&& new.session_id == old.session_id
    &&& new.territory == old.territory
    &&& new.started_at == old.started_at
}

/// The count of `k` in a map with distinct keys, zero when absent.
pub open spec fn count_in(m: Seq<(Seq<char>, u32)>, k: Seq<char>) -> int {
    if exists|i: int| 0 <= i < m.len() && (#[trigger] m[i]).0 == k {
        m[choose|i: int| 0 <= i < m.len() && (#[trigger] m[i]).0 == k].1 as int
    } else {
        0
    }
}

pub open spec fn ckeys(m: Seq<(Seq<char>, u32)>) -> Seq<Seq<char>> {
    m.map_values(|e: (Seq<char>, u32)| e.0)
}

proof fn lemma_count_at(m: Seq<(Seq<char>, u32)>, i: int)
    requires
        ckeys(m).no_duplicates(),
        0 <= i < m.len(),
    ensures
        count_in(m, m[i].0) == m[i].1,
{
    let j = choose|j: int| 0 <= j < m.len() && (#[trigger] m[j]).0 == m[i].0;
    assert(ckeys(m)[j] == ckeys(m)[i]);
}

proof fn lemma_bump(m: Seq<(Seq<char>, u32)>, c: Seq<char>)
    requires
        ckeys(m).no_duplicates(),
        count_in(m, c) < u32::MAX,
    ensures
        ckeys(bump(m, c)).no_duplicates(),
        ckeys(bump(m, c)).to_set() == ckeys(m).to_set().insert(c),
        forall|k: Seq<char>| #[trigger] count_in(bump(m, c), k) == count_in(m, k) + if k == c {
            1int
        } else {
            0int
        },
{
    let b = bump(m, c);
    if exists|i: int| 0 <= i < m.len() && (#[trigger] m[i]).0 == c {
        let i = choose|i: int| 0 <= i < m.len() && (#[trigger] m[i]).0 == c;
        lemma_count_at(m, i);
        assert(ckeys(b) =~= ckeys(m));
        assert(ckeys(m).contains(c)) by {
            assert(ckeys(m)[i] == c);
        }
        assert(ckeys(m).to_set().insert(c) =~= ckeys(m).to_set());
        assert forall|k: Seq<char>| #[trigger] count_in(b, k) == count_in(m, k) + if k == c {
            1int
        } else {
            0int
        } by {
            if exists|j: int| 0 <= j < m.len() && (#[trigger] m[j]).0 == k {
                let j = choose|j: int| 0 <= j < m.len() && (#[trigger] m[j]).0 == k;
                lemma_count_at(m, j);
                assert(b[j].0 == k);
                lemma_count_at(b, j);
            } else {
                assert(!exists|j: int| 0 <= j < b.len() && (#[trigger] b[j]).0 == k);
            }
        }
    } else {
        assert(ckeys(b) =~= ckeys(m).push(c));
        assert(!ckeys(m).contains(c));
        assert(ckeys(b).to_set() =~= ckeys(m).to_set().insert(c)) by {
            assert forall|x: Seq<char>| ckeys(b).to_set().contains(x) implies ckeys(
                m,
            ).to_set().insert(c).contains(x) by {
                let j = choose|j: int| 0 <= j < ckeys(b).len() && ckeys(b)[j] == x;
                if j < m.len() {
                    assert(ckeys(m)[j] == x);
                }
            }
            assert forall|x: Seq<char>| ckeys(m).to_set().insert(c).contains(x) implies ckeys(
                b,
            ).to_set().contains(x) by {
                if x == c {
                    assert(ckeys(b)[m.len() as int] == x);
                } else {
                    let j = choose|j: int| 0 <= j < ckeys(m).len() && ckeys(m)[j] == x;
                    assert(ckeys(b)[j] == x);
                }
            }
        }
        assert forall|k: Seq<char>| #[trigger] count_in(b, k) == count_in(m, k) + if k == c {
            1int
        } else {
            0int
        } by {
            if k == c {
                lemma_count_at(b, m.len() as int);
            } else if exists|j: int| 0 <= j < m.len() && (#[trigger] m[j]).0 == k {
                let j = choose|j: int| 0 <= j < m.len() && (#[trigger] m[j]).0 == k;
                lemma_count_at(m, j);
                assert(b[j].0 == k);
                lemma_count_at(b, j);
            } else {
                assert(!exists|j: int| 0 <= j < b.len() && (#[trigger] b[j]).0 == k);
            }
        }
    }
}

/// Bumping a list of concepts adds to each count its number of occurrences.
pub proof fn lemma_bump_all(m: Seq<(Seq<char>, u32)>, cs: Seq<Seq<char>>)
    requires
        ckeys(m).no_duplicates(),
        forall|k: Seq<char>| #[trigger] count_in(m, k) + occ(cs, k) <= u32::MAX,
    ensures
        ckeys(bump_all(m, cs)).no_duplicates(),
        ckeys(bump_all(m, cs)).to_set() == ckeys(m).to_set() + cs.to_set(),
        forall|k: Seq<char>| #[trigger] count_in(bump_all(m, cs), k) == count_in(m, k) + occ(cs, k),
    decreases cs.len(),
{
    if cs.len() == 0 {
        assert(ckeys(m).to_set() + cs.to_set() =~= ckeys(m).to_set());
    } else {
        let p = cs.drop_last();
        let c = cs.last();
        assert forall|k: Seq<char>| #[trigger] count_in(m, k) + occ(p, k) <= u32::MAX by {
            assert(count_in(m, k) + occ(cs, k) <= u32::MAX);
        }
        lemma_bump_all(m, p);
        let q = bump_all(m, p);
        assert(count_in(m, c) + occ(cs, c) <= u32::MAX);
        assert(count_in(q, c) < u32::MAX);
        lemma_bump(q, c);
        assert(cs =~= p.push(c));
        assert forall|k: Seq<char>| #[trigger] cs.contains(k) == (p.contains(k) || k == c) by {
            if cs.contains(k) {
                let j = choose|j: int| 0 <= j < cs.len() && cs[j] == k;
                if j < p.len() {
                    assert(p[j] == k);
                }
            }
            if p.contains(k) {
                let j = choose|j: int| 0 <= j < p.len() && p[j] == k;
                assert(cs[j] == k);
            }
            if k == c {
                assert(cs[cs.len() - 1] == k);
            }
        }
        assert(ckeys(bump(q, c)).to_set() =~= ckeys(m).to_set() + cs.to_set());
        assert forall|k: Seq<char>| #[trigger] count_in(bump_all(m, cs), k) == count_in(m, k) + occ(
            cs,
            k,
        ) by {
            assert(count_in(q, k) == count_in(m, k) + occ(p, k));
        }
    }
}

/// Adds one mention for each concept of a signal to a concept map.
fn count_concepts(map: &mut Vec<(String, u32)>, refs: &Vec<String>)
    requires
        ckeys(cmap(old(map)@)).no_duplicates(),
        forall|k: Seq<char>| #[trigger] count_in(cmap(old(map)@), k) + occ(strs(refs@), k) <= u32::MAX,
    ensures
        cmap(final(map)@) == bump_all(cmap(old(map)@), strs(refs@)),
{
    let ghost m0 = cmap(map@);
    let ghost cs = strs(refs@);
    let mut j: usize = 0;
    while j < refs.len()
        invariant
            m0 == cmap(old(map)@),
            cs == strs(refs@),
            ckeys(m0).no_duplicates(),
            forall|k: Seq<char>| #[trigger] count_in(m0, k) + occ(cs, k) <= u32::MAX,
            j <= refs@.len(),
            cmap(map@) == bump_all(m0, cs.take(j as int)),
        decreases refs@.len() - j,
    {
        let ghost pre = cs.take(j as int);
        assert(cs.take(j + 1).drop_last() =~= pre);
        assert(cs.take(j + 1).last() == cs[j as int]);
        proof {
            assert forall|k: Seq<char>| #[trigger] count_in(m0, k) + occ(pre, k) <= u32::MAX by {
                lemma_occ_prefix(cs, j as int, k);
            }
            lemma_bump_all(m0, pre);
            lemma_occ_prefix(cs, j + 1, cs[j as int]);
            assert(count_in(m0, cs[j as int]) + occ(cs, cs[j as int]) <= u32::MAX);
        }
        let c = refs[j].as_str();
        let mut idx: usize = 0;
        let mut found = false;
        while idx < map.len() && !found
            invariant
                idx <= map@.len(),
                found ==> idx < map@.len() && cmap(map@)[idx as int].0 == c@,
                forall|t: int| 0 <= t < idx ==> (#[trigger] cmap(map@)[t]).0 != c@,
            decreases map@.len() - idx + if found { 0int } else { 1int },
        {
            if str_eq(map[idx].0.as_str(), c) {
                found = true;
            } else {
                idx += 1;
            }
        }
        let ghost m = cmap(map@);
        if found {
            assert(m[idx as int].0 == c@);
            let n = map[idx].1;
            proof {
                lemma_count_at(m, idx as int);
            }
            let k = map[idx].0.clone();
            map[idx] = (k, n + 1);
            proof {
                let i = choose|i: int| 0 <= i < m.len() && (#[trigger] m[i]).0 == c@;
                assert(ckeys(m)[i] == ckeys(m)[idx as int]);
                assert(cmap(map@) =~= m.update(idx as int, (c@, (m[idx as int].1 + 1) as u32)));
            }
        } else {
            assert(!exists|i: int| 0 <= i < m.len() && (#[trigger] m[i]).0 == c@);
            let k = refs[j].clone();
            map.push((k, 1));
            assert(cmap(map@) =~= m.push((c@, 1u32)));
        }
        j += 1;
    }
    assert(cs.take(j as int) =~= cs);
}

/// The count of a concept in a map with distinct keys.
fn count_of(map: &Vec<(String, u32)>, k: &str) -> (r: u32)
    requires
        ckeys(cmap(map@)).no_duplicates(),
    ensures
        r == count_in(cmap(map@), k@),
{
    let ghost m = cmap(map@);
    let mut i: usize = 0;
    while i < map.len()
        invariant
            m == cmap(map@),
            ckeys(m).no_duplicates(),
            i <= map@.len(),
            forall|t: int| 0 <= t < i ==> (#[trigger] m[t]).0 != k@,
        decreases map@.len() - i,
    {
        if str_eq(map[i].0.as_str(), k) {
            proof {
                lemma_count_at(m, i as int);
            }
            return map[i].1;
        }
        i += 1;
    }
    assert(!exists|t: int| 0 <= t < m.len() && (#[trigger] m[t]).0 == k@);
    0
}

/// Whether the pair `(a, b)` is already recorded.
fn contains_pair(pairs: &Vec<(String, String)>, a: &str, b: &str) -> (r: bool)
    ensures
        r == pair_views(pairs@).contains((a@, b@)),
{
    let mut i: usize = 0;
    while i < pairs.len()
        invariant
            i <= pairs@.len(),
            forall|t: int| 0 <= t < i ==> pair_views(pairs@)[t] != (a@, b@),
        decreases pairs@.len() - i,
    {
        if str_eq(pairs[i].0.as_str(), a) && str_eq(pairs[i].1.as_str(), b) {
            assert(pair_views(pairs@)[i as int] == (a@, b@));
            return true;
        }
        i += 1;
    }
    false
}

/// In a well-formed trace the map's counts are the mention counts.
proof fn lemma_counts_are_mentions(t: EpistemicTrace)
    requires
        trace_wf(t),
    ensures
        ckeys(cmap(t.concept_map@)).no_duplicates(),
        forall|k: Seq<char>| #[trigger] count_in(cmap(t.concept_map@), k) == mentions(
            sig_views(t.signals@),
            k,
        ),
{
    let m = cmap(t.concept_map@);
    assert(ckeys(m) =~= keys(t.concept_map@));
    assert forall|k: Seq<char>| #[trigger] count_in(m, k) == mentions(sig_views(t.signals@), k) by {
        if exists|i: int| 0 <= i < m.len() && (#[trigger] m[i]).0 == k {
            let i = choose|i: int| 0 <= i < m.len() && (#[trigger] m[i]).0 == k;
            lemma_count_at(m, i);
            assert(t.concept_map@[i].1 == mentions(sig_views(t.signals@), t.concept_map@[i].0@));
        } else {
            if mentions(sig_views(t.signals@), k) > 0 {
                assert(keys(t.concept_map@).contains(k));
                let i = choose|i: int| 0 <= i < keys(t.concept_map@).len() && keys(t.concept_map@)[i] == k;
                assert(m[i].0 == k);
            }
        }
    }
}

/// Folds a signal into the trace: the signal is appended, its concepts are
/// counted, the dominant concept, accumulated mass, coherence, recurring
/// primitives and contradiction pairs are brought up to date.
pub fn update_trace(trace: &mut EpistemicTrace, signal: &CognitiveSignal)
    requires
        trace_wf(*old(trace)),
        old(trace).total_turns < u32::MAX,
        forall|k: Seq<char>|
            #[trigger] mentions(sig_views(old(trace).signals@), k) + occ(signal@.concept_refs, k)
                <= u32::MAX,
    ensures
        trace_wf(*final(trace)),
        trace_step(*old(trace), signal@, *final(trace)),
{
    let ghost old_t = *trace;
    let ghost old_sigs = sig_views(trace.signals@);
    proof {
        lemma_counts_are_mentions(old_t);
        assert forall|k: Seq<char>| #[trigger] count_in(cmap(old_t.concept_map@), k) + occ(
            signal@.concept_refs,
            k,
        ) <= u32::MAX by {
            assert(mentions(old_sigs, k) + occ(signal@.concept_refs, k) <= u32::MAX);
        }
    }
    trace.signals.push(signal.duplicate());
    trace.total_turns = trace.total_turns + 1;
    let ghost sigs = sig_views(trace.signals@);
    assert(sigs =~= old_sigs.push(signal@));
    count_concepts(&mut trace.concept_map, &signal.concept_refs);
    let ghost m = cmap(trace.concept_map@);
    proof {
        lemma_bump_all(cmap(old_t.concept_map@), signal@.concept_refs);
        assert(keys(trace.concept_map@) =~= ckeys(m));
        assert forall|k: Seq<char>| #[trigger] mentions(sigs, k) == mentions(old_sigs, k) + occ(
            signal@.concept_refs,
            k,
        ) by {
            assert(sigs.drop_last() =~= old_sigs);
        }
        assert forall|i: int| 0 <= i < trace.concept_map@.len() implies (
        #[trigger] trace.concept_map@[i]).1 == mentions(sigs, trace.concept_map@[i].0@) by {
            lemma_count_at(m, i);
        }
        assert forall|k: Seq<char>| #[trigger] keys(trace.concept_map@).contains(k) <==> mentions(
            sigs,
            k,
        ) > 0 by {
            assert(ckeys(m).to_set().contains(k) == ckeys(m).contains(k));
            assert(keys(old_t.concept_map@) =~= ckeys(cmap(old_t.concept_map@)));
            assert(ckeys(cmap(old_t.concept_map@)).to_set().contains(k) == keys(
                old_t.concept_map@,
            ).contains(k));
            assert(signal@.concept_refs.to_set().contains(k) == signal@.concept_refs.contains(k));
            lemma_occ_contains(signal@.concept_refs, k);
        }
    }
    trace.energy_trajectory.push(signal.energy_level);
    trace.idea_evolution.push(signal.idea_density);
    let dominant = most_frequent_concept(&trace.concept_map);
    let acc = mean(trace.idea_evolution.as_slice());
    trace.accumulated_mass = if acc > MASS_SCALE { MASS_SCALE } else { acc };
    let dom_count: u32 = match &dominant {
        Some(d) => count_of(&trace.concept_map, d.as_str()),
        None => 0,
    };
    proof {
        if trace.concept_map@.len() > 0 {
            lemma_best_index_is_max(trace.concept_map@);
            lemma_count_at(m, best_index(trace.concept_map@));
        }
    }
    let turns = if trace.total_turns > 1 { trace.total_turns } else { 1 };
    trace.structural_coherence = ratio_mass(dom_count, turns);
    let mut prims: Vec<String> = Vec::new();
    let ghost t_mid = *trace;
    let mut i: usize = 0;
    while i < trace.concept_map.len()
        invariant
            *trace == t_mid,
            i <= trace.concept_map@.len(),
            strictly_sorted(strs(prims@)),
            strs(prims@).to_set() == primitive_set(trace.concept_map@.take(i as int)),
        decreases trace.concept_map@.len() - i,
    {
        let ghost before = strs(prims@).to_set();
        let ghost cm = trace.concept_map@;
        if trace.concept_map[i].1 >= 2 {
            insert_sorted(&mut prims, trace.concept_map[i].0.clone());
            assert(primitive_set(cm.take(i + 1)) =~= before.insert(cm[i as int].0@)) by {
                assert forall|k: Seq<char>| primitive_set(cm.take(i + 1)).contains(k) implies before.insert(
                    cm[i as int].0@,
                ).contains(k) by {
                    let t = choose|t: int| 0 <= t < cm.take(i + 1).len() && (#[trigger] cm.take(
                        i + 1,
                    )[t]).0@ == k && cm.take(i + 1)[t].1 >= 2;
                    if t < i {
                        assert(cm.take(i as int)[t] == cm.take(i + 1)[t]);
                    }
                }
                assert forall|k: Seq<char>| before.insert(cm[i as int].0@).contains(k) implies primitive_set(
                    cm.take(i + 1),
                ).contains(k) by {
                    if k == cm[i as int].0@ {
                        assert(cm.take(i + 1)[i as int] == cm[i as int]);
                    } else {
                        let t = choose|t: int| 0 <= t < cm.take(i as int).len() && (#[trigger] cm.take(
                            i as int,
                        )[t]).0@ == k && cm.take(i as int)[t].1 >= 2;
                        assert(cm.take(i + 1)[t] == cm.take(i as int)[t]);
                    }
                }
            }
        } else {
            assert(primitive_set(cm.take(i + 1)) =~= before) by {
                assert forall|k: Seq<char>| primitive_set(cm.take(i + 1)).contains(k) implies before.contains(
                    k,
                ) by {
                    let t = choose|t: int| 0 <= t < cm.take(i + 1).len() && (#[trigger] cm.take(
                        i + 1,
                    )[t]).0@ == k && cm.take(i + 1)[t].1 >= 2;
                    assert(t < i);
                    assert(cm.take(i as int)[t] == cm.take(i + 1)[t]);
                }
                assert forall|k: Seq<char>| before.contains(k) implies primitive_set(
                    cm.take(i + 1),
                ).contains(k) by {
                    let t = choose|t: int| 0 <= t < cm.take(i as int).len() && (#[trigger] cm.take(
                        i as int,
                    )[t]).0@ == k && cm.take(i as int)[t].1 >= 2;
                    assert(cm.take(i + 1)[t] == cm.take(i as int)[t]);
                }
            }
        }
        i += 1;
    }
    assert(trace.concept_map@.take(i as int) =~= trace.concept_map@);
    trace.implicit_primitives = prims;
    let dom: String = match &dominant {
        Some(d) => d.clone(),
        None => String::new(),
    };
    let ghost domv: Seq<char> = match most_frequent_spec(trace.concept_map@) {
        Some(d) => d,
        None => Seq::empty(),
    };
    assert(dom@ == domv);
    let ghost old_pairs = pair_views(trace.contradiction_pairs@);
    let ghost cs = strs(signal.contradicts@);
    let ghost t_pre = *trace;
    let mut j: usize = 0;
    while j < signal.contradicts.len()
        invariant
            trace.signals == t_pre.signals,
            trace.total_turns == t_pre.total_turns,
            trace.concept_map == t_pre.concept_map,
            trace.energy_trajectory == t_pre.energy_trajectory,
            trace.idea_evolution == t_pre.idea_evolution,
            trace.accumulated_mass == t_pre.accumulated_mass,
            trace.structural_coherence == t_pre.structural_coherence,
            trace.implicit_primitives == t_pre.implicit_primitives,
            trace.trace_id == t_pre.trace_id,
            trace.session_id == t_pre.session_id,
            trace.territory == t_pre.territory,
            trace.started_at == t_pre.started_at,
            cs == strs(signal.contradicts@),
            j <= cs.len(),
            pair_views(trace.contradiction_pairs@) == add_pairs(old_pairs, cs.take(j as int), domv),
            dom@ == domv,
        decreases cs.len() - j,
    {
        let c = signal.contradicts[j].as_str();
        assert(cs.take(j + 1).drop_last() =~= cs.take(j as int));
        assert(cs.take(j + 1).last() == c@);
        let novel = !contains_pair(&trace.contradiction_pairs, c, dom.as_str());
        let distinct = !str_eq(c, dom.as_str());
        if novel && distinct {
            let ghost before = pair_views(trace.contradiction_pairs@);
            trace.contradiction_pairs.push((signal.contradicts[j].clone(), dom.clone()));
            assert(pair_views(trace.contradiction_pairs@) =~= before.push((c@, domv)));
        }
        j += 1;
    }
    assert(cs.take(j as int) =~= cs);
    trace.dominant_concept = dominant;
    trace.last_updated_at = signal.timestamp;
    proof {
        let t = *trace;
        assert(sig_views(t.signals@) =~= sigs);
        assert forall|i: int| 0 <= i < sigs.len() implies t.energy_trajectory@[i] == (
        #[trigger] sigs[i]).energy_level by {
            if i < old_sigs.len() {
                assert(sigs[i] == old_sigs[i]);
            }
        }
        assert forall|i: int| 0 <= i < sigs.len() implies t.idea_evolution@[i] == (
        #[trigger] sigs[i]).idea_density by {
            if i < old_sigs.len() {
                assert(sigs[i] == old_sigs[i]);
            }
        }
    }
}

/// Enough clues gathered: the layer stops asking once the accumulated mass
/// reaches this level.
pub const PROBE_SATURATION_MASS: u32 = 6_000;
/// Enough clues gathered: the layer stops asking after this many turns.
pub const PROBE_MAX_TURNS: u32 = 6;

/// The response to a signal: stop asking when saturated, withdraw when the
/// budget is spent, help under resistance; otherwise ask about the sharpest
/// gap of the signal (a contradiction, a return, low energy, density), and
/// last scaffold according to the mode.
pub open spec fn decide_spec(
    mode: DebateMode,
    s: SignalView,
    b: PressureBudget,
    t: EpistemicTrace,
) -> (PdResponseType, Seq<char>) {
    if t.accumulated_mass >= PROBE_SATURATION_MASS || t.total_turns >= PROBE_MAX_TURNS {
        (
            PdResponseType::Listen,
            "Kam mjaftueshëm indicie — po e zgjidh tani, s'të lodh më me pyetje."@,
        )
    } else if b.budget_exhausted {
        (PdResponseType::Listen, "dëgjo — buxheti shteroi, lë PRO të punojë"@)
    } else if b.user_resistance_detected {
        (PdResponseType::Help, "ndihmo pa shtytje — user ka rezistencë"@)
    } else if s.contradicts.len() > 0 {
        (
            PdResponseType::ChallengeGentle,
            "Vërej një kundërthënie rreth «"@ + s.contradicts[0]
                + "» — cila anë qëndron dhe pse?"@,
        )
    } else if s.returns_to.len() > 0 {
        (
            PdResponseType::ScaffoldStructure,
            "Po kthehesh te «"@ + s.returns_to[0]
                + "» — më jep një veti a shembull KONKRET për të."@,
        )
    } else if s.energy_level < 3_000 {
        (
            PdResponseType::Help,
            "Vetëm edhe një detaj i vogël: ku e ke parë/ndeshur këtë saktësisht?"@,
        )
    } else if s.idea_density >= 5_000 {
        (PdResponseType::Help, "ndihmo drejtpërdrejt — ideja është e qartë"@)
    } else if s.idea_density < 3_000 {
        (
            PdResponseType::Clarify,
            "Më jep 2–3 detaje konkrete (emra, veti, kontekst) — çfarë saktësisht kërkon të arrish?"@,
        )
    } else {
        match mode {
            DebateMode::Intellect => (
                PdResponseType::Orient,
                "orienton: 'a mos është kështu? apo kështu?'"@,
            ),
            DebateMode::Philosophy => (
                PdResponseType::ScaffoldBullet,
                "kërko pikat kyçe të konceptit"@,
            ),
            DebateMode::Scientific => (
                PdResponseType::ScaffoldMeasure,
                "kërko matje/kauzalitet: 'si e mat? çfarë e kundërshton?'"@,
            ),
            DebateMode::Novel => (
                PdResponseType::ScaffoldStructure,
                "kërko strukturë/repetabilitet (kundërshtim shumë i butë)"@,
            ),
        }
    }
}

pub fn decide_response(
    mode: DebateMode,
    signal: &CognitiveSignal,
    budget: &PressureBudget,
    trace: &EpistemicTrace,
) -> (r: (PdResponseType, String))
    ensures
        r.0 == decide_spec(mode, signal@, *budget, *trace).0,
        r.1@ == decide_spec(mode, signal@, *budget, *trace).1,
{
    if trace.accumulated_mass >= PROBE_SATURATION_MASS || trace.total_turns >= PROBE_MAX_TURNS {
        return (
            PdResponseType::Listen,
            String::from_str(
                "Kam mjaftueshëm indicie — po e zgjidh tani, s'të lodh më me pyetje.",
            ),
        );
    }
    if budget.budget_exhausted {
        return (
            PdResponseType::Listen,
            String::from_str("dëgjo — buxheti shteroi, lë PRO të punojë"),
        );
    }
    if budget.user_resistance_detected {
        return (PdResponseType::Help, String::from_str("ndihmo pa shtytje — user ka rezistencë"));
    }
    if signal.contradicts.len() > 0 {
        let mut hint = String::from_str("Vërej një kundërthënie rreth «");
        hint.append(signal.contradicts[0].as_str());
        hint.append("» — cila anë qëndron dhe pse?");
        return (PdResponseType::ChallengeGentle, hint);
    }
    if signal.returns_to.len() > 0 {
        let mut hint = String::from_str("Po kthehesh te «");
        hint.append(signal.returns_to[0].as_str());
        hint.append("» — më jep një veti a shembull KONKRET për të.");
        return (PdResponseType::ScaffoldStructure, hint);
    }
    if signal.energy_level < 3_000 {
        return (
            PdResponseType::Help,
            String::from_str(
                "Vetëm edhe një detaj i vogël: ku e ke parë/ndeshur këtë saktësisht?",
            ),
        );
    }
    if signal.idea_density >= 5_000 {
        (PdResponseType::Help, String::from_str("ndihmo drejtpërdrejt — ideja është e qartë"))
    } else if signal.idea_density < 3_000 {
        (
            PdResponseType::Clarify,
            String::from_str(
                "Më jep 2–3 detaje konkrete (emra, veti, kontekst) — çfarë saktësisht kërkon të arrish?",
            ),
        )
    } else {
        match mode {
            DebateMode::Intellect => (
                PdResponseType::Orient,
                String::from_str("orienton: 'a mos është kështu? apo kështu?'"),
            ),
            DebateMode::Philosophy => (
                PdResponseType::ScaffoldBullet,
                String::from_str("kërko pikat kyçe të konceptit"),
            ),
            DebateMode::Scientific => (
                PdResponseType::ScaffoldMeasure,
                String::from_str("kërko matje/kauzalitet: 'si e mat? çfarë e kundërshton?'"),
            ),
            DebateMode::Novel => (
                PdResponseType::ScaffoldStructure,
                String::from_str("kërko strukturë/repetabilitet (kundërshtim shumë i butë)"),
            ),
        }
    }
}

/// The layer challenges only with budget left and no resistance from the
/// user; once saturated it only listens.
pub proof fn law_challenge_only_within_budget(
    mode: DebateMode,
    s: SignalView,
    b: PressureBudget,
    t: EpistemicTrace,
)
    ensures
        decide_spec(mode, s, b, t).0.is_challenge_spec() ==> !b.budget_exhausted
            && !b.user_resistance_detected && t.accumulated_mass < PROBE_SATURATION_MASS
            && t.total_turns < PROBE_MAX_TURNS && s.contradicts.len() > 0,
        (t.accumulated_mass >= PROBE_SATURATION_MASS || t.total_turns >= PROBE_MAX_TURNS)
            ==> decide_spec(mode, s, b, t).0 == PdResponseType::Listen,
{
}

/// The whole state of one excavation session.
#[derive(Debug, Clone)]
pub struct PdSession {
    pub session_id: String,
    pub active: bool,
    pub current_mode: DebateMode,
    pub pressure_budget: PressureBudget,
    pub turns: Vec<PdTurn>,
    pub trace: EpistemicTrace,
    pub genius_signal: Option<GeniusSignal>,
    pub genius_sent_to_pim: bool,
    pub territory: String,
    pub started_at: u64,
    pub last_activity_at: u64,
    pub total_turns: u32,
}

/// The raw contents of the signals joined with ` | `.
pub open spec fn joined_contents(sigs: Seq<SignalView>) -> Seq<char>
    decreases sigs.len(),
{
    if sigs.len() == 0 {
        Seq::empty()
    } else if sigs.len() == 1 {
        sigs[0].raw_content
    } else {
        joined_contents(sigs.drop_last()) + " | "@ + sigs.last().raw_content
    }
}

/// The number of active signals of a genius signal.
pub open spec fn active_signals(g: GeniusSignal) -> nat {
    (if g.returns_to_idea { 1nat } else { 0nat }) + (if g.energy_increasing { 1nat } else { 0nat })
        + (if g.concept_gaining_shape { 1nat } else { 0nat })
}

/// The package handed on after a genius signal.
pub open spec fn package_spec(s: PdSession, g: GeniusSignal, p: PdCognitivePackage) -> bool {
    &&& p.package_id@ == pd_id_spec(
        seq![utf8(s.session_id@), le64(g.timestamp), utf8("pkg"@)],
    )
    &&& p.session_id@ == s.session_id@
    &&& p.genius_signal == g
    &&& p.pre_classification.suggested_category@ == (if g.genius_score >= 7_000 {
        "Hypothesis"@
    } else {
        "PotentialHypothesis"@
    })
    &&& p.pre_classification.confidence_hint == (if g.genius_score < 3_000 {
        3_000
    } else if g.genius_score > 7_000 {
        7_000
    } else {
        g.genius_score
    })
    &&& p.pre_classification.reasoning@ == "PD: "@ + decimal(active_signals(g))
        + " sinjale aktive, koncepti '"@ + g.detected_concept@ + "' fitoi strukturë gjatë "@
        + decimal(s.trace.total_turns as nat) + " kthesave"@
    &&& p.accumulated_text@ == joined_contents(sig_views(s.trace.signals@))
    &&& p.dominant_concept@ == g.detected_concept@
    &&& p.concept_territory@ == s.territory@
    &&& p.accumulated_mass == s.trace.accumulated_mass
    &&& p.structural_coherence == s.trace.structural_coherence
    &&& p.accumulated_turns == s.trace.total_turns
    &&& p.estimated_trl == (if s.trace.accumulated_mass >= 6_500 {
        2u8
    } else if s.trace.accumulated_mass >= 3_600 {
        1u8
    } else {
        0u8
    })
    &&& p.origin@ == "PROGRESSIVE_DEBATIC"@
    &&& p.created_at == g.timestamp
}

/// Packages a genius signal with the session's trace for the next stage.
pub fn build_package(session: &PdSession, genius: &GeniusSignal) -> (r: PdCognitivePackage)
    ensures
        package_spec(*session, *genius, r),
        r.estimated_trl <= 2,
        3_000 <= r.pre_classification.confidence_hint <= 7_000,
{
    let sigs = &session.trace.signals;
    let mut accumulated_text = String::new();
    let mut i: usize = 0;
    while i < sigs.len()
        invariant
            i <= sigs@.len(),
            accumulated_text@ == joined_contents(sig_views(sigs@).take(i as int)),
        decreases sigs@.len() - i,
    {
        assert(sig_views(sigs@).take(i + 1).drop_last() =~= sig_views(sigs@).take(i as int));
        if i > 0 {
            accumulated_text.append(" | ");
        }
        accumulated_text.append(sigs[i].raw_content.as_str());
        proof {
            if i == 0 {
                assert(accumulated_text@ =~= sig_views(sigs@).take(1)[0].raw_content);
            }
        }
        i += 1;
    }
    assert(sig_views(sigs@).take(i as int) =~= sig_views(sigs@));
    let suggested_category = if genius.genius_score >= 7_000 {
        String::from_str("Hypothesis")
    } else {
        String::from_str("PotentialHypothesis")
    };
    let confidence_hint = if genius.genius_score < 3_000 {
        3_000
    } else if genius.genius_score > 7_000 {
        7_000
    } else {
        genius.genius_score
    };
    let estimated_trl: u8 = if session.trace.accumulated_mass >= 6_500 {
        2
    } else if session.trace.accumulated_mass >= 3_600 {
        1
    } else {
        0
    };
    let active: u64 = (if genius.returns_to_idea { 1u64 } else { 0u64 }) + (
    if genius.energy_increasing {
        1u64
    } else {
        0u64
    }) + (if genius.concept_gaining_shape { 1u64 } else { 0u64 });
    let mut reasoning = String::from_str("PD: ");
    push_decimal(&mut reasoning, active);
    reasoning.append(" sinjale aktive, koncepti '");
    reasoning.append(genius.detected_concept.as_str());
    reasoning.append("' fitoi strukturë gjatë ");
    push_decimal(&mut reasoning, session.trace.total_turns as u64);
    reasoning.append(" kthesave");
    let mut ts_bytes: Vec<u8> = Vec::new();
    push_le(&mut ts_bytes, genius.timestamp, 8);
    let parts: [&[u8]; 3] = [
        session.session_id.as_str().as_bytes(),
        ts_bytes.as_slice(),
        "pkg".as_bytes(),
    ];
    let package_id = pd_id(parts.as_slice());
    assert(views(parts@) =~= seq![utf8(session.session_id@), le64(genius.timestamp), utf8("pkg"@)]);
    PdCognitivePackage {
        package_id,
        session_id: session.session_id.clone(),
        genius_signal: genius.duplicate(),
        pre_classification: PdPreClassification { suggested_category, confidence_hint, reasoning },
        accumulated_text,
        dominant_concept: genius.detected_concept.clone(),
        concept_territory: session.territory.clone(),
        accumulated_mass: session.trace.accumulated_mass,
        structural_coherence: session.trace.structural_coherence,
        accumulated_turns: session.trace.total_turns,
        estimated_trl,
        origin: String::from_str("PROGRESSIVE_DEBATIC"),
        created_at: genius.timestamp,
    }
}

/// The dominant concept of a well-formed trace occurs at least as often among
/// the signals' concepts as any other concept; with no dominant concept, no
/// concept has been named at all.
pub proof fn law_dominant_concept_is_most_frequent(t: EpistemicTrace, k: Seq<char>)
    requires
        trace_wf(t),
        opt_view(t.dominant_concept) == most_frequent_spec(t.concept_map@),
    ensures
        t.dominant_concept matches Some(d) ==> mentions(sig_views(t.signals@), k) <= mentions(
            sig_views(t.signals@),
            d@,
        ),
        t.dominant_concept is None ==> mentions(sig_views(t.signals@), k) == 0,
{
    let m = t.concept_map@;
    let sigs = sig_views(t.signals@);
    if m.len() > 0 {
        lemma_best_index_is_max(m);
        let b = best_index(m);
        assert(m[b].1 == mentions(sigs, m[b].0@));
        if keys(m).contains(k) {
            let j = choose|j: int| 0 <= j < keys(m).len() && keys(m)[j] == k;
            assert(m[j].1 == mentions(sigs, m[j].0@));
        }
    } else {
        assert(!keys(m).contains(k));
    }
}

/// A well-formed session: its trace is well formed and it counts the same turns.
pub open spec fn session_wf(s: PdSession) -> bool {
    &&& trace_wf(s.trace)
    &&& s.total_turns == s.trace.total_turns
    &&& signals_read(sig_views(s.trace.signals@))
}

/// Signals as the engine reads them: sorted, distinct concepts and a
/// density on the scale.
pub open spec fn signals_read(sigs: Seq<SignalView>) -> bool {
    &&& forall|i: int| 0 <= i < sigs.len() ==> strictly_sorted((#[trigger] sigs[i]).concept_refs)
    &&& forall|i: int| 0 <= i < sigs.len() ==> (#[trigger] sigs[i]).idea_density <= MASS_SCALE
}

pub open spec fn session_ids(ss: Seq<PdSession>) -> Seq<Seq<char>> {
    ss.map_values(|s: PdSession| s.session_id@)
}

/// The position of the session named `id`, if there is one.
pub open spec fn find_session(ss: Seq<PdSession>, id: Seq<char>) -> Option<int> {
    if exists|i: int| 0 <= i < ss.len() && (#[trigger] ss[i]).session_id@ == id {
        Some(choose|i: int| 0 <= i < ss.len() && (#[trigger] ss[i]).session_id@ == id)
    } else {
        None
    }
}

/// The module's state: the sessions by name, and the detector.
#[derive(Debug, Clone)]
pub struct ProgressiveDebatic {
    pub sessions: Vec<PdSession>,
    pub detector: GeniusDetector,
    pub active: bool,
}

/// Every session is well formed, and no two share a name.
pub open spec fn pd_wf(pd: ProgressiveDebatic) -> bool {
    &&& session_ids(pd.sessions@).no_duplicates()
    &&& forall|i: int| 0 <= i < pd.sessions@.len() ==> session_wf(#[trigger] pd.sessions@[i])
}

/// `s` is a freshly opened session.
pub open spec fn opened(s: PdSession, id: Seq<char>, territory: Seq<char>, mode: DebateMode, ts: u64) -> bool {
    &&& s.session_id@ == id
    &&& s.active
    &&& s.current_mode == mode
    &&& s.pressure_budget == (PressureBudget {
        challenges_issued: 0,
        current_mode: mode,
        budget_exhausted: false,
        user_resistance_detected: false,
    })
    &&& s.turns@.len() == 0
    &&& s.trace.trace_id@ == trace_id_spec(id)
    &&& s.trace.session_id@ == id
    &&& s.trace.signals@.len() == 0
    &&& s.trace.total_turns == 0
    &&& s.trace.dominant_concept is None
    &&& s.trace.concept_map@.len() == 0
    &&& s.trace.energy_trajectory@.len() == 0
    &&& s.trace.idea_evolution@.len() == 0
    &&& s.trace.accumulated_mass == 0
    &&& s.trace.structural_coherence == 0
    &&& s.trace.implicit_primitives@.len() == 0
    &&& s.trace.contradiction_pairs@.len() == 0
    &&& s.trace.territory@ == territory
    &&& s.trace.started_at == ts
    &&& s.trace.last_updated_at == ts
    &&& s.genius_signal is None
    &&& !s.genius_sent_to_pim
    &&& s.territory@ == territory
    &&& s.started_at == ts
    &&& s.last_activity_at == ts
    &&& s.total_turns == 0
}

/// `new` is the session `old` after one message, and `out` what was answered.
pub open spec fn ingested(
    old: PdSession,
    new: PdSession,
    d: GeniusDetector,
    content: Seq<char>,
    ts: u64,
    out: PdEngineOutput,
) -> bool {
    let turn_index = old.trace.total_turns;
    let sig = new.trace.signals@.last()@;
    let decision = decide_spec(old.current_mode, sig, old.pressure_budget, new.trace);
    let challenge = decision.0.is_challenge_spec();
    let turn = new.turns@.last();
    &&& extracted(content, turn_index, ts, old.trace.concept_map@, sig)
    &&& trace_step(old.trace, sig, new.trace)
    &&& new.session_id == old.session_id
    &&& new.active == old.active
    &&& new.current_mode == old.current_mode
    &&& new.territory == old.territory
    &&& new.started_at == old.started_at
    &&& new.genius_sent_to_pim == old.genius_sent_to_pim
    &&& new.total_turns == new.trace.total_turns
    &&& new.last_activity_at == ts
    &&& new.pressure_budget.challenges_issued == old.pressure_budget.challenges_issued + if challenge {
        1int
    } else {
        0int
    }
    &&& new.pressure_budget.budget_exhausted == (new.pressure_budget.challenges_issued
        >= max_for_spec(old.current_mode))
    &&& new.pressure_budget.current_mode == old.pressure_budget.current_mode
    &&& new.pressure_budget.user_resistance_detected == old.pressure_budget.user_resistance_detected
    &&& new.turns@.len() == old.turns@.len() + 1
    &&& new.turns@.drop_last() == old.turns@
    &&& turn.turn_id@ == pd_id_spec(seq![utf8(old.session_id@), le32(turn_index), utf8("turn"@)])
    &&& turn.turn_index == turn_index
    &&& turn.user_signal@ == sig
    &&& turn.pd_response_type == decision.0
    &&& turn.pd_response_hint@ == decision.1
    &&& turn.challenge_issued == challenge
    &&& turn.mode_at_turn == old.current_mode
    &&& (turn.genius_check is Some <==> detects(d, new.trace))
    &&& if detects(d, new.trace) {
        &&& new.genius_signal matches Some(g) && genius_of(d, new.trace, g)
        &&& turn.genius_check == Some(new.genius_signal->0.genius_score)
        &&& out matches PdEngineOutput::GeniusDetected { genius_signal, package } && genius_signal
            == new.genius_signal->0 && package_spec(new, genius_signal, package)
    } else {
        &&& new.genius_signal == old.genius_signal
        &&& if new.pressure_budget.budget_exhausted {
            out matches PdEngineOutput::BudgetExhausted { trace_id } && trace_id == new.trace.trace_id
        } else {
            out matches PdEngineOutput::Continue { turn: t } && same_turn(t, turn)
        }
    }
}

/// With every density on the scale, the density trend never overflows.
proof fn lemma_wf_trend_fits(t: EpistemicTrace)
    requires
        signals_read(sig_views(t.signals@)),
    ensures
        trend_fits(densities(t.signals@)),
{
    let d = densities(t.signals@);
    if d.len() >= 2 {
        assert(sig_views(t.signals@)[0].idea_density == d[0]);
        assert(sig_views(t.signals@)[d.len() - 1].idea_density == d.last());
        assert(d[0] <= MASS_SCALE);
        assert(d.last() <= MASS_SCALE);
        assert(d[0] as i32 == d[0]);
        assert(d.last() as i32 == d.last());
    }
}

/// Opening a session: the named session is replaced by a fresh one, or a
/// fresh one is appended; nothing else changes.
pub open spec fn open_effect(
    old: ProgressiveDebatic,
    new: ProgressiveDebatic,
    id: Seq<char>,
    territory: Seq<char>,
    mode: DebateMode,
    ts: u64,
) -> bool {
    &&& pd_wf(new)
    &&& new.detector == old.detector
    &&& new.active == old.active
    &&& match find_session(old.sessions@, id) {
        Some(i) => {
            &&& new.sessions@.len() == old.sessions@.len()
            &&& opened(new.sessions@[i], id, territory, mode, ts)
            &&& forall|j: int|
                0 <= j < old.sessions@.len() && j != i ==> new.sessions@[j] == old.sessions@[j]
        },
        None => {
            &&& new.sessions@.len() == old.sessions@.len() + 1
            &&& opened(new.sessions@.last(), id, territory, mode, ts)
            &&& new.sessions@.drop_last() == old.sessions@
        },
    }
}

/// Ingesting into a session: an unknown session is refused with nothing
/// changed; a known one takes the message and nothing else changes.
pub open spec fn ingest_effect(
    old: ProgressiveDebatic,
    new: ProgressiveDebatic,
    id: Seq<char>,
    content: Seq<char>,
    ts: u64,
    r: Result<PdEngineOutput, PdError>,
) -> bool {
    &&& pd_wf(new)
    &&& new.detector == old.detector
    &&& new.active == old.active
    &&& match find_session(old.sessions@, id) {
        None => new == old && (r matches Err(PdError::SessionNotFound(m)) && m@ == id),
        Some(i) => {
            &&& r matches Ok(out) && ingested(
                old.sessions@[i],
                new.sessions@[i],
                old.detector,
                content,
                ts,
                out,
            )
            &&& new.sessions@.len() == old.sessions@.len()
            &&& forall|j: int|
                0 <= j < old.sessions@.len() && j != i ==> new.sessions@[j] == old.sessions@[j]
        },
    }
}

impl ProgressiveDebatic {
    /// An engine with no sessions and the default detector.
    pub fn new() -> (r: Self)
        ensures
            r.sessions@.len() == 0,
            r.detector == default_detector(),
            r.active,
            pd_wf(r),
    {
        ProgressiveDebatic { sessions: Vec::new(), detector: GeniusDetector::default(), active: true }
    }

    /// The position of a session by name.
    fn position(&self, session_id: &str) -> (r: Option<usize>)
        requires
            session_ids(self.sessions@).no_duplicates(),
        ensures
            r matches Some(i) ==> find_session(self.sessions@, session_id@) == Some(i as int),
            r is None ==> find_session(self.sessions@, session_id@) is None,
    {
        let mut i: usize = 0;
        while i < self.sessions.len()
            invariant
                session_ids(self.sessions@).no_duplicates(),
                i <= self.sessions@.len(),
                forall|t: int| 0 <= t < i ==> (#[trigger] self.sessions@[t]).session_id@ != session_id@,
            decreases self.sessions@.len() - i,
        {
            if str_eq(self.sessions[i].session_id.as_str(), session_id) {
                proof {
                    assert(self.sessions@[i as int].session_id@ == session_id@);
                    let j = choose|j: int|
                        0 <= j < self.sessions@.len() && (#[trigger] self.sessions@[j]).session_id@
                            == session_id@;
                    assert(session_ids(self.sessions@)[j] == session_ids(self.sessions@)[i as int]);
                }
                return Some(i);
            }
            i += 1;
        }
        None
    }

    /// Opens (or reopens, replacing) the session named `session_id`.
    pub fn open_session(&mut self, session_id: &str, territory: &str, mode: DebateMode, ts: u64)
        requires
            pd_wf(*old(self)),
        ensures
            open_effect(*old(self), *final(self), session_id@, territory@, mode, ts),
    {
        let trace = EpistemicTrace::new(session_id, territory, ts);
        let session = PdSession {
            session_id: owned(session_id),
            active: true,
            current_mode: mode,
            pressure_budget: PressureBudget::new(mode),
            turns: Vec::new(),
            trace,
            genius_signal: None,
            genius_sent_to_pim: false,
            territory: owned(territory),
            started_at: ts,
            last_activity_at: ts,
            total_turns: 0,
        };
        let ghost old_ss = self.sessions@;
        proof {
            assert(sig_views(session.trace.signals@) =~= Seq::<SignalView>::empty());
            assert(keys(session.trace.concept_map@) =~= Seq::<Seq<char>>::empty());
            assert forall|k: Seq<char>| #[trigger] keys(session.trace.concept_map@).contains(k)
                <==> mentions(sig_views(session.trace.signals@), k) > 0 by {
            }
        }
        match self.position(session_id) {
            Some(i) => {
                self.sessions.set(i, session);
                proof {
                    assert(session_ids(self.sessions@) =~= session_ids(old_ss));
                }
            },
            None => {
                self.sessions.push(session);
                proof {
                    assert(session_ids(self.sessions@) =~= session_ids(old_ss).push(session_id@));
                    assert(!session_ids(old_ss).contains(session_id@)) by {
                        if session_ids(old_ss).contains(session_id@) {
                            let j = choose|j: int| 0 <= j < old_ss.len() && session_ids(old_ss)[j] == session_id@;
                            assert(old_ss[j].session_id@ == session_id@);
                        }
                    }
                    assert(self.sessions@.drop_last() =~= old_ss);
                }
            },
        }
    }

    /// The session named `session_id`, if there is one.
    pub fn session(&self, session_id: &str) -> (r: Option<&PdSession>)
        requires
            session_ids(self.sessions@).no_duplicates(),
        ensures
            r matches Some(s) ==> find_session(self.sessions@, session_id@) matches Some(i)
                && *s == self.sessions@[i],
            r is None ==> find_session(self.sessions@, session_id@) is None,
    {
        match self.position(session_id) {
            Some(i) => Some(&self.sessions[i]),
            None => None,
        }
    }

    /// Takes one message into a session: the message becomes a signal, the
    /// trace takes it in, the detector looks for a genius signal, and the
    /// response is decided under the pressure budget. A session that does not
    /// exist is refused and nothing changes.
    pub fn ingest(&mut self, session_id: &str, content: &str, ts: u64) -> (r: Result<PdEngineOutput, PdError>)
        requires
            pd_wf(*old(self)),
            find_session(old(self).sessions@, session_id@) matches Some(i) ==> {
                &&& old(self).sessions@[i].trace.total_turns < u32::MAX
                &&& old(self).sessions@[i].pressure_budget.challenges_issued < u32::MAX
            },
        ensures
            ingest_effect(*old(self), *final(self), session_id@, content@, ts, r),
    {
        let detector = self.detector;
        let i = match self.position(session_id) {
            Some(i) => i,
            None => return Err(PdError::SessionNotFound(owned(session_id))),
        };
        let ghost old_ss = self.sessions@;
        let ghost old_s = self.sessions@[i as int];
        assert(session_wf(old_s));
        let session = &mut self.sessions[i];
        let turn_index = session.trace.total_turns;
        let signal = extract_signal(content, turn_index, ts, &session.trace.concept_map);
        let ghost sv = signal@;
        let ghost old_sigs = sig_views(old_s.trace.signals@);
        proof {
            assert forall|k: Seq<char>| #[trigger] mentions(old_sigs, k) + occ(sv.concept_refs, k)
                <= u32::MAX by {
                lemma_mentions_bound(old_sigs, k);
                lemma_occ_sorted(sv.concept_refs, k);
            }
        }
        update_trace(&mut session.trace, &signal);
        session.total_turns = session.trace.total_turns;
        session.last_activity_at = ts;
        proof {
            let ns = sig_views(session.trace.signals@);
            assert(sv.idea_density <= MASS_SCALE);
            assert forall|j: int| 0 <= j < ns.len() implies strictly_sorted(
                (#[trigger] ns[j]).concept_refs,
            ) && ns[j].idea_density <= MASS_SCALE by {
                if j < old_sigs.len() {
                    assert(ns[j] == old_sigs[j]);
                }
            }
            lemma_wf_trend_fits(session.trace);
        }
        let genius = detector.evaluate(&session.trace);
        let (resp_type, hint) = decide_response(
            session.current_mode,
            &signal,
            &session.pressure_budget,
            &session.trace,
        );
        let is_challenge = resp_type.is_challenge();
        session.pressure_budget.challenges_issued = session.pressure_budget.challenges_issued + (
        if is_challenge {
            1u32
        } else {
            0u32
        });
        let max_ch = PressureBudget::max_for(session.current_mode);
        session.pressure_budget.budget_exhausted = session.pressure_budget.challenges_issued
            >= max_ch;
        let mut idx_bytes: Vec<u8> = Vec::new();
        push_le(&mut idx_bytes, turn_index as u64, 4);
        let parts: [&[u8]; 3] = [session_id.as_bytes(), idx_bytes.as_slice(), "turn".as_bytes()];
        let turn_id = pd_id(parts.as_slice());
        proof {
            assert(views(parts@) =~= seq![utf8(session_id@), le32(turn_index), utf8("turn"@)]);
        }
        let genius_check = match &genius {
            Some(g) => Some(g.genius_score),
            None => None,
        };
        let turn = PdTurn {
            turn_id,
            turn_index,
            user_signal: signal,
            pd_response_type: resp_type,
            pd_response_hint: hint,
            challenge_issued: is_challenge,
            mode_at_turn: session.current_mode,
            genius_check,
        };
        session.turns.push(turn.duplicate());
        let out = match genius {
            Some(g) => {
                session.genius_signal = Some(g.duplicate());
                let package = build_package(session, &g);
                PdEngineOutput::GeniusDetected { genius_signal: g, package }
            },
            None => {
                if session.pressure_budget.budget_exhausted {
                    PdEngineOutput::BudgetExhausted { trace_id: session.trace.trace_id.clone() }
                } else {
                    PdEngineOutput::Continue { turn }
                }
            },
        };
        proof {
            let ns = self.sessions@[i as int];
            assert(sig_views(ns.trace.signals@).last() == ns.trace.signals@.last()@);
            assert(ns.trace.signals@.last()@ == sv);
            assert(ns.turns@.drop_last() =~= old_s.turns@);
            assert(session_ids(self.sessions@) =~= session_ids(old_ss));
        }
        Ok(out)
    }
}


/// A return to a concept is deepened right there: when the layer is not
/// saturated (mass below 6000 and fewer than 6 turns), the budget is neither
/// spent nor resisted, and the signal holds no contradiction, a signal that
/// returns to earlier concepts is answered with a structure scaffold whose
/// question names the first concept returned to, whatever the mode.
pub proof fn law_return_is_deepened(mode: DebateMode, s: SignalView, b: PressureBudget, t: EpistemicTrace)
    requires
        t.accumulated_mass < 6_000,
        t.total_turns < 6,
        !b.budget_exhausted,
        !b.user_resistance_detected,
        s.contradicts.len() == 0,
        s.returns_to.len() > 0,
    ensures
        decide_spec(mode, s, b, t).0 == PdResponseType::ScaffoldStructure,
        decide_spec(mode, s, b, t).1 == "Po kthehesh te «"@ + s.returns_to[0]
            + "» — më jep një veti a shembull KONKRET për të."@,
{
}


/// The order in which the layer answers: a saturated layer (mass from 6000
/// or from 6 turns on) stops asking; a spent budget listens; resistance gets
/// help without pressure; a contradiction is challenged gently by name before
/// anything else of the signal is looked at.
pub proof fn law_response_priorities(mode: DebateMode, s: SignalView, b: PressureBudget, t: EpistemicTrace)
    ensures
        t.accumulated_mass >= 6_000 || t.total_turns >= 6 ==> decide_spec(mode, s, b, t).0
            == PdResponseType::Listen,
        t.accumulated_mass < 6_000 && t.total_turns < 6 && b.budget_exhausted ==> decide_spec(mode, s, b, t).0
            == PdResponseType::Listen,
        t.accumulated_mass < 6_000 && t.total_turns < 6 && !b.budget_exhausted
            && b.user_resistance_detected ==> decide_spec(mode, s, b, t).0 == PdResponseType::Help,
        t.accumulated_mass < 6_000 && t.total_turns < 6 && !b.budget_exhausted
            && !b.user_resistance_detected && s.contradicts.len() > 0 ==> decide_spec(mode, s, b, t)
            == (PdResponseType::ChallengeGentle, "Vërej një kundërthënie rreth «"@ + s.contradicts[0]
            + "» — cila anë qëndron dhe pse?"@),
{
}

} // verus!
