//! The genius detector: three fixed-point signals read from an epistemic
//! trace (a return to the same idea, rising energy, a concept gaining
//! shape), weighted into one score. Every mass is a `u32` on the scale
//! `0..=MASS_SCALE`.

use vstd::prelude::*;
use crate::codec::{le64, push_le, utf8};
use crate::words::{strs, tokens, tokenize};
use crate::text::owned;
use super::types::{pd_id, pd_id_spec, views, CognitiveSignal, EpistemicTrace, GeniusSignal};

verus! {

/// The fixed-point scale of every mass.
pub const MASS_SCALE: u32 = 10_000;

/// The mass of the ratio `n / d` on the fixed-point scale, capped at the
/// scale; an empty denominator gives no mass.
pub open spec fn ratio_spec(n: u32, d: u32) -> u32 {
    if d == 0 {
        0
    } else if n as int * MASS_SCALE as int / d as int >= MASS_SCALE as int {
        MASS_SCALE
    } else {
        (n as int * MASS_SCALE as int / d as int) as u32
    }
}

pub fn ratio_mass(n: u32, d: u32) -> (r: u32)
    ensures
        r == ratio_spec(n, d),
        r <= MASS_SCALE,
{
    if d == 0 {
        return 0;
    }
    assert((n as int) * 10_000 <= 0xffff_ffffint * 10_000) by (nonlinear_arith);
    let q: u64 = (n as u64) * (MASS_SCALE as u64) / (d as u64);
    if q >= MASS_SCALE as u64 {
        MASS_SCALE
    } else {
        q as u32
    }
}

/// The running sum of `s` with every addition saturating at `u64::MAX`.
pub open spec fn sat_sum(s: Seq<u32>) -> u64
    decreases s.len(),
{
    if s.len() == 0 {
        0
    } else {
        sat_sum(s.drop_last()).saturating_add(s.last() as u64)
    }
}

/// The mean of `s`: the saturating sum divided by the length, capped at
/// `u32::MAX`; zero for an empty sequence.
pub open spec fn mean_spec(s: Seq<u32>) -> u32 {
    if s.len() == 0 {
        0
    } else if sat_sum(s) as int / s.len() as int > u32::MAX as int {
        u32::MAX
    } else {
        (sat_sum(s) as int / s.len() as int) as u32
    }
}

/// The mean of `values[lo..hi]`.
fn mean_range(values: &[u32], lo: usize, hi: usize) -> (r: u32)
    requires
        lo <= hi <= values@.len(),
    ensures
        r == mean_spec(values@.subrange(lo as int, hi as int)),
{
    let ghost s = values@.subrange(lo as int, hi as int);
    let mut sum: u64 = 0;
    let mut i: usize = lo;
    while i < hi
        invariant
            lo <= i <= hi <= values@.len(),
            s == values@.subrange(lo as int, hi as int),
            sum == sat_sum(s.take(i - lo)),
        decreases hi - i,
    {
        assert(s.take(i - lo + 1).drop_last() =~= s.take(i - lo));
        assert(s.take(i - lo + 1).last() == values@[i as int]);
        sum = sum.saturating_add(values[i] as u64);
        i += 1;
    }
    assert(s.take(hi - lo) =~= s);
    if hi == lo {
        return 0;
    }
    let q: u64 = sum / ((hi - lo) as u64);
    if q > u32::MAX as u64 {
        u32::MAX
    } else {
        q as u32
    }
}

/// The mean of a list of masses.
pub fn mean(values: &[u32]) -> (r: u32)
    ensures
        r == mean_spec(values@),
{
    assert(values@.subrange(0, values@.len() as int) =~= values@);
    mean_range(values, 0, values.len())
}

/// The signed trend from the first to the last value, clamped to
/// `[-MASS_SCALE, MASS_SCALE]`; zero for fewer than two values.
pub open spec fn trend_spec(values: Seq<u32>) -> i32 {
    if values.len() < 2 {
        0
    } else {
        let d = (values.last() as i32) - (values[0] as i32);
        if d < -(MASS_SCALE as int) {
            -10_000i32
        } else if d > MASS_SCALE as int {
            10_000i32
        } else {
            d as i32
        }
    }
}

/// The difference of the ends, read as `i32`, fits in `i32`.
pub open spec fn trend_fits(values: Seq<u32>) -> bool {
    values.len() >= 2 ==> {
        let d = (values.last() as i32) - (values[0] as i32);
        i32::MIN <= d <= i32::MAX
    }
}

pub fn compute_trend(values: &[u32]) -> (r: i32)
    requires
        trend_fits(values@),
    ensures
        r == trend_spec(values@),
{
    if values.len() < 2 {
        return 0;
    }
    let first = values[0] as i32;
    let last = values[values.len() - 1] as i32;
    let d = last - first;
    if d < -10_000 {
        -10_000
    } else if d > 10_000 {
        10_000
    } else {
        d
    }
}

/// `value * weight / MASS_SCALE`, truncated to `u32`.
pub open spec fn scale_spec(value: u32, weight: u32) -> u32 {
    ((value as int * weight as int) / MASS_SCALE as int) as u32
}

fn scale_product(value: u32, weight: u32) -> (r: u32)
    ensures
        r == scale_spec(value, weight),
{
    assert((value as int) * (weight as int) <= 0xffff_ffffint * 0xffff_ffffint) by (nonlinear_arith);
    let p: u64 = (value as u64) * (weight as u64);
    assert(p / 10_000 <= u64::MAX);
    #[verifier::truncate]
    ((p / (MASS_SCALE as u64)) as u32)
}

/// The saturating sum of `value * weight` over the terms.
pub open spec fn weighted_sum(terms: Seq<(u32, u32)>) -> u64
    decreases terms.len(),
{
    if terms.len() == 0 {
        0
    } else {
        weighted_sum(terms.drop_last()).saturating_add(
            (terms.last().0 as int * terms.last().1 as int) as u64,
        )
    }
}

/// The weighted mass of the terms: their weighted sum on the scale, capped.
pub open spec fn weighted_spec(terms: Seq<(u32, u32)>) -> u32 {
    if weighted_sum(terms) as int / MASS_SCALE as int > MASS_SCALE as int {
        MASS_SCALE
    } else {
        (weighted_sum(terms) as int / MASS_SCALE as int) as u32
    }
}

pub fn weighted_mass(terms: &[(u32, u32)]) -> (r: u32)
    ensures
        r == weighted_spec(terms@),
        r <= MASS_SCALE,
{
    let mut sum: u64 = 0;
    let mut i: usize = 0;
    while i < terms.len()
        invariant
            i <= terms@.len(),
            sum == weighted_sum(terms@.take(i as int)),
        decreases terms@.len() - i,
    {
        let (v, w) = terms[i];
        assert(terms@.take(i + 1).drop_last() =~= terms@.take(i as int));
        assert(terms@.take(i + 1).last() == terms@[i as int]);
        assert((v as int) * (w as int) <= 0xffff_ffffint * 0xffff_ffffint) by (nonlinear_arith);
        let p: u64 = (v as u64) * (w as u64);
        sum = sum.saturating_add(p);
        i += 1;
    }
    assert(terms@.take(i as int) =~= terms@);
    let q = sum / (MASS_SCALE as u64);
    if q > MASS_SCALE as u64 {
        MASS_SCALE
    } else {
        q as u32
    }
}

/// The position of the most frequent entry of a concept map: among entries
/// with the highest count, the last one.
pub open spec fn best_index(m: Seq<(String, u32)>) -> int
    decreases m.len(),
{
    if m.len() <= 1 {
        0
    } else {
        let b = best_index(m.drop_last());
        if m.last().1 >= m[b].1 {
            m.len() - 1
        } else {
            b
        }
    }
}

/// The most frequent concept of a map, if it has any entry.
pub open spec fn most_frequent_spec(m: Seq<(String, u32)>) -> Option<Seq<char>> {
    if m.len() == 0 {
        None
    } else {
        Some(m[best_index(m)].0@)
    }
}

/// The chosen entry is in the map and no entry counts more.
pub proof fn lemma_best_index_is_max(m: Seq<(String, u32)>)
    requires
        m.len() > 0,
    ensures
        0 <= best_index(m) < m.len(),
        forall|k: int| 0 <= k < m.len() ==> (#[trigger] m[k]).1 <= m[best_index(m)].1,
    decreases m.len(),
{
    if m.len() > 1 {
        lemma_best_index_is_max(m.drop_last());
        let b = best_index(m.drop_last());
        assert forall|k: int| 0 <= k < m.len() implies (#[trigger] m[k]).1 <= m[best_index(
            m,
        )].1 by {
            if k < m.len() - 1 {
                assert(m[k] == m.drop_last()[k]);
            }
        }
    }
}

/// The most frequent concept; among equally frequent ones the last in the
/// map's order.
pub fn most_frequent_concept(map: &Vec<(String, u32)>) -> (r: Option<String>)
    ensures
        r matches Some(s) ==> most_frequent_spec(map@) == Some(s@),
        r is None ==> most_frequent_spec(map@) is None,
{
    if map.len() == 0 {
        return None;
    }
    let mut b: usize = 0;
    let mut i: usize = 1;
    while i < map.len()
        invariant
            1 <= i <= map@.len(),
            b == best_index(map@.take(i as int)),
            b < i,
        decreases map@.len() - i,
    {
        assert(map@.take(i + 1).drop_last() =~= map@.take(i as int));
        assert(map@.take(i as int)[b as int] == map@[b as int]);
        if map[i].1 >= map[b].1 {
            b = i;
        }
        i += 1;
    }
    assert(map@.take(i as int) =~= map@);
    Some(map[b].0.clone())
}

/// Whether a list of strings holds a given text.
pub fn contains_str(v: &Vec<String>, s: &str) -> (r: bool)
    ensures
        r == strs(v@).contains(s@),
{
    let mut i: usize = 0;
    while i < v.len()
        invariant
            i <= v@.len(),
            forall|j: int| 0 <= j < i ==> strs(v@)[j] != s@,
        decreases v@.len() - i,
    {
        if crate::text::str_eq(v[i].as_str(), s) {
            assert(strs(v@)[i as int] == s@);
            return true;
        }
        i += 1;
    }
    false
}

/// The signals that return to `c`.
pub open spec fn returning_count(sigs: Seq<CognitiveSignal>, c: Seq<char>) -> nat
    decreases sigs.len(),
{
    if sigs.len() == 0 {
        0
    } else {
        returning_count(sigs.drop_last(), c) + if strs(sigs.last().returns_to@).contains(c) {
            1nat
        } else {
            0nat
        }
    }
}

/// The words of the signals that return to `c`, in order.
pub open spec fn returning_tokens(sigs: Seq<CognitiveSignal>, c: Seq<char>) -> Seq<Seq<char>>
    decreases sigs.len(),
{
    if sigs.len() == 0 {
        Seq::empty()
    } else {
        returning_tokens(sigs.drop_last(), c) + if strs(sigs.last().returns_to@).contains(c) {
            tokens(sigs.last().raw_content@)
        } else {
            Seq::empty()
        }
    }
}

/// The diversity of the words used when returning to `c`: distinct words
/// over all words; nothing unless at least two signals return to `c`.
pub open spec fn diversity_spec(sigs: Seq<CognitiveSignal>, c: Seq<char>) -> u32 {
    let words = returning_tokens(sigs, c);
    if returning_count(sigs, c) < 2 {
        0
    } else {
        ratio_spec(
            words.to_set().len() as u32,
            if words.len() > u32::MAX { u32::MAX } else { words.len() as u32 },
        )
    }
}

pub proof fn lemma_insert_distinct(d: Seq<Seq<char>>, w: Seq<char>)
    requires
        d.no_duplicates(),
        !d.contains(w),
    ensures
        d.push(w).no_duplicates(),
        d.push(w).to_set() == d.to_set().insert(w),
{
    assert(d.push(w).to_set() =~= d.to_set().insert(w)) by {
        assert forall|x: Seq<char>| d.push(w).to_set().contains(x) implies d.to_set().insert(
            w,
        ).contains(x) by {
            let k = choose|k: int| 0 <= k < d.push(w).len() && d.push(w)[k] == x;
            if k < d.len() {
                assert(d[k] == x);
            }
        }
        assert forall|x: Seq<char>| d.to_set().insert(w).contains(x) implies d.push(
            w,
        ).to_set().contains(x) by {
            if x == w {
                assert(d.push(w)[d.len() as int] == x);
            } else {
                let k = choose|k: int| 0 <= k < d.len() && d[k] == x;
                assert(d.push(w)[k] == x);
            }
        }
    }
}

pub fn compute_return_diversity(signals: &[CognitiveSignal], concept: &str) -> (r: u32)
    ensures
        r == diversity_spec(signals@, concept@),
{
    let mut returning: usize = 0;
    let mut distinct: Vec<String> = Vec::new();
    let mut total: u32 = 0;
    let ghost mut all: Seq<Seq<char>> = Seq::empty();
    let mut i: usize = 0;
    while i < signals.len()
        invariant
            i <= signals@.len(),
            returning == returning_count(signals@.take(i as int), concept@),
            returning <= i,
            all == returning_tokens(signals@.take(i as int), concept@),
            strs(distinct@).no_duplicates(),
            strs(distinct@).to_set() == all.to_set(),
            total == if all.len() > u32::MAX { u32::MAX } else { all.len() as u32 },
        decreases signals@.len() - i,
    {
        let ghost pre = signals@.take(i as int);
        assert(signals@.take(i + 1).drop_last() =~= pre);
        assert(signals@.take(i + 1).last() == signals@[i as int]);
        if contains_str(&signals[i].returns_to, concept) {
            returning = returning + 1;
            let words = tokenize(signals[i].raw_content.as_str());
            let ghost base = all;
            let mut k: usize = 0;
            while k < words.len()
                invariant
                    k <= words@.len(),
                    strs(words@) == tokens(signals@[i as int].raw_content@),
                    all == base + strs(words@).take(k as int),
                    strs(distinct@).no_duplicates(),
                    strs(distinct@).to_set() == all.to_set(),
                    total == if all.len() > u32::MAX { u32::MAX } else { all.len() as u32 },
                decreases words@.len() - k,
            {
                let ghost before = all;
                proof {
                    all = all.push(strs(words@)[k as int]);
                    assert(strs(words@).take(k + 1) =~= strs(words@).take(k as int).push(
                        strs(words@)[k as int],
                    ));
                    assert(all.to_set() =~= before.to_set().insert(strs(words@)[k as int])) by {
                        assert forall|x: Seq<char>| all.to_set().contains(x) implies before.to_set().insert(
                            strs(words@)[k as int],
                        ).contains(x) by {
                            let j = choose|j: int| 0 <= j < all.len() && all[j] == x;
                            if j < before.len() {
                                assert(before[j] == x);
                            }
                        }
                        assert forall|x: Seq<char>| before.to_set().insert(
                            strs(words@)[k as int],
                        ).contains(x) implies all.to_set().contains(x) by {
                            if x == strs(words@)[k as int] {
                                assert(all[before.len() as int] == x);
                            } else {
                                let j = choose|j: int| 0 <= j < before.len() && before[j] == x;
                                assert(all[j] == x);
                            }
                        }
                    }
                }
                if !contains_str(&distinct, words[k].as_str()) {
                    let ghost d = strs(distinct@);
                    distinct.push(words[k].clone());
                    proof {
                        lemma_insert_distinct(d, strs(words@)[k as int]);
                        assert(strs(distinct@) =~= d.push(strs(words@)[k as int]));
                    }
                } else {
                    assert(strs(distinct@).to_set().insert(strs(words@)[k as int])
                        =~= strs(distinct@).to_set());
                }
                total = total.saturating_add(1);
                k += 1;
            }
            assert(strs(words@).take(words@.len() as int) =~= strs(words@));
        }
        i += 1;
    }
    assert(signals@.take(i as int) =~= signals@);
    if returning < 2 {
        return 0;
    }
    proof {
        strs(distinct@).unique_seq_to_set();
    }
    #[verifier::truncate]
    let unique = distinct.len() as u32;
    ratio_mass(unique, total)
}

/// `a * b`, saturating at `u32::MAX`.
pub open spec fn sat_mul(a: u32, b: u32) -> u32 {
    if a as int * b as int > u32::MAX as int {
        u32::MAX
    } else {
        (a as int * b as int) as u32
    }
}

fn saturating_mul(a: u32, b: u32) -> (r: u32)
    ensures
        r == sat_mul(a, b),
{
    assert((a as int) * (b as int) <= 0xffff_ffffint * 0xffff_ffffint) by (nonlinear_arith);
    let p: u64 = (a as u64) * (b as u64);
    if p > u32::MAX as u64 {
        u32::MAX
    } else {
        p as u32
    }
}

pub open spec fn cap(x: u32) -> u32 {
    if x > MASS_SCALE {
        MASS_SCALE
    } else {
        x
    }
}

/// The returns signal: how often the signals come back to the most frequent
/// concept, with a bonus for varied wording.
pub open spec fn returns_spec(t: EpistemicTrace) -> (bool, u32) {
    let sigs = t.signals@;
    if sigs.len() < 2 {
        (false, 0)
    } else {
        match most_frequent_spec(t.concept_map@) {
            None => (false, 0),
            Some(dom) => {
                let n = returning_count(sigs, dom) as u32;
                if n < 2 {
                    (false, 0)
                } else {
                    let raw = ratio_spec(n, sigs.len() as u32);
                    let fin = cap(raw.saturating_add(scale_spec(diversity_spec(sigs, dom), 2_000)));
                    (n >= 2 && fin >= 3_500, fin)
                }
            },
        }
    }
}

pub fn check_returns_to_idea(trace: &EpistemicTrace) -> (r: (bool, u32))
    ensures
        r == returns_spec(*trace),
        r.1 <= MASS_SCALE,
{
    if trace.signals.len() < 2 {
        return (false, 0);
    }
    let dominant = match most_frequent_concept(&trace.concept_map) {
        Some(value) => value,
        None => return (false, 0),
    };
    let mut count: usize = 0;
    let mut i: usize = 0;
    while i < trace.signals.len()
        invariant
            i <= trace.signals@.len(),
            count == returning_count(trace.signals@.take(i as int), dominant@),
            count <= i,
        decreases trace.signals@.len() - i,
    {
        assert(trace.signals@.take(i + 1).drop_last() =~= trace.signals@.take(i as int));
        assert(trace.signals@.take(i + 1).last() == trace.signals@[i as int]);
        if contains_str(&trace.signals[i].returns_to, dominant.as_str()) {
            count = count + 1;
        }
        i += 1;
    }
    assert(trace.signals@.take(i as int) =~= trace.signals@);
    #[verifier::truncate]
    let n = count as u32;
    if n < 2 {
        return (false, 0);
    }
    #[verifier::truncate]
    let len = trace.signals.len() as u32;
    let raw = ratio_mass(n, len);
    let diversity = compute_return_diversity(trace.signals.as_slice(), dominant.as_str());
    let sum = raw.saturating_add(scale_product(diversity, 2_000));
    let fin = if sum > MASS_SCALE { MASS_SCALE } else { sum };
    (n >= 2 && fin >= 3_500, fin)
}

pub open spec fn lengths(sigs: Seq<CognitiveSignal>) -> Seq<u32> {
    sigs.map_values(|s: CognitiveSignal| s.content_length)
}

pub open spec fn densities(sigs: Seq<CognitiveSignal>) -> Seq<u32> {
    sigs.map_values(|s: CognitiveSignal| s.idea_density)
}

/// The energy signal: the second half of the energy trajectory against the
/// first, with a bonus when the recent messages grow longer.
pub open spec fn energy_spec(t: EpistemicTrace) -> (bool, u32) {
    let traj = t.energy_trajectory@;
    let sigs = t.signals@;
    if traj.len() < 2 {
        (false, 0)
    } else {
        let half = traj.len() / 2;
        let first = mean_spec(traj.subrange(0, if half > 1 { half as int } else { 1 }));
        let second = mean_spec(traj.subrange(half as int, traj.len() as int));
        if !(second > first) {
            (false, 0)
        } else {
            let delta = (second - first) as u32;
            let raw = cap(sat_mul(delta, 2));
            let count = sigs.len() as int;
            let from = if count >= 3 { count - 3 } else { 0 };
            let split = if from > 1 { from } else { 1 };
            let recent = mean_spec(lengths(sigs.subrange(from, count)));
            let earlier = mean_spec(lengths(sigs.subrange(0, split)));
            let bonus: u32 = if sat_mul(recent, 4) > sat_mul(earlier, 5) { 1_500 } else { 0 };
            let fin = cap(raw.saturating_add(bonus));
            (delta > 500 && fin >= 3_000, fin)
        }
    }
}

pub fn check_energy_increasing(trace: &EpistemicTrace) -> (r: (bool, u32))
    requires
        trace.energy_trajectory@.len() < 2 || trace.signals@.len() > 0,
    ensures
        r == energy_spec(*trace),
        r.1 <= MASS_SCALE,
{
    let trajectory = trace.energy_trajectory.as_slice();
    if trajectory.len() < 2 {
        return (false, 0);
    }
    let half = trajectory.len() / 2;
    let first_end = if half > 1 { half } else { 1 };
    let first_half = mean_range(trajectory, 0, first_end);
    let second_half = mean_range(trajectory, half, trajectory.len());
    if !(second_half > first_half) {
        return (false, 0);
    }
    let delta = second_half - first_half;
    let doubled = saturating_mul(delta, 2);
    let raw = if doubled > MASS_SCALE { MASS_SCALE } else { doubled };
    let count = trace.signals.len();
    let from = if count >= 3 { count - 3 } else { 0 };
    let split = if from > 1 { from } else { 1 };
    let mut lens: Vec<u32> = Vec::new();
    let mut i: usize = 0;
    while i < count
        invariant
            count == trace.signals@.len(),
            i <= count,
            lens@ == lengths(trace.signals@).take(i as int),
        decreases count - i,
    {
        lens.push(trace.signals[i].content_length);
        assert(lengths(trace.signals@).take(i + 1) =~= lengths(trace.signals@).take(i as int).push(
            trace.signals@[i as int].content_length,
        ));
        i += 1;
    }
    assert(lens@ =~= lengths(trace.signals@));
    let recent = mean_range(lens.as_slice(), from, count);
    let earlier = mean_range(lens.as_slice(), 0, split);
    assert(lens@.subrange(from as int, count as int) =~= lengths(
        trace.signals@.subrange(from as int, count as int),
    ));
    assert(lens@.subrange(0, split as int) =~= lengths(trace.signals@.subrange(0, split as int)));
    let bonus: u32 = if saturating_mul(recent, 4) > saturating_mul(earlier, 5) {
        1_500
    } else {
        0
    };
    let sum = raw.saturating_add(bonus);
    let fin = if sum > MASS_SCALE { MASS_SCALE } else { sum };
    (delta > 500 && fin >= 3_000, fin)
}

/// The shape signal: a rising idea density, structural coherence, recurring
/// primitives and productive contradictions, weighted together.
pub open spec fn shape_spec(t: EpistemicTrace) -> (bool, u32) {
    let sigs = t.signals@;
    if sigs.len() < 2 {
        (false, 0)
    } else {
        let trend = trend_spec(densities(sigs));
        let positive: u32 = if trend > 0 { trend as u32 } else { 0 };
        let prims = t.implicit_primitives@.len();
        let primitive_mass = ratio_spec(if prims > 5 { 5 } else { prims as u32 }, 5);
        let contradiction_mass: u32 = if t.contradiction_pairs@.len() == 0 {
            0
        } else {
            MASS_SCALE
        };
        let shape = weighted_spec(
            seq![
                (positive, 3_500u32),
                (t.structural_coherence, 3_500u32),
                (primitive_mass, 2_000u32),
                (contradiction_mass, 1_000u32),
            ],
        );
        (trend > 0 && shape >= 2_800, shape)
    }
}

pub fn check_concept_gaining_shape(trace: &EpistemicTrace) -> (r: (bool, u32))
    requires
        trend_fits(densities(trace.signals@)),
    ensures
        r == shape_spec(*trace),
        r.1 <= MASS_SCALE,
{
    if trace.signals.len() < 2 {
        return (false, 0);
    }
    let mut dens: Vec<u32> = Vec::new();
    let mut i: usize = 0;
    while i < trace.signals.len()
        invariant
            i <= trace.signals@.len(),
            dens@ == densities(trace.signals@).take(i as int),
        decreases trace.signals@.len() - i,
    {
        dens.push(trace.signals[i].idea_density);
        assert(densities(trace.signals@).take(i + 1) =~= densities(trace.signals@).take(
            i as int,
        ).push(trace.signals@[i as int].idea_density));
        i += 1;
    }
    assert(dens@ =~= densities(trace.signals@));
    let trend = compute_trend(dens.as_slice());
    let positive: u32 = if trend > 0 { trend as u32 } else { 0 };
    let prims = trace.implicit_primitives.len();
    let primitive_mass = ratio_mass(if prims > 5 { 5 } else { prims as u32 }, 5);
    let contradiction_mass: u32 = if trace.contradiction_pairs.len() == 0 {
        0
    } else {
        MASS_SCALE
    };
    let terms = [
        (positive, 3_500u32),
        (trace.structural_coherence, 3_500u32),
        (primitive_mass, 2_000u32),
        (contradiction_mass, 1_000u32),
    ];
    let shape = weighted_mass(terms.as_slice());
    assert(terms@ =~= seq![
        (positive, 3_500u32),
        (trace.structural_coherence, 3_500u32),
        (primitive_mass, 2_000u32),
        (contradiction_mass, 1_000u32),
    ]);
    (trend > 0 && shape >= 2_800, shape)
}

/// The detector's thresholds and weights.
#[derive(Debug, Clone, Copy, PartialEq, Eq, Structural)]
pub struct GeniusDetector {
    pub min_turns_before_check: u32,
    pub weight_returns: u32,
    pub weight_energy: u32,
    pub weight_shape: u32,
    pub genius_threshold: u32,
}

/// The default detector: two turns before checking, weights 40/30/30 and a
/// threshold of 58% of the scale.
pub open spec fn default_detector() -> GeniusDetector {
    GeniusDetector {
        min_turns_before_check: 2,
        weight_returns: 4_000,
        weight_energy: 3_000,
        weight_shape: 3_000,
        genius_threshold: 5_800,
    }
}

impl Default for GeniusDetector {
    fn default() -> (r: Self)
        ensures
            r == default_detector(),
    {
        GeniusDetector {
            min_turns_before_check: 2,
            weight_returns: 4_000,
            weight_energy: 3_000,
            weight_shape: 3_000,
            genius_threshold: 5_800,
        }
    }
}

/// The weighted genius score of the three signals.
pub open spec fn genius_score_spec(d: GeniusDetector, t: EpistemicTrace) -> u32 {
    weighted_spec(
        seq![
            (returns_spec(t).1, d.weight_returns),
            (energy_spec(t).1, d.weight_energy),
            (shape_spec(t).1, d.weight_shape),
        ],
    )
}

pub open spec fn active_count(t: EpistemicTrace) -> int {
    (if returns_spec(t).0 { 1int } else { 0int }) + (if energy_spec(t).0 { 1int } else { 0int })
        + (if shape_spec(t).0 { 1int } else { 0int })
}

/// A genius signal is raised once enough turns were taken, at least two
/// of the three signals are active and the weighted score reaches the threshold.
pub open spec fn detects(d: GeniusDetector, t: EpistemicTrace) -> bool {
    &&& t.total_turns >= d.min_turns_before_check
    &&& t.signals@.len() >= 2
    &&& active_count(t) >= 2
    &&& genius_score_spec(d, t) >= d.genius_threshold
}

/// The concept a genius signal names: the dominant concept, else the most
/// frequent one, else nothing.
pub open spec fn detected_concept_spec(t: EpistemicTrace) -> Seq<char> {
    match t.dominant_concept {
        Some(c) => c@,
        None => match most_frequent_spec(t.concept_map@) {
            Some(c) => c,
            None => Seq::empty(),
        },
    }
}

pub open spec fn genius_id_spec(t: EpistemicTrace) -> Seq<char> {
    pd_id_spec(seq![utf8(t.session_id@), le64(t.last_updated_at), utf8("genius"@)])
}

/// `g` is the genius signal the detector reads from the trace.
pub open spec fn genius_of(d: GeniusDetector, t: EpistemicTrace, g: GeniusSignal) -> bool {
    &&& g.signal_id@ == genius_id_spec(t)
    &&& g.session_id@ == t.session_id@
    &&& g.returns_to_idea == returns_spec(t).0
    &&& g.energy_increasing == energy_spec(t).0
    &&& g.concept_gaining_shape == shape_spec(t).0
    &&& g.returns_score == returns_spec(t).1
    &&& g.energy_score == energy_spec(t).1
    &&& g.shape_score == shape_spec(t).1
    &&& g.genius_score == genius_score_spec(d, t)
    &&& g.detected_concept@ == detected_concept_spec(t)
    &&& g.detected_at_turn == t.total_turns
    &&& g.trace_ref@ == t.trace_id@
    &&& g.timestamp == t.last_updated_at
}

impl GeniusDetector {
    pub fn evaluate(&self, trace: &EpistemicTrace) -> (r: Option<GeniusSignal>)
        requires
            trace.total_turns >= self.min_turns_before_check ==> trend_fits(
                densities(trace.signals@),
            ),
        ensures
            r is Some <==> detects(*self, *trace),
            r matches Some(g) ==> genius_of(*self, *trace, g),
    {
        if !(trace.total_turns >= self.min_turns_before_check && trace.signals.len() >= 2) {
            return None;
        }
        let (returns_active, returns_score) = check_returns_to_idea(trace);
        let (energy_active, energy_score) = check_energy_increasing(trace);
        let (shape_active, shape_score) = check_concept_gaining_shape(trace);
        let active: u32 = (if returns_active { 1u32 } else { 0u32 }) + (if energy_active {
            1u32
        } else {
            0u32
        }) + (if shape_active { 1u32 } else { 0u32 });
        if active < 2 {
            return None;
        }
        let terms = [
            (returns_score, self.weight_returns),
            (energy_score, self.weight_energy),
            (shape_score, self.weight_shape),
        ];
        let genius_score = weighted_mass(terms.as_slice());
        assert(terms@ =~= seq![
            (returns_score, self.weight_returns),
            (energy_score, self.weight_energy),
            (shape_score, self.weight_shape),
        ]);
        if genius_score < self.genius_threshold {
            return None;
        }
        let detected_concept = match &trace.dominant_concept {
            Some(concept) => concept.clone(),
            None => match most_frequent_concept(&trace.concept_map) {
                Some(c) => c,
                None => String::new(),
            },
        };
        let ts = trace.last_updated_at;
        let mut ts_bytes: Vec<u8> = Vec::new();
        push_le(&mut ts_bytes, ts, 8);
        let parts: [&[u8]; 3] = [
            trace.session_id.as_str().as_bytes(),
            ts_bytes.as_slice(),
            "genius".as_bytes(),
        ];
        let signal_id = pd_id(parts.as_slice());
        assert(views(parts@) =~= seq![utf8(trace.session_id@), le64(ts), utf8("genius"@)]);
        Some(
            GeniusSignal {
                signal_id,
                session_id: trace.session_id.clone(),
                returns_to_idea: returns_active,
                energy_increasing: energy_active,
                concept_gaining_shape: shape_active,
                returns_score,
                energy_score,
                shape_score,
                genius_score,
                detected_concept,
                detected_at_turn: trace.total_turns,
                trace_ref: trace.trace_id.clone(),
                timestamp: ts,
            },
        )
    }
}

} // verus!
