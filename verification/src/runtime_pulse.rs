//! The runtime pulse of the reasoning organs. Each organ beats when it really
//! runs (`mark_ready`), fails aloud (`mark_notready`) or declares an empty
//! run (`mark_degraded`); readiness is read from the beat, never presumed.
//! Finished organs also fold their evidence into a light action state whose
//! ledger can be replayed to the same state.

use vstd::prelude::*;

verus! {

/// The organs that beat, one pulse slot each.
#[derive(Debug, Clone, Copy, PartialEq, Eq, Structural)]
pub enum Stage {
    Split,
    Hpro,
    Pro,
    Npro,
    Srk,
    Apro,
    Mpro,
    Pim,
    Npim,
    Hcp,
    Thermal,
    TokenForge,
    NkImport,
    PdContinuum,
}

/// Readiness of an organ as presumption reads it.
#[derive(Debug, Clone, Copy, PartialEq, Eq)]
pub enum GclReadiness {
    Ready,
    NotReady(&'static str),
    Degraded(&'static str),
}

impl GclReadiness {
    pub fn is_ready(&self) -> (r: bool)
        ensures
            r == (*self is Ready),
    {
        match self {
            GclReadiness::Ready => true,
            _ => false,
        }
    }
}

/// The organs that must have really finished before the final package:
/// HPRO, PRO, NPRO, SRK, APRO, MPRO, PIM, NPIM and HCP (bits 1..=9).
pub const REQUIRED_ACTION_MASK: u64 = 0x0000_0000_0000_03FE;

/// Slot index of a stage.
pub open spec fn stage_index(s: Stage) -> nat {
    match s {
        Stage::Split => 0,
        Stage::Hpro => 1,
        Stage::Pro => 2,
        Stage::Npro => 3,
        Stage::Srk => 4,
        Stage::Apro => 5,
        Stage::Mpro => 6,
        Stage::Pim => 7,
        Stage::Npim => 8,
        Stage::Hcp => 9,
        Stage::Thermal => 10,
        Stage::TokenForge => 11,
        Stage::NkImport => 12,
        Stage::PdContinuum => 13,
    }
}

pub fn idx(s: Stage) -> (r: usize)
    ensures
        r == stage_index(s),
        r < 14,
{
    match s {
        Stage::Split => 0,
        Stage::Hpro => 1,
        Stage::Pro => 2,
        Stage::Npro => 3,
        Stage::Srk => 4,
        Stage::Apro => 5,
        Stage::Mpro => 6,
        Stage::Pim => 7,
        Stage::Npim => 8,
        Stage::Hcp => 9,
        Stage::Thermal => 10,
        Stage::TokenForge => 11,
        Stage::NkImport => 12,
        Stage::PdContinuum => 13,
    }
}

/// The required finishing order of the organs, as stage indices.
pub open spec fn required_order() -> Seq<u8> {
    seq![1u8, 2u8, 3u8, 8u8, 4u8, 7u8, 5u8, 6u8, 9u8]
}

/// How many evidence words each required organ produces.
pub open spec fn expected_word_count(stage: u8) -> Option<nat> {
    if stage == 1 {
        Some(5)
    } else if stage == 2 {
        Some(3)
    } else if stage == 3 {
        Some(4)
    } else if stage == 4 {
        Some(6)
    } else if stage == 5 {
        Some(4)
    } else if stage == 6 {
        Some(21)
    } else if stage == 7 {
        Some(6)
    } else if stage == 8 {
        Some(5)
    } else if stage == 9 {
        Some(5)
    } else {
        None
    }
}

fn expected_action_word_count(stage: u8) -> (r: Option<usize>)
    ensures
        r matches Some(n) ==> expected_word_count(stage) == Some(n as nat),
        r is None ==> expected_word_count(stage) is None,
{
    match stage {
        1 => Some(5),
        2 => Some(3),
        3 => Some(4),
        4 => Some(6),
        5 => Some(4),
        6 => Some(21),
        7 => Some(6),
        8 => Some(5),
        9 => Some(5),
        _ => None,
    }
}

/// Left rotation of a 64-bit word by `k` bits, `1 <= k <= 63`.
pub open spec fn rotl(x: u64, k: u32) -> u64 {
    (x << k) | (x >> ((64 - k) as u32))
}

pub fn rotate_left(x: u64, k: u32) -> (r: u64)
    requires
        1 <= k <= 63,
    ensures
        r == rotl(x, k),
{
    (x << k) | (x >> (64 - k))
}

/// The word a stage contributes: `(index + 1) * golden ratio` modulo 2^64.
pub open spec fn stage_word_of(index: u8) -> u64 {
    (((index as u64) + 1) as u64).wrapping_mul(0x9E37_79B9_7F4A_7C15)
}

/// The word of a stage.
pub fn stage_word(stage: Stage) -> (r: u64)
    ensures
        r == stage_word_of(stage_index(stage) as u8),
{
    (idx(stage) as u64 + 1).wrapping_mul(0x9E37_79B9_7F4A_7C15)
}

/// One step of word convergence at position `index`.
pub open spec fn converge_step(state: u64, index: int, word: u64) -> u64 {
    rotl(state, (((index as u32) % 47) + 5) as u32) ^ rotl(word, (((index as u32) % 31) + 1) as u32).wrapping_add(
        0x3C6E_F372_FE94_F82B ^ (index as u64),
    )
}

/// Light convergence of evidence words: rotations, xor and wrapping additions only.
pub open spec fn converge(words: Seq<u64>) -> u64
    decreases words.len(),
{
    if words.len() == 0 {
        0x6A09_E667_F3BC_C909
    } else {
        converge_step(converge(words.drop_last()), words.len() - 1, words.last())
    }
}

pub fn converge_words(words: &[u64]) -> (r: u64)
    ensures
        r == converge(words@),
{
    let mut state: u64 = 0x6A09_E667_F3BC_C909;
    let mut i: usize = 0;
    while i < words.len()
        invariant
            i <= words@.len(),
            state == converge(words@.take(i as int)),
        decreases words@.len() - i,
    {
        let k: u32 = #[verifier::truncate] (i as u32);
        let a = rotate_left(state, (k % 47) + 5);
        let b = rotate_left(words[i], (k % 31) + 1);
        state = a ^ b.wrapping_add(0x3C6E_F372_FE94_F82B ^ (i as u64));
        assert(words@.take(i + 1).drop_last() =~= words@.take(i as int));
        i += 1;
    }
    assert(words@.take(i as int) =~= words@);
    state
}

/// The evidence an organ produced when it finished.
#[derive(Debug, PartialEq, Eq)]
pub struct ActionEvidence {
    pub stage: u8,
    pub evidence_words: Vec<u64>,
}

/// The abstract value of an evidence entry.
pub open spec fn evidence_view(e: ActionEvidence) -> (u8, Seq<u64>) {
    (e.stage, e.evidence_words@)
}

/// Folds one evidence entry into `(state, mask)`.
pub open spec fn replay_step(acc: (u64, u64), e: (u8, Seq<u64>)) -> (u64, u64) {
    let contribution = converge(e.1) ^ stage_word_of(e.0);
    (
        rotl(rotl(acc.0, 11).wrapping_add(contribution), 7),
        acc.1 | (1u64 << (e.0 as u64)),
    )
}

/// The `(state, mask)` that a ledger replays to.
pub open spec fn replay(entries: Seq<(u8, Seq<u64>)>) -> (u64, u64)
    decreases entries.len(),
{
    if entries.len() == 0 {
        (0, 0)
    } else {
        replay_step(replay(entries.drop_last()), entries.last())
    }
}

/// The views of a slice of evidence.
pub open spec fn evidence_views(s: Seq<ActionEvidence>) -> Seq<(u8, Seq<u64>)> {
    s.map_values(|e: ActionEvidence| evidence_view(e))
}

/// Replays a ledger to its `(state, mask)`.
pub fn replay_action_evidence(evidence: &[ActionEvidence]) -> (r: (u64, u64))
    requires
        forall|i: int| 0 <= i < evidence@.len() ==> (#[trigger] evidence@[i]).stage < 64,
    ensures
        r == replay(evidence_views(evidence@)),
{
    let ghost views = evidence_views(evidence@);
    let mut state: u64 = 0;
    let mut mask: u64 = 0;
    let mut i: usize = 0;
    while i < evidence.len()
        invariant
            i <= evidence@.len(),
            views == evidence_views(evidence@),
            forall|j: int| 0 <= j < evidence@.len() ==> (#[trigger] evidence@[j]).stage < 64,
            (state, mask) == replay(views.take(i as int)),
        decreases evidence@.len() - i,
    {
        let e = &evidence[i];
        let contribution = converge_words(e.evidence_words.as_slice()) ^ (e.stage as u64 + 1).wrapping_mul(
            0x9E37_79B9_7F4A_7C15,
        );
        state = rotate_left(rotate_left(state, 11).wrapping_add(contribution), 7);
        mask = mask | (1u64 << (e.stage as u64));
        assert(views.take(i + 1).drop_last() =~= views.take(i as int));
        i += 1;
    }
    assert(views.take(i as int) =~= views);
    (state, mask)
}

/// Evidence entries follow the required order with the expected word counts.
pub open spec fn schema_spec(e: Seq<(u8, Seq<u64>)>) -> bool {
    &&& e.len() == required_order().len()
    &&& forall|i: int| 0 <= i < e.len() ==> (#[trigger] e[i]).0 == required_order()[i]
        && expected_word_count(e[i].0) == Some(e[i].1.len())
}

fn schema_matches(evidence: &Vec<ActionEvidence>) -> (r: bool)
    ensures
        r == schema_spec(evidence_views(evidence@)),
{
    let ghost v = evidence_views(evidence@);
    let order: [u8; 9] = [1, 2, 3, 8, 4, 7, 5, 6, 9];
    assert(order@ =~= required_order());
    if evidence.len() != 9 {
        return false;
    }
    let mut i: usize = 0;
    while i < 9
        invariant
            evidence@.len() == 9,
            v == evidence_views(evidence@),
            order@ == required_order(),
            i <= 9,
            forall|j: int| 0 <= j < i ==> (#[trigger] v[j]).0 == required_order()[j]
                && expected_word_count(v[j].0) == Some(v[j].1.len()),
        decreases 9 - i,
    {
        let e = &evidence[i];
        assert(v[i as int] == evidence_view(evidence@[i as int]));
        let ok = e.stage == order[i] && match expected_action_word_count(e.stage) {
            Some(n) => n == e.evidence_words.len(),
            None => false,
        };
        if !ok {
            return false;
        }
        i += 1;
    }
    true
}

/// The pulse of every organ plus the light action state and its ledger.
pub struct RuntimePulse {
    pulse: Vec<u8>,
    action_state: u64,
    action_mask: u64,
    ledger: Vec<ActionEvidence>,
}

/// Pulse codes.
pub open spec fn pulse_readiness(code: u8) -> GclReadiness {
    if code == 1 {
        GclReadiness::Ready
    } else if code == 2 {
        GclReadiness::NotReady("dështoi në runtime — shih rrjedha_ledger")
    } else if code == 3 {
        GclReadiness::Degraded("bosh i deklaruar në runtime (rrugë e vjetër)")
    } else {
        GclReadiness::Degraded("s'ka rrahur ende në këtë proces")
    }
}

impl RuntimePulse {
    /// The pulse code of each slot: 0 not beaten, 1 ready, 2 not ready, 3 declared empty.
    pub closed spec fn codes(&self) -> Seq<u8> {
        self.pulse@
    }

    /// The light action state.
    pub closed spec fn state(&self) -> u64 {
        self.action_state
    }

    /// The mask of organs that finished.
    pub closed spec fn mask(&self) -> u64 {
        self.action_mask
    }

    /// The ledger of finished organs, in finishing order.
    pub closed spec fn entries(&self) -> Seq<(u8, Seq<u64>)> {
        evidence_views(self.ledger@)
    }

    /// Fourteen slots, stage indices below 14, and the ledger replays to the live state.
    pub closed spec fn wf(&self) -> bool {
        &&& self.pulse@.len() == 14
        &&& forall|i: int| 0 <= i < self.ledger@.len() ==> (#[trigger] self.ledger@[i]).stage < 14
        &&& (self.action_state, self.action_mask) == replay(evidence_views(self.ledger@))
    }

    /// A well-formed pulse has one slot for each of the fourteen stages.
    pub proof fn lemma_fourteen_slots(&self)
        requires
            self.wf(),
        ensures
            self.codes().len() == 14,
    {
    }

    /// A fresh process: nothing has beaten, nothing has finished.
    pub fn new() -> (r: Self)
        ensures
            r.wf(),
            r.codes() == Seq::new(14, |i: int| 0u8),
            r.state() == 0,
            r.mask() == 0,
            r.entries().len() == 0,
    {
        let mut pulse: Vec<u8> = Vec::new();
        let mut i: usize = 0;
        while i < 14
            invariant
                i <= 14,
                pulse@ == Seq::new(i as nat, |j: int| 0u8),
            decreases 14 - i,
        {
            pulse.push(0);
            assert(pulse@ =~= Seq::new((i + 1) as nat, |j: int| 0u8));
            i += 1;
        }
        let r = RuntimePulse { pulse, action_state: 0, action_mask: 0, ledger: Vec::new() };
        assert(evidence_views(r.ledger@) =~= Seq::<(u8, Seq<u64>)>::empty());
        r
    }

    /// Starts a new cycle: distrust is the default, nothing is inherited.
    pub fn begin_cycle(&mut self)
        requires
            old(self).wf(),
        ensures
            final(self).wf(),
            final(self).codes() == Seq::new(14, |i: int| 0u8),
            final(self).state() == 0,
            final(self).mask() == 0,
            final(self).entries().len() == 0,
            !final(self).convergence_complete_spec(),
    {
        let mut i: usize = 0;
        while i < 14
            invariant
                i <= 14,
                self.pulse@.len() == 14,
                forall|j: int| 0 <= j < i ==> self.pulse@[j] == 0u8,
            decreases 14 - i,
        {
            self.pulse.set(i, 0);
            i += 1;
        }
        assert(self.pulse@ =~= Seq::new(14, |i: int| 0u8));
        self.action_state = 0;
        self.action_mask = 0;
        self.ledger.clear();
        assert(evidence_views(self.ledger@) =~= Seq::<(u8, Seq<u64>)>::empty());
    }

    fn set_pulse(&mut self, s: Stage, code: u8)
        requires
            old(self).wf(),
        ensures
            final(self).wf(),
            final(self).codes().len() == 14,
            final(self).codes() == old(self).codes().update(stage_index(s) as int, code),
            final(self).codes()[stage_index(s) as int] == code,
            final(self).state() == old(self).state(),
            final(self).mask() == old(self).mask(),
            final(self).entries() == old(self).entries(),
    {
        let i = idx(s);
        self.pulse.set(i, code);
    }

    /// The organ beat successfully.
    pub fn mark_ready(&mut self, s: Stage)
        requires
            old(self).wf(),
        ensures
            final(self).wf(),
            final(self).codes().len() == 14,
            final(self).codes() == old(self).codes().update(stage_index(s) as int, 1u8),
            final(self).codes()[stage_index(s) as int] == 1u8,
            final(self).state() == old(self).state(),
            final(self).mask() == old(self).mask(),
            final(self).entries() == old(self).entries(),
    {
        self.set_pulse(s, 1);
    }

    /// The organ really failed.
    pub fn mark_notready(&mut self, s: Stage)
        requires
            old(self).wf(),
        ensures
            final(self).wf(),
            final(self).codes().len() == 14,
            final(self).codes() == old(self).codes().update(stage_index(s) as int, 2u8),
            final(self).codes()[stage_index(s) as int] == 2u8,
            final(self).state() == old(self).state(),
            final(self).mask() == old(self).mask(),
            final(self).entries() == old(self).entries(),
    {
        self.set_pulse(s, 2);
    }

    /// The organ ran but declared an empty result.
    pub fn mark_degraded(&mut self, s: Stage)
        requires
            old(self).wf(),
        ensures
            final(self).wf(),
            final(self).codes().len() == 14,
            final(self).codes() == old(self).codes().update(stage_index(s) as int, 3u8),
            final(self).codes()[stage_index(s) as int] == 3u8,
            final(self).state() == old(self).state(),
            final(self).mask() == old(self).mask(),
            final(self).entries() == old(self).entries(),
    {
        self.set_pulse(s, 3);
    }

    /// Records the real finish of an organ and folds its evidence into the action state.
    pub fn mark_action(&mut self, stage: Stage, evidence_words: &[u64])
        requires
            old(self).wf(),
        ensures
            final(self).wf(),
            final(self).codes().len() == 14,
            final(self).codes() == old(self).codes().update(stage_index(stage) as int, 1u8),
            final(self).codes()[stage_index(stage) as int] == 1u8,
            final(self).entries() == old(self).entries().push((stage_index(stage) as u8, evidence_words@)),
            (final(self).state(), final(self).mask()) == replay_step(
                (old(self).state(), old(self).mask()),
                (stage_index(stage) as u8, evidence_words@),
            ),
    {
        self.mark_ready(stage);
        let ghost before = self.ledger@;
        let contribution = converge_words(evidence_words) ^ stage_word(stage);
        self.action_state = rotate_left(rotate_left(self.action_state, 11).wrapping_add(contribution), 7);
        let i = idx(stage);
        self.action_mask = self.action_mask | (1u64 << (i as u64));
        let mut words: Vec<u64> = Vec::new();
        let mut k: usize = 0;
        while k < evidence_words.len()
            invariant
                k <= evidence_words@.len(),
                words@ == evidence_words@.take(k as int),
            decreases evidence_words@.len() - k,
        {
            words.push(evidence_words[k]);
            assert(evidence_words@.take(k + 1) =~= evidence_words@.take(k as int).push(evidence_words@[k as int]));
            k += 1;
        }
        assert(evidence_words@.take(k as int) =~= evidence_words@);
        self.ledger.push(ActionEvidence { stage: i as u8, evidence_words: words });
        assert(evidence_views(self.ledger@) =~= evidence_views(before).push((i as u8, evidence_words@)));
        assert(evidence_views(self.ledger@).drop_last() =~= evidence_views(before));
    }

    pub fn action_state(&self) -> (r: u64)
        ensures
            r == self.state(),
    {
        self.action_state
    }

    pub fn action_mask(&self) -> (r: u64)
        ensures
            r == self.mask(),
    {
        self.action_mask
    }

    /// A copy of the ledger.
    pub fn action_evidence(&self) -> (r: Vec<ActionEvidence>)
        requires
            self.wf(),
        ensures
            evidence_views(r@) == self.entries(),
            forall|i: int| 0 <= i < r@.len() ==> (#[trigger] r@[i]).stage < 14,
    {
        let mut out: Vec<ActionEvidence> = Vec::new();
        let mut i: usize = 0;
        while i < self.ledger.len()
            invariant
                i <= self.ledger@.len(),
                forall|j: int| 0 <= j < self.ledger@.len() ==> (#[trigger] self.ledger@[j]).stage < 14,
                forall|j: int| 0 <= j < out@.len() ==> (#[trigger] out@[j]).stage < 14,
                evidence_views(out@) == evidence_views(self.ledger@).take(i as int),
            decreases self.ledger@.len() - i,
        {
            let e = &self.ledger[i];
            let mut words: Vec<u64> = Vec::new();
            let mut k: usize = 0;
            while k < e.evidence_words.len()
                invariant
                    k <= e.evidence_words@.len(),
                    words@ == e.evidence_words@.take(k as int),
                decreases e.evidence_words@.len() - k,
            {
                words.push(e.evidence_words[k]);
                assert(e.evidence_words@.take(k + 1) =~= e.evidence_words@.take(k as int).push(
                    e.evidence_words@[k as int],
                ));
                k += 1;
            }
            assert(e.evidence_words@.take(k as int) =~= e.evidence_words@);
            let ghost before = out@;
            out.push(ActionEvidence { stage: e.stage, evidence_words: words });
            assert(evidence_views(out@) =~= evidence_views(before).push(evidence_view(self.ledger@[i as int])));
            assert(evidence_views(self.ledger@).take(i + 1) =~= evidence_views(self.ledger@).take(
                i as int,
            ).push(evidence_view(self.ledger@[i as int])));
            i += 1;
        }
        assert(evidence_views(self.ledger@).take(i as int) =~= evidence_views(self.ledger@));
        out
    }

    /// Every required organ finished, in the required order, with the
    /// expected amount of evidence, and the ledger replays to the live state.
    pub open spec fn convergence_complete_spec(&self) -> bool {
        let e = self.entries();
        &&& schema_spec(e)
        &&& replay(e) == (self.state(), self.mask())
        &&& self.state() != 0
        &&& self.mask() == REQUIRED_ACTION_MASK
    }

    pub fn action_convergence_complete(&self) -> (r: bool)
        requires
            self.wf(),
        ensures
            r == self.convergence_complete_spec(),
    {
        let evidence = self.action_evidence();
        let schema_ok = schema_matches(&evidence);
        let replayed = replay_action_evidence(evidence.as_slice());
        self.action_state != 0 && self.action_mask == REQUIRED_ACTION_MASK
            && replayed.0 == self.action_state && replayed.1 == self.action_mask && schema_ok
    }

    /// The readiness of one organ, read from its pulse.
    pub fn read(&self, s: Stage) -> (r: GclReadiness)
        requires
            self.wf(),
        ensures
            r == pulse_readiness(self.codes()[stage_index(s) as int]),
    {
        match self.pulse[idx(s)] {
            1 => GclReadiness::Ready,
            2 => GclReadiness::NotReady("dështoi në runtime — shih rrjedha_ledger"),
            3 => GclReadiness::Degraded("bosh i deklaruar në runtime (rrugë e vjetër)"),
            _ => GclReadiness::Degraded("s'ka rrahur ende në këtë proces"),
        }
    }

    pub fn split_status(&self) -> (r: GclReadiness)
        requires self.wf(),
        ensures r == pulse_readiness(self.codes()[0]),
    {
        self.read(Stage::Split)
    }

    pub fn hpro_status(&self) -> (r: GclReadiness)
        requires self.wf(),
        ensures r == pulse_readiness(self.codes()[1]),
    {
        self.read(Stage::Hpro)
    }

    pub fn pro_status(&self) -> (r: GclReadiness)
        requires self.wf(),
        ensures r == pulse_readiness(self.codes()[2]),
    {
        self.read(Stage::Pro)
    }

    pub fn npro_status(&self) -> (r: GclReadiness)
        requires self.wf(),
        ensures r == pulse_readiness(self.codes()[3]),
    {
        self.read(Stage::Npro)
    }

    pub fn srk_status(&self) -> (r: GclReadiness)
        requires self.wf(),
        ensures r == pulse_readiness(self.codes()[4]),
    {
        self.read(Stage::Srk)
    }

    pub fn apro_status(&self) -> (r: GclReadiness)
        requires self.wf(),
        ensures r == pulse_readiness(self.codes()[5]),
    {
        self.read(Stage::Apro)
    }

    pub fn mpro_status(&self) -> (r: GclReadiness)
        requires self.wf(),
        ensures r == pulse_readiness(self.codes()[6]),
    {
        self.read(Stage::Mpro)
    }

    pub fn pim_status(&self) -> (r: GclReadiness)
        requires self.wf(),
        ensures r == pulse_readiness(self.codes()[7]),
    {
        self.read(Stage::Pim)
    }

    pub fn npim_status(&self) -> (r: GclReadiness)
        requires self.wf(),
        ensures r == pulse_readiness(self.codes()[8]),
    {
        self.read(Stage::Npim)
    }

    pub fn hcp_status(&self) -> (r: GclReadiness)
        requires self.wf(),
        ensures r == pulse_readiness(self.codes()[9]),
    {
        self.read(Stage::Hcp)
    }

    pub fn nk_status(&self) -> (r: GclReadiness)
        requires self.wf(),
        ensures r == pulse_readiness(self.codes()[12]),
    {
        self.read(Stage::NkImport)
    }

    pub fn pd_continuum_status(&self) -> (r: GclReadiness)
        requires self.wf(),
        ensures r == pulse_readiness(self.codes()[13]),
    {
        self.read(Stage::PdContinuum)
    }

    /// The thermal sensor is only real with the hardware kernel, which this
    /// library is not built with: its reading is nominal.
    pub fn thermal_status(&self) -> (r: GclReadiness)
        ensures
            r == GclReadiness::Degraded("hw_kernel joaktiv — leximi termik nominal"),
    {
        GclReadiness::Degraded("hw_kernel joaktiv — leximi termik nominal")
    }
}

/// The hardware kernel is a compile-time fact, never an environment claim;
/// this library is built without it.
pub fn hw_kernel_status() -> (r: GclReadiness)
    ensures
        r == GclReadiness::Degraded(
            "hw_kernel joaktiv në kompilim — sensorë nominalë (env-i NUK e falsifikon)",
        ),
{
    GclReadiness::Degraded("hw_kernel joaktiv në kompilim — sensorë nominalë (env-i NUK e falsifikon)")
}

/// The ledger always replays to the live action state: whatever organs
/// finish, in any order, replaying their evidence reproduces `(state, mask)`.
pub proof fn lemma_ledger_replays(p: RuntimePulse)
    requires
        p.wf(),
    ensures
        replay(p.entries()) == (p.state(), p.mask()),
{
}


/// Action convergence is complete only for the full ledger in the required
/// order: exactly nine entries, for HPRO, PRO, NPRO, NPIM, SRK, PIM, APRO,
/// MPRO and HCP in that order (stages 1, 2, 3, 8, 4, 7, 5, 6, 9), carrying
/// 5, 3, 4, 5, 6, 6, 4, 21 and 5 evidence words; the mask then holds exactly
/// those nine organs and the state is non-zero.
pub proof fn law_convergence_needs_the_required_order(p: RuntimePulse)
    requires
        p.convergence_complete_spec(),
    ensures
        p.entries().len() == 9,
        forall|k: int| 0 <= k < 9 ==> (#[trigger] p.entries()[k]).0 == seq![1u8, 2u8, 3u8, 8u8, 4u8, 7u8, 5u8, 6u8, 9u8][k],
        forall|k: int| 0 <= k < 9 ==> (#[trigger] p.entries()[k]).1.len() == seq![5nat, 3nat, 4nat, 5nat, 6nat, 6nat, 4nat, 21nat, 5nat][k],
        p.mask() == 0x3FE,
        p.state() != 0,
{
    let e = p.entries();
    assert forall|k: int| 0 <= k < 9 implies (#[trigger] e[k]).0 == seq![1u8, 2u8, 3u8, 8u8, 4u8, 7u8, 5u8, 6u8, 9u8][k]
        && e[k].1.len() == seq![5nat, 3nat, 4nat, 5nat, 6nat, 6nat, 4nat, 21nat, 5nat][k] by {
        assert(e[k].0 == required_order()[k]);
        assert(expected_word_count(e[k].0) == Some(e[k].1.len()));
    }
}


/// Conversely, the full ledger in the required order, with the expected
/// evidence word counts, replaying to a non-zero state over exactly the nine
/// required organs, is complete convergence.
pub proof fn law_required_order_converges(p: RuntimePulse)
    requires
        p.entries().len() == 9,
        forall|k: int| 0 <= k < 9 ==> (#[trigger] p.entries()[k]).0 == seq![1u8, 2u8, 3u8, 8u8, 4u8, 7u8, 5u8, 6u8, 9u8][k],
        forall|k: int| 0 <= k < 9 ==> (#[trigger] p.entries()[k]).1.len() == seq![5nat, 3nat, 4nat, 5nat, 6nat, 6nat, 4nat, 21nat, 5nat][k],
        replay(p.entries()) == (p.state(), p.mask()),
        p.state() != 0,
        p.mask() == 0x3FE,
    ensures
        p.convergence_complete_spec(),
{
    let e = p.entries();
    assert forall|k: int| 0 <= k < e.len() implies (#[trigger] e[k]).0 == required_order()[k]
        && expected_word_count(e[k].0) == Some(e[k].1.len()) by {
        assert(e[k].0 == seq![1u8, 2u8, 3u8, 8u8, 4u8, 7u8, 5u8, 6u8, 9u8][k]);
        assert(e[k].1.len() == seq![5nat, 3nat, 4nat, 5nat, 6nat, 6nat, 4nat, 21nat, 5nat][k]);
    }
}

} // verus!
