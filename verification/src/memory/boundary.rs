//! The memory boundary: reasoning modules may only write ephemeral state that
//! dies with the cycle; persistent writes from them are refused and counted.

use vstd::prelude::*;
use crate::assoc::{assoc_map, keys_distinct, lemma_assoc_dom, lemma_assoc_index,
    lemma_assoc_update, lemma_assoc_push, lemma_assoc_len};
use crate::text::{str_eq, owned};

verus! {

/// The error raised when the memory contract is broken.
#[derive(Debug, Clone, PartialEq)]
pub enum MemoryViolation {
    UnauthorizedEphemeralWrite(String),
    UnauthorizedPersistentWrite(String),
    UnknownScope(String),
}

/// The modules allowed to write ephemeral memory.
pub open spec fn ephemeral_writer(caller: Seq<char>) -> bool {
    ||| caller == "QuantumOrchestrator"@
    ||| caller == "QuantumReasoner"@
    ||| caller == "QuantumBridge"@
    ||| caller == "LAB_TRL3"@
    ||| caller == "ELIMINATION"@
    ||| caller == "CONVERGENCE"@
    ||| caller == "ENTRY_POINTS"@
}

/// The only authorities allowed to write persistent memory.
pub open spec fn persistent_writer(caller: Seq<char>) -> bool {
    ||| caller == "shadow_gj_legacy.lgc"@
    ||| caller == "LEGACY_CONTINUUM"@
}

fn is_ephemeral_writer(caller: &str) -> (r: bool)
    ensures
        r == ephemeral_writer(caller@),
{
    str_eq(caller, "QuantumOrchestrator") || str_eq(caller, "QuantumReasoner")
        || str_eq(caller, "QuantumBridge") || str_eq(caller, "LAB_TRL3")
        || str_eq(caller, "ELIMINATION") || str_eq(caller, "CONVERGENCE")
        || str_eq(caller, "ENTRY_POINTS")
}

fn is_persistent_writer(caller: &str) -> (r: bool)
    ensures
        r == persistent_writer(caller@),
{
    str_eq(caller, "shadow_gj_legacy.lgc") || str_eq(caller, "LEGACY_CONTINUUM")
}

/// One ephemeral value and the module that wrote it.
#[derive(Debug, Clone)]
pub struct EphemeralEntry {
    pub value: String,
    pub caller: String,
}

/// The abstract value of an entry: `(value, caller)`.
pub open spec fn entry_view(e: EphemeralEntry) -> (Seq<char>, Seq<char>) {
    (e.value@, e.caller@)
}

/// A key and its entry, as text.
pub open spec fn pair_view(p: (String, EphemeralEntry)) -> (Seq<char>, (Seq<char>, Seq<char>)) {
    (p.0@, entry_view(p.1))
}

/// Ephemeral memory of one cycle: it lives for one cycle only (`ttl == 1`).
pub struct EphemeralStore {
    cycle_id: String,
    data: Vec<(String, EphemeralEntry)>,
    pub ttl: u32,
}

impl EphemeralStore {
    /// The stored pairs as text.
    pub closed spec fn pairs(&self) -> Seq<(Seq<char>, (Seq<char>, Seq<char>))> {
        self.data@.map_values(|p: (String, EphemeralEntry)| pair_view(p))
    }

    /// No key is stored twice.
    pub closed spec fn wf(&self) -> bool {
        keys_distinct(self.pairs())
    }

    /// The store as a map from key to `(value, caller)`.
    pub closed spec fn view(&self) -> Map<Seq<char>, (Seq<char>, Seq<char>)> {
        assoc_map(self.pairs())
    }

    /// How many cycles the stored values live.
    pub closed spec fn lifetime(&self) -> u32 {
        self.ttl
    }

    /// The cycle this store belongs to.
    pub closed spec fn cycle(&self) -> Seq<char> {
        self.cycle_id@
    }

    pub fn new(cycle_id: &str) -> (r: Self)
        ensures
            r.wf(),
            r.view() == Map::<Seq<char>, (Seq<char>, Seq<char>)>::empty(),
            r.cycle() == cycle_id@,
            r.lifetime() == 1,
    {
        let r = EphemeralStore { cycle_id: owned(cycle_id), data: Vec::new(), ttl: 1 };
        assert(r.pairs() =~= Seq::<(Seq<char>, (Seq<char>, Seq<char>))>::empty());
        r
    }

    fn find(&self, key: &str) -> (r: Option<usize>)
        requires
            self.wf(),
        ensures
            match r {
                Some(i) => i < self.data@.len() && self.pairs()[i as int].0 == key@,
                None => !self.view().dom().contains(key@),
            },
    {
        let mut i: usize = 0;
        while i < self.data.len()
            invariant
                i <= self.data@.len(),
                forall|j: int| 0 <= j < i ==> #[trigger] self.pairs()[j].0 != key@,
            decreases self.data@.len() - i,
        {
            if str_eq(self.data[i].0.as_str(), key) {
                return Some(i);
            }
            i += 1;
        }
        proof {
            lemma_assoc_dom(self.pairs(), key@);
        }
        None
    }

    /// Writes `key = value` when `caller` may write ephemeral memory; refuses otherwise.
    pub fn put(&mut self, key: &str, value: &str, caller: &str) -> (r: Result<(), MemoryViolation>)
        requires
            old(self).wf(),
        ensures
            final(self).wf(),
            final(self).cycle() == old(self).cycle(),
            final(self).lifetime() == old(self).lifetime(),
            ephemeral_writer(caller@) ==> r is Ok && final(self).view() == old(self).view().insert(
                key@,
                (value@, caller@),
            ),
            !ephemeral_writer(caller@) ==> final(self).view() == old(self).view() && (
            r matches Err(MemoryViolation::UnauthorizedEphemeralWrite(c)) && c@ == caller@),
    {
        if is_ephemeral_writer(caller) {
            let entry = EphemeralEntry { value: owned(value), caller: owned(caller) };
            let ghost old_pairs = self.pairs();
            match self.find(key) {
                Some(i) => {
                    proof {
                        lemma_assoc_update(old_pairs, i as int, (value@, caller@));
                    }
                    self.data.set(i, (owned(key), entry));
                    assert(self.pairs() =~= old_pairs.update(
                        i as int,
                        (old_pairs[i as int].0, (value@, caller@)),
                    ));
                },
                None => {
                    proof {
                        lemma_assoc_push(old_pairs, key@, (value@, caller@));
                    }
                    self.data.push((owned(key), entry));
                    assert(self.pairs() =~= old_pairs.push((key@, (value@, caller@))));
                },
            }
            Ok(())
        } else {
            Err(MemoryViolation::UnauthorizedEphemeralWrite(owned(caller)))
        }
    }

    /// Reads an entry; every module may read.
    pub fn get(&self, key: &str) -> (r: Option<&EphemeralEntry>)
        requires
            self.wf(),
        ensures
            r is None <==> !self.view().dom().contains(key@),
            r matches Some(e) ==> entry_view(*e) == self.view()[key@],
    {
        match self.find(key) {
            Some(i) => {
                proof {
                    lemma_assoc_index(self.pairs(), i as int);
                }
                Some(&self.data[i].1)
            },
            None => None,
        }
    }

    /// Clears everything at the end of the cycle.
    pub fn flush(&mut self)
        ensures
            final(self).wf(),
            final(self).view() == Map::<Seq<char>, (Seq<char>, Seq<char>)>::empty(),
            final(self).cycle() == old(self).cycle(),
            final(self).lifetime() == old(self).lifetime(),
    {
        self.data.clear();
        assert(self.pairs() =~= Seq::<(Seq<char>, (Seq<char>, Seq<char>))>::empty());
    }

    /// Number of stored keys.
    pub fn len(&self) -> (r: usize)
        requires
            self.wf(),
        ensures
            r == self.view().dom().len(),
    {
        proof {
            lemma_assoc_len(self.pairs());
        }
        self.data.len()
    }

    pub fn is_empty(&self) -> (r: bool)
        requires
            self.wf(),
        ensures
            r == (self.view().dom().len() == 0),
    {
        self.len() == 0
    }

    pub fn cycle_id(&self) -> (r: &str)
        ensures
            r@ == self.cycle(),
    {
        self.cycle_id.as_str()
    }
}

/// The persistent side, seen from reasoning: a guard that refuses and counts.
pub struct PersistentGuard {
    rejected_attempts: u32,
}

impl PersistentGuard {
    /// How many writes were refused.
    pub closed spec fn rejected(&self) -> nat {
        self.rejected_attempts as nat
    }

    pub fn new() -> (r: Self)
        ensures
            r.rejected() == 0,
    {
        PersistentGuard { rejected_attempts: 0 }
    }

    /// Allows the persistent authorities; refuses and counts everyone else.
    pub fn try_write(&mut self, caller: &str) -> (r: Result<(), MemoryViolation>)
        requires
            old(self).rejected() < u32::MAX,
        ensures
            persistent_writer(caller@) ==> r is Ok && final(self).rejected() == old(self).rejected(),
            !persistent_writer(caller@) ==> final(self).rejected() == old(self).rejected() + 1 && (
            r matches Err(MemoryViolation::UnauthorizedPersistentWrite(c)) && c@ == caller@),
    {
        if is_persistent_writer(caller) {
            Ok(())
        } else {
            self.rejected_attempts += 1;
            Err(MemoryViolation::UnauthorizedPersistentWrite(owned(caller)))
        }
    }

    pub fn rejected_count(&self) -> (r: u32)
        ensures
            r == self.rejected(),
    {
        self.rejected_attempts
    }
}

impl Default for PersistentGuard {
    fn default() -> (r: Self)
        ensures
            r.rejected() == 0,
    {
        Self::new()
    }
}

/// Where a write is meant to go.
#[derive(Debug, Clone, Copy, PartialEq, Eq, Structural)]
pub enum MemoryScope {
    Ephemeral,
    Persistent,
}

/// The runtime guard that routes writes by scope.
pub struct MemoryBoundary {
    pub ephemeral: EphemeralStore,
    pub persistent_guard: PersistentGuard,
}

impl MemoryBoundary {
    pub fn new(cycle_id: &str) -> (r: Self)
        ensures
            r.ephemeral.wf(),
            r.ephemeral.view() == Map::<Seq<char>, (Seq<char>, Seq<char>)>::empty(),
            r.ephemeral.cycle() == cycle_id@,
            r.persistent_guard.rejected() == 0,
    {
        MemoryBoundary { ephemeral: EphemeralStore::new(cycle_id), persistent_guard: PersistentGuard::new() }
    }

    /// Ephemeral writes go to the store; persistent writes go to the guard.
    pub fn write(&mut self, scope: MemoryScope, key: &str, value: &str, caller: &str) -> (r: Result<(), MemoryViolation>)
        requires
            old(self).ephemeral.wf(),
            old(self).persistent_guard.rejected() < u32::MAX,
        ensures
            final(self).ephemeral.wf(),
            final(self).ephemeral.cycle() == old(self).ephemeral.cycle(),
            scope == MemoryScope::Ephemeral ==> final(self).persistent_guard.rejected() == old(self).persistent_guard.rejected(),
            scope == MemoryScope::Ephemeral && ephemeral_writer(caller@) ==> r is Ok
                && final(self).ephemeral.view() == old(self).ephemeral.view().insert(key@, (value@, caller@)),
            scope == MemoryScope::Ephemeral && !ephemeral_writer(caller@) ==> final(self).ephemeral.view() == old(self).ephemeral.view()
                && (r matches Err(MemoryViolation::UnauthorizedEphemeralWrite(c)) && c@ == caller@),
            scope == MemoryScope::Persistent ==> final(self).ephemeral.view() == old(self).ephemeral.view(),
            scope == MemoryScope::Persistent && persistent_writer(caller@) ==> r is Ok
                && final(self).persistent_guard.rejected() == old(self).persistent_guard.rejected(),
            scope == MemoryScope::Persistent && !persistent_writer(caller@)
                ==> final(self).persistent_guard.rejected() == old(self).persistent_guard.rejected() + 1
                && (r matches Err(MemoryViolation::UnauthorizedPersistentWrite(c)) && c@ == caller@),
    {
        match scope {
            MemoryScope::Ephemeral => self.ephemeral.put(key, value, caller),
            MemoryScope::Persistent => self.persistent_guard.try_write(caller),
        }
    }

    /// Reads ephemeral memory; persistent memory is never read locally.
    pub fn read(&self, scope: MemoryScope, key: &str) -> (r: Option<String>)
        requires
            self.ephemeral.wf(),
        ensures
            scope == MemoryScope::Persistent ==> r is None,
            scope == MemoryScope::Ephemeral ==> (r is None <==> !self.ephemeral.view().dom().contains(key@)),
            scope == MemoryScope::Ephemeral ==> (r matches Some(v) ==> v@ == self.ephemeral.view()[key@].0),
    {
        match scope {
            MemoryScope::Ephemeral => match self.ephemeral.get(key) {
                Some(e) => Some(e.value.clone()),
                None => None,
            },
            MemoryScope::Persistent => None,
        }
    }

    /// Ends the cycle: ephemeral memory is flushed.
    pub fn end_cycle(&mut self)
        ensures
            final(self).ephemeral.wf(),
            final(self).ephemeral.view() == Map::<Seq<char>, (Seq<char>, Seq<char>)>::empty(),
            final(self).ephemeral.cycle() == old(self).ephemeral.cycle(),
            final(self).persistent_guard.rejected() == old(self).persistent_guard.rejected(),
    {
        self.ephemeral.flush();
    }

    /// `(ephemeral keys, refused persistent writes)`.
    pub fn audit(&self) -> (r: (usize, u32))
        requires
            self.ephemeral.wf(),
        ensures
            r.0 == self.ephemeral.view().dom().len(),
            r.1 == self.persistent_guard.rejected(),
    {
        (self.ephemeral.len(), self.persistent_guard.rejected_count())
    }
}

} // verus!
