//! The singleton directory: runtime-discovered objects by type name.
//!
//! During a bounded discovery window, an observation hook on the common
//! object constructor reports the address of every object being built; the
//! directory keeps them as a deduplicated pending set. When the host
//! signals that the main object has been constructed, the embedding
//! program reads each pending candidate's run-time type name through its
//! type-descriptor chain and hands the outcomes back: resolvable
//! candidates become `(type_name, address)` entries, unresolvable ones are
//! dropped, and the pending set is cleared — discovery is one-shot and its
//! memory is bounded. Lookups answer only after that resolution step: a
//! partially built directory is never exposed.

use vstd::prelude::*;

use crate::table::{distinct_names, table_insert, table_lookup, table_map};

verus! {

/// Where the directory stands in its one-shot life.
#[derive(Debug, Clone, Copy, PartialEq, Eq, Structural)]
pub enum DirectoryState {
    Idle,
    Observing,
    Resolved,
}

/// The directory as its contracts see it.
#[verifier::ext_equal]
pub ghost struct DirectoryModel {
    pub state: DirectoryState,
    pub pending: Seq<u64>,
    pub singletons: Map<Seq<char>, u64>,
}

/// The map after resolution: each candidate whose type name was read
/// successfully is inserted in order, overwriting an earlier entry of the
/// same name; candidates without a name are dropped.
pub open spec fn resolved_map(
    m: Map<Seq<char>, u64>,
    candidates: Seq<u64>,
    names: Seq<Option<String>>,
) -> Map<Seq<char>, u64>
    decreases candidates.len(),
{
    if candidates.len() == 0 {
        m
    } else {
        let prev = resolved_map(m, candidates.drop_last(), names.drop_last());
        match names.last() {
            Option::Some(s) => prev.insert(s@, candidates.last()),
            Option::None => prev,
        }
    }
}

/// The singleton directory.
pub struct SingletonManager {
    state: DirectoryState,
    pending: Vec<u64>,
    singletons: Vec<(String, u64)>,
}

impl View for SingletonManager {
    type V = DirectoryModel;

    closed spec fn view(&self) -> DirectoryModel {
        DirectoryModel {
            state: self.state,
            pending: self.pending@,
            singletons: table_map(self.singletons@),
        }
    }
}

impl SingletonManager {
    /// Well-formedness: pending candidates and resolved names are each
    /// free of duplicates.
    pub closed spec fn wf(&self) -> bool {
        &&& distinct_names(self.singletons@)
        &&& forall|i: int, j: int|
            0 <= i < j < self.pending@.len() ==> self.pending@[i] != self.pending@[j]
    }

    /// A directory that has not started observing.
    pub fn new() -> (r: SingletonManager)
        ensures
            r.wf(),
            r@.state == DirectoryState::Idle,
            r@.pending == Seq::<u64>::empty(),
            r@.singletons == Map::<Seq<char>, u64>::empty(),
    {
        let r = SingletonManager {
            state: DirectoryState::Idle,
            pending: Vec::new(),
            singletons: Vec::new(),
        };
        proof {
            assert(r@.singletons =~= Map::<Seq<char>, u64>::empty());
        }
        r
    }

    /// The directory's state.
    pub fn state(&self) -> (s: DirectoryState)
        ensures
            s == self@.state,
    {
        self.state
    }

    /// Start the discovery window. Called once the constructor hook is in
    /// place.
    pub fn begin_observing(&mut self)
        requires
            old(self).wf(),
            old(self)@.state == DirectoryState::Idle,
        ensures
            final(self).wf(),
            final(self)@ == (DirectoryModel {
                state: DirectoryState::Observing,
                ..old(self)@
            }),
    {
        self.state = DirectoryState::Observing;
        proof {
            assert(self@ =~= (DirectoryModel { state: DirectoryState::Observing, ..old(self)@ }));
        }
    }

    /// Record one constructed object's address. During the discovery
    /// window the address joins the pending set, once; at any other time,
    /// or when it is already pending, nothing changes.
    pub fn record_candidate(&mut self, addr: u64)
        requires
            old(self).wf(),
        ensures
            final(self).wf(),
            final(self)@.state == old(self)@.state,
            final(self)@.singletons == old(self)@.singletons,
            final(self)@.pending == if old(self)@.state == DirectoryState::Observing && !old(
                self,
            )@.pending.contains(addr) {
                old(self)@.pending.push(addr)
            } else {
                old(self)@.pending
            },
    {
        if !matches!(self.state, DirectoryState::Observing) {
            return ;
        }
        let n = self.pending.len();
        let mut i: usize = 0;
        while i < n
            invariant
                self.wf(),
                self@ == old(self)@,
                self@.state == DirectoryState::Observing,
                n == self.pending@.len(),
                i <= n,
                forall|j: int| 0 <= j < i ==> self.pending@[j] != addr,
            decreases n - i,
        {
            if self.pending[i] == addr {
                return ;
            }
            i += 1;
        }
        self.pending.push(addr);
    }

    /// The pending candidates, in the order they were recorded.
    pub fn pending_candidates(&self) -> (r: &Vec<u64>)
        ensures
            r@ == self@.pending,
    {
        &self.pending
    }

    /// Close the discovery window with the type names the embedding
    /// program read for the pending candidates, index for index: `None`
    /// marks a candidate whose descriptor or name could not be read, and
    /// such candidates are dropped. Every named candidate is inserted; the
    /// pending set is cleared; lookups are answered from here on.
    pub fn parse_singletons(&mut self, names: &Vec<Option<String>>)
        requires
            old(self).wf(),
            names@.len() == old(self)@.pending.len(),
        ensures
            final(self).wf(),
            final(self)@.state == DirectoryState::Resolved,
            final(self)@.pending == Seq::<u64>::empty(),
            final(self)@.singletons == resolved_map(
                old(self)@.singletons,
                old(self)@.pending,
                names@,
            ),
    {
        let ghost initial_map = self@.singletons;
        let ghost candidates = self.pending@;
        let n = self.pending.len();
        let mut k: usize = 0;
        while k < n
            invariant
                self.wf(),
                n == candidates.len(),
                n == names@.len(),
                k <= n,
                self.pending@ == candidates,
                self@.singletons == resolved_map(
                    initial_map,
                    candidates.take(k as int),
                    names@.take(k as int),
                ),
            decreases n - k,
        {
            proof {
                assert(candidates.take(k + 1).drop_last() =~= candidates.take(k as int));
                assert(names@.take(k + 1).drop_last() =~= names@.take(k as int));
                assert(candidates.take(k + 1).last() == candidates[k as int]);
                assert(names@.take(k + 1).last() == names@[k as int]);
            }
            let addr = self.pending[k];
            match &names[k] {
                Option::Some(s) => {
                    table_insert(&mut self.singletons, s.as_str(), addr);
                },
                Option::None => {},
            }
            k += 1;
        }
        proof {
            assert(candidates.take(n as int) =~= candidates);
            assert(names@.take(n as int) =~= names@);
        }
        self.pending = Vec::new();
        self.state = DirectoryState::Resolved;
    }

    /// Look a type name up. Before the directory is resolved every lookup
    /// misses: a partially populated directory is never exposed.
    pub fn get_address_by_name(&self, name: &str) -> (r: Option<u64>)
        requires
            self.wf(),
        ensures
            match r {
                Option::Some(addr) => self@.state == DirectoryState::Resolved
                    && self@.singletons.contains_key(name@) && self@.singletons[name@] == addr,
                Option::None => self@.state != DirectoryState::Resolved
                    || !self@.singletons.contains_key(name@),
            },
    {
        if !matches!(self.state, DirectoryState::Resolved) {
            return None;
        }
        table_lookup(&self.singletons, name)
    }

    /// How many singletons are known.
    pub fn resolved_count(&self) -> (n: usize)
        requires
            self.wf(),
        ensures
            n == self@.singletons.dom().len(),
    {
        proof {
            crate::table::lemma_table_map_len(self.singletons@);
        }
        self.singletons.len()
    }
}

} // verus!
