//! Bookkeeping for the function-interception layer.
//!
//! A hook redirects or observes execution at one target address. At most
//! one hook may be active per target — hooks do not stack — and a
//! replacement hook keeps the original entry callable through a
//! trampoline. Patching code and building the trampoline are the
//! embedding program's platform work; this table is the single record of
//! what is installed, and its contracts keep it consistent: nothing is
//! installed twice, and only a replacement hook answers for the original.

use vstd::prelude::*;

verus! {

/// The two ways to intercept: replace the entry (the original stays
/// callable through the trampoline) or observe mid-function and resume.
#[derive(Debug, Clone, Copy, PartialEq, Eq, Structural)]
pub enum HookKind {
    Replacement,
    Observation,
}

/// How a hook operation can fail. Failures of the underlying trampoline
/// mechanism are reported by the embedding program with their own text.
#[derive(Debug, Clone)]
pub enum HookError {
    AlreadyHooked,
    NotHooked,
    Trampoline(String),
}

/// One active hook: its target address, its kind, and the address through
/// which the original code stays callable (meaningful for a replacement).
#[derive(Debug, Clone, Copy, PartialEq, Eq, Structural)]
pub struct HookEntry {
    pub target: u64,
    pub kind: HookKind,
    pub trampoline: u64,
}

/// The map denoted by a list of hooks, keyed by target address.
pub open spec fn hook_map(hooks: Seq<HookEntry>) -> Map<u64, HookEntry>
    decreases hooks.len(),
{
    if hooks.len() == 0 {
        Map::empty()
    } else {
        hook_map(hooks.drop_last()).insert(hooks.last().target, hooks.last())
    }
}

/// Well-formedness: one hook per target, and each entry keyed by itself.
pub open spec fn distinct_targets(hooks: Seq<HookEntry>) -> bool {
    forall|i: int, j: int| 0 <= i < j < hooks.len() ==> hooks[i].target != hooks[j].target
}

/// Each hook of a well-formed list is in its map.
proof fn lemma_hook_map_index(hooks: Seq<HookEntry>, i: int)
    requires
        distinct_targets(hooks),
        0 <= i < hooks.len(),
    ensures
        hook_map(hooks).contains_key(hooks[i].target),
        hook_map(hooks)[hooks[i].target] == hooks[i],
    decreases hooks.len(),
{
    if i + 1 < hooks.len() {
        assert(distinct_targets(hooks.drop_last()));
        assert(hooks.drop_last()[i] == hooks[i]);
        lemma_hook_map_index(hooks.drop_last(), i);
    }
}

/// A target on no hook is not in the map.
proof fn lemma_hook_map_absent(hooks: Seq<HookEntry>, target: u64)
    requires
        forall|i: int| 0 <= i < hooks.len() ==> hooks[i].target != target,
    ensures
        !hook_map(hooks).contains_key(target),
    decreases hooks.len(),
{
    if hooks.len() > 0 {
        lemma_hook_map_absent(hooks.drop_last(), target);
    }
}

/// Removing entry `i` removes exactly its target from the map.
proof fn lemma_hook_map_remove(hooks: Seq<HookEntry>, i: int)
    requires
        distinct_targets(hooks),
        0 <= i < hooks.len(),
    ensures
        distinct_targets(hooks.remove(i)),
        hook_map(hooks.remove(i)) == hook_map(hooks).remove(hooks[i].target),
    decreases hooks.len(),
{
    let shorter = hooks.remove(i);
    assert(distinct_targets(shorter));
    if i + 1 == hooks.len() {
        assert(shorter =~= hooks.drop_last());
        lemma_hook_map_absent(hooks.drop_last(), hooks[i].target);
        assert(hook_map(shorter) =~= hook_map(hooks).remove(hooks[i].target));
    } else {
        assert(distinct_targets(hooks.drop_last()));
        assert(hooks.drop_last()[i] == hooks[i]);
        lemma_hook_map_remove(hooks.drop_last(), i);
        assert(shorter.drop_last() =~= hooks.drop_last().remove(i));
        assert(shorter.last() == hooks.last());
        assert(hook_map(shorter) =~= hook_map(hooks).remove(hooks[i].target));
    }
}

/// The table of active hooks.
pub struct HookTable {
    hooks: Vec<HookEntry>,
}

impl View for HookTable {
    type V = Map<u64, HookEntry>;

    closed spec fn view(&self) -> Map<u64, HookEntry> {
        hook_map(self.hooks@)
    }
}

impl HookTable {
    /// Well-formedness: one hook per target.
    pub closed spec fn wf(&self) -> bool {
        distinct_targets(self.hooks@)
    }

    /// An empty table.
    pub fn new() -> (r: HookTable)
        ensures
            r.wf(),
            r@ == Map::<u64, HookEntry>::empty(),
    {
        let r = HookTable { hooks: Vec::new() };
        proof {
            assert(r@ =~= Map::<u64, HookEntry>::empty());
        }
        r
    }

    /// The index of the hook on this target, if one is active.
    fn find(&self, target: u64) -> (r: Option<usize>)
        requires
            self.wf(),
        ensures
            match r {
                Option::Some(i) => {
                    &&& i < self.hooks@.len()
                    &&& self.hooks@[i as int].target == target
                    &&& self@.contains_key(target)
                    &&& self@[target] == self.hooks@[i as int]
                },
                Option::None => !self@.contains_key(target),
            },
    {
        let n = self.hooks.len();
        let mut i: usize = 0;
        while i < n
            invariant
                self.wf(),
                n == self.hooks@.len(),
                i <= n,
                forall|j: int| 0 <= j < i ==> self.hooks@[j].target != target,
            decreases n - i,
        {
            if self.hooks[i].target == target {
                proof {
                    lemma_hook_map_index(self.hooks@, i as int);
                }
                return Some(i);
            }
            i += 1;
        }
        proof {
            lemma_hook_map_absent(self.hooks@, target);
        }
        None
    }

    /// Whether a hook is active on this target.
    pub fn is_hooked(&self, target: u64) -> (r: bool)
        requires
            self.wf(),
        ensures
            r == self@.contains_key(target),
    {
        self.find(target).is_some()
    }

    /// Record a freshly installed hook. A target that is already hooked is
    /// refused — hooks do not stack — and the table is unchanged.
    pub fn install(&mut self, target: u64, kind: HookKind, trampoline: u64) -> (r: Result<
        (),
        HookError,
    >)
        requires
            old(self).wf(),
        ensures
            final(self).wf(),
            match r {
                Result::Ok(_) => !old(self)@.contains_key(target) && final(self)@ == old(self)@.insert(target, (HookEntry { target, kind, trampoline })),
                Result::Err(e) => e is AlreadyHooked && old(self)@.contains_key(target) && final(self)@ == old(self)@,
            },
    {
        if self.find(target).is_some() {
            return Err(HookError::AlreadyHooked);
        }
        let ghost before = self.hooks@;
        self.hooks.push(HookEntry { target, kind, trampoline });
        proof {
            assert forall|j: int| 0 <= j < before.len() implies before[j].target != target by {
                if before[j].target == target {
                    lemma_hook_map_index(before, j);
                }
            }
            assert(self.hooks@.drop_last() =~= before);
        }
        Ok(())
    }

    /// The address through which the original code of a replaced entry
    /// stays callable. Only a replacement hook has one.
    pub fn original(&self, target: u64) -> (r: Option<u64>)
        requires
            self.wf(),
        ensures
            match r {
                Option::Some(t) => self@.contains_key(target) && self@[target].kind
                    == HookKind::Replacement && t == self@[target].trampoline,
                Option::None => !self@.contains_key(target) || self@[target].kind
                    != HookKind::Replacement,
            },
    {
        match self.find(target) {
            Option::Some(i) => {
                let entry = self.hooks[i];
                if matches!(entry.kind, HookKind::Replacement) {
                    Some(entry.trampoline)
                } else {
                    None
                }
            },
            Option::None => None,
        }
    }

    /// Drop the hook on a target once the embedding program has torn it
    /// down. A target with no hook is refused.
    pub fn uninstall(&mut self, target: u64) -> (r: Result<(), HookError>)
        requires
            old(self).wf(),
        ensures
            final(self).wf(),
            match r {
                Result::Ok(_) => old(self)@.contains_key(target) && final(self)@ == old(self)@.remove(target),
                Result::Err(e) => e is NotHooked && !old(self)@.contains_key(target) && final(self)@ == old(self)@,
            },
    {
        match self.find(target) {
            Option::Some(i) => {
                proof {
                    lemma_hook_map_remove(self.hooks@, i as int);
                }
                self.hooks.remove(i);
                Ok(())
            },
            Option::None => Err(HookError::NotHooked),
        }
    }
}

} // verus!
