//! In-process registry of acquisition lifecycles: one `TicketState` per
//! target id, mutated only through validated transitions. A failed
//! transition never destroys the stored entry, so retries are always
//! safe.

use vstd::prelude::*;
use crate::kv::KvMap;
use crate::state_machine::{allows_transition, StateTransitionError, TicketState};

verus! {

/// Tracks every live lifecycle, keyed by target id.
pub struct StateMachineManager {
    states: KvMap<TicketState>,
}

impl StateMachineManager {
    /// Representation invariant of the backing map.
    pub closed spec fn inv(&self) -> bool {
        self.states.inv()
    }

    /// Create an empty registry.
    pub fn new() -> (r: Self)
        ensures
            r.inv(),
            r@ == Map::<Seq<char>, TicketState>::empty(),
    {
        StateMachineManager { states: KvMap::new() }
    }

    /// Current state tracked for `id`, or `None` when the target is
    /// unknown.
    pub fn get(&self, id: &String) -> (r: Option<&TicketState>)
        requires
            self.inv(),
        ensures
            self@.contains_key(id@) ==> (r matches Some(s) && *s == self@[id@]),
            !self@.contains_key(id@) ==> r is None,
    {
        self.states.get(id)
    }

    /// Establish a new tracked lifecycle, overwriting any prior entry
    /// for the same id.
    pub fn insert(&mut self, id: String, state: TicketState)
        requires
            old(self).inv(),
        ensures
            final(self).inv(),
            final(self)@ == old(self)@.insert(id@, state),
    {
        self.states.insert(id, state);
    }

    /// Validated update: looks up the current state and stores the
    /// proposed one only when the edge is in the adjacency table. On any
    /// failure the registry is left exactly as it was, so the prior
    /// entry remains retrievable.
    pub fn update(&mut self, id: &String, new_state: TicketState) -> (r: Result<
        (),
        StateTransitionError,
    >)
        requires
            old(self).inv(),
        ensures
            final(self).inv(),
            !old(self)@.contains_key(id@) ==> (r matches Err(e) && e matches
                StateTransitionError::NotFound { id: eid } && eid@ == id@
                && final(self)@ == old(self)@),
            old(self)@.contains_key(id@) && allows_transition(&old(self)@[id@], &new_state) ==> (
            r is Ok && final(self)@ == old(self)@.insert(id@, new_state)),
            old(self)@.contains_key(id@) && !allows_transition(&old(self)@[id@], &new_state) ==> (
            r matches Err(e) && e matches StateTransitionError::InvalidTransition { from, to }
                && from@ == old(self)@[id@].label_spec() && to@ == new_state.label_spec()
                && final(self)@ == old(self)@),
    {
        match self.states.get(id) {
            Some(current) => {
                if current.can_transition(&new_state) {
                    self.states.insert(id.clone(), new_state);
                    Ok(())
                } else {
                    Err(
                        StateTransitionError::InvalidTransition {
                            from: current.label(),
                            to: new_state.label(),
                        },
                    )
                }
            },
            None => Err(StateTransitionError::NotFound { id: id.clone() }),
        }
    }

    /// Every tracked target id, without duplicates, covering exactly
    /// the registry's domain.
    pub fn targets(&self) -> (r: Vec<String>)
        requires
            self.inv(),
        ensures
            forall|i: int| 0 <= i < r@.len() ==> self@.contains_key(#[trigger] r@[i]@),
            forall|i: int, j: int|
                #![trigger r@[i]@, r@[j]@]
                0 <= i < j < r@.len() ==> r@[i]@ != r@[j]@,
            forall|q: Seq<char>|
                self@.contains_key(q) ==> exists|i: int| 0 <= i < r@.len() && #[trigger] r@[i]@
                    == q,
    {
        self.states.keys()
    }

    /// Remove the entry for `id`; report whether one was tracked.
    pub fn remove(&mut self, id: &String) -> (r: bool)
        requires
            old(self).inv(),
        ensures
            final(self).inv(),
            final(self)@ == old(self)@.remove(id@),
            r == old(self)@.contains_key(id@),
    {
        self.states.remove(id)
    }

    /// Sweep every `Confirmed` or `Failed` entry out of the registry.
    /// Entries in active phases are left untouched; the durable
    /// snapshots in the coordination store are unaffected.
    pub fn cleanup_terminal(&mut self)
        requires
            old(self).inv(),
        ensures
            final(self).inv(),
            forall|k: Seq<char>|
                final(self)@.contains_key(k) <==> (#[trigger] old(self)@.contains_key(k)
                    && !old(self)@[k].is_swept()),
            forall|k: Seq<char>|
                final(self)@.contains_key(k) ==> #[trigger] final(self)@[k] == old(self)@[k],
    {
        let ids = self.states.keys();
        let n = ids.len();
        let mut i: usize = 0;
        while i < n
            invariant
                i <= n,
                n == ids@.len(),
                self.states.inv(),
                forall|j: int| 0 <= j < n ==> old(self)@.contains_key(#[trigger] ids@[j]@),
                forall|a: int, b: int|
                    #![trigger ids@[a]@, ids@[b]@]
                    0 <= a < b < n ==> ids@[a]@ != ids@[b]@,
                forall|q: Seq<char>|
                    old(self)@.contains_key(q) ==> exists|j: int| 0 <= j < n && #[trigger] ids@[j]@
                        == q,
                forall|k: Seq<char>| #[trigger]
                    self.states@.contains_key(k) ==> old(self)@.contains_key(k)
                        && self.states@[k] == old(self)@[k],
                forall|k: Seq<char>| #[trigger]
                    old(self)@.contains_key(k) && !old(self)@[k].is_swept()
                        ==> self.states@.contains_key(k),
                forall|j: int|
                    0 <= j < i && old(self)@[#[trigger] ids@[j]@].is_swept()
                        ==> !self.states@.contains_key(ids@[j]@),
            decreases n - i,
        {
            let swept = match self.states.get(&ids[i]) {
                Some(s) => s.is_swept(),
                None => false,
            };
            if swept {
                self.states.remove(&ids[i]);
            }
            i = i + 1;
        }
        proof {
            assert forall|k: Seq<char>|
                final(self)@.contains_key(k) <==> (#[trigger] old(self)@.contains_key(k)
                    && !old(self)@[k].is_swept()) by {
                if old(self)@.contains_key(k) && old(self)@[k].is_swept() {
                    let j = choose|j: int| 0 <= j < n && #[trigger] ids@[j]@ == k;
                    assert(!self.states@.contains_key(ids@[j]@));
                }
            }
        }
    }
}

impl View for StateMachineManager {
    type V = Map<Seq<char>, TicketState>;

    closed spec fn view(&self) -> Map<Seq<char>, TicketState> {
        self.states@
    }
}

} // verus!
