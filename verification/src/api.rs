use vstd::prelude::*;
use crate::error::ValidationFault;
use crate::handle::StateHandle;
use crate::pool::BatchPool;
use crate::registry::{registry_wf, StateRegistry};
use crate::table::empty_table;

verus! {

/// A scoped admission ticket: the permits and handle clones that back one
/// generation. The ticket clones the handles it drives, so a concurrent
/// delete of a state lets this in-flight generation finish on its clone
/// while later requests see the state gone.
pub struct InferTicket {
    pub state_ids: Vec<String>,
    pub handles: Vec<StateHandle>,
    pub update_prompt: Vec<bool>,
    pub permits: usize,
}

impl InferTicket {
    /// One handle and one update flag per driven state, and exactly as many
    /// permits as states.
    pub open spec fn wf(self) -> bool {
        &&& self.handles@.len() == self.state_ids@.len()
        &&& self.update_prompt@.len() == self.state_ids@.len()
        &&& self.permits == self.state_ids@.len()
        &&& forall|i: int|
            0 <= i < self.state_ids@.len() ==> (#[trigger] self.handles@[i]).id@
                == self.state_ids@[i]@
    }

    /// `infer` sends one token sequence per driven state; anything else is a
    /// shape mismatch rejected before a single token is queued.
    pub fn matches_width(&self, tokens: &Vec<Vec<u16>>) -> (r: bool)
        ensures
            r == (tokens@.len() == self.state_ids@.len()),
    {
        tokens.len() == self.state_ids.len()
    }
}

/// Whether the ticket drives a state spelled `id`.
pub open spec fn ticket_names(t: InferTicket, id: Seq<char>) -> bool {
    exists|j: int| 0 <= j < t.state_ids@.len() && (#[trigger] t.state_ids@[j])@ == id
}

/// Whether one of the first `n` states of the ticket is spelled `id`.
pub open spec fn names_in_prefix(t: InferTicket, n: int, id: Seq<char>) -> bool {
    exists|j: int| 0 <= j < n && j < t.state_ids@.len() && (#[trigger] t.state_ids@[j])@ == id
}

/// What asking for admission yields: either a live ticket, or the directive
/// to wait — a saturated semaphore never fails a request.
pub enum AdmissionOutcome {
    Admitted(InferTicket),
    MustWait,
}

/// The state manager: the named-state registry arbitrating create, copy and
/// delete against the batching pool, and the admission gate for tickets.
pub struct InferStates {
    pub registry: StateRegistry,
    pub pool: BatchPool,
}

impl InferStates {
    pub open spec fn wf(self) -> bool {
        &&& registry_wf(self.registry@)
        &&& self.pool.wf()
    }

    /// A fresh manager: no states, every slot free, every permit available.
    pub fn new(batch_size: usize, max_concurrency: usize) -> (r: Self)
        requires
            max_concurrency <= batch_size,
        ensures
            r.wf(),
            r.registry@ == empty_table(),
            r.pool.batch_size == batch_size,
            r.pool.max_concurrency == max_concurrency,
            r.pool.permits_out == 0,
            r.pool.occupancy() == 0,
    {
        InferStates {
            registry: StateRegistry::new(),
            pool: BatchPool::new(batch_size, max_concurrency),
        }
    }

    /// Registers a fresh, empty state under `id`; fails if the id exists.
    pub fn create_state(&mut self, id: &String) -> (r: Result<(), ValidationFault>)
        requires
            old(self).wf(),
        ensures
            final(self).wf(),
            final(self).pool == old(self).pool,
            match r {
                Ok(()) => {
                    &&& !old(self).registry@.contains_key(id@)
                    &&& final(self).registry@.contains_key(id@)
                    &&& final(self).registry@[id@].id@ == id@
                    &&& final(self).registry@[id@].snapshot@ == Seq::<u8>::empty()
                    &&& final(self).registry@[id@].live()
                    &&& final(self).registry@.remove(id@) =~= old(self).registry@
                },
                Err(f) => {
                    &&& f == ValidationFault::StateExists
                    &&& old(self).registry@.contains_key(id@)
                    &&& final(self).registry@ == old(self).registry@
                },
            },
    {
        self.registry.create(id)
    }

    /// Copies `src` to a fresh entry under `dst`. The pool must have been
    /// synced on `src` — nothing still queued against it, which
    /// `BatchPool::sync_drain` establishes — so the snapshot taken here is
    /// the consistent one. The `shallow` mode shares until first divergence;
    /// with value-semantics handles the copy-on-write collapses to an eager
    /// copy, so both modes produce an independent snapshot.
    pub fn copy_state(&mut self, src: &String, dst: &String, shallow: bool) -> (r: Result<
        (),
        ValidationFault,
    >)
        requires
            old(self).wf(),
            old(self).pool.synced_on(src@),
        ensures
            final(self).wf(),
            final(self).pool == old(self).pool,
            match r {
                Ok(()) => {
                    &&& old(self).registry@.contains_key(src@)
                    &&& !old(self).registry@.contains_key(dst@)
                    &&& final(self).registry@.contains_key(dst@)
                    &&& final(self).registry@[dst@].id@ == dst@
                    &&& final(self).registry@[dst@].snapshot@ == old(self).registry@[src@].snapshot@
                    &&& final(self).registry@[dst@].live()
                    &&& final(self).registry@.remove(dst@) =~= old(self).registry@
                },
                Err(f) => {
                    &&& final(self).registry@ == old(self).registry@
                    &&& match f {
                        ValidationFault::DestinationExists => old(self).registry@.contains_key(
                            dst@,
                        ),
                        ValidationFault::SourceMissing => !old(self).registry@.contains_key(dst@)
                            && !old(self).registry@.contains_key(src@),
                        _ => false,
                    }
                },
            },
    {
        let _ = shallow;
        self.registry.copy(src, dst)
    }

    /// Removes the state and marks its handle invalid, atomically with
    /// respect to every other id. Tickets already holding a clone finish
    /// undisturbed; new admissions see the id gone.
    pub fn delete_state(&mut self, id: &String) -> (r: Result<(), ValidationFault>)
        requires
            old(self).wf(),
        ensures
            final(self).wf(),
            final(self).pool == old(self).pool,
            match r {
                Ok(()) => {
                    &&& old(self).registry@.contains_key(id@)
                    &&& final(self).registry@ == old(self).registry@.remove(id@)
                },
                Err(f) => {
                    &&& f == ValidationFault::StateMissing
                    &&& !old(self).registry@.contains_key(id@)
                    &&& final(self).registry@ == old(self).registry@
                },
            },
    {
        self.registry.delete(id)
    }

    pub fn has_state(&self, id: &String) -> (r: bool)
        ensures
            r == self.registry@.contains_key(id@),
    {
        self.registry.has(id)
    }

    /// Looks `id` up: the caller gets an independent clone of what is
    /// registered, and an unknown id — never created, or deleted since —
    /// reports absence. Only `create_state` and `copy_state` insert entries,
    /// so a deleted state never reappears through a lookup.
    pub fn get_state(&self, id: &String) -> (r: Option<StateHandle>)
        ensures
            self.registry@.contains_key(id@) ==> r == Some(self.registry@[id@]),
            !self.registry@.contains_key(id@) ==> r == None::<StateHandle>,
    {
        self.registry.get(id)
    }

    /// Asks admission for one generation over `states`. All ids must resolve
    /// — a missing one fails validation before anything is touched. A ticket
    /// for N states draws exactly N permits in one atomic step; if fewer than
    /// N are free the caller is told to wait and nothing changes.
    pub fn create_ticket(&mut self, states: &Vec<String>, should_update: &Vec<bool>) -> (r: Result<
        AdmissionOutcome,
        ValidationFault,
    >)
        requires
            old(self).wf(),
            should_update@.len() == states@.len(),
        ensures
            final(self).wf(),
            final(self).registry@ == old(self).registry@,
            final(self).pool.batch_size == old(self).pool.batch_size,
            final(self).pool.max_concurrency == old(self).pool.max_concurrency,
            final(self).pool.bound@ == old(self).pool.bound@,
            final(self).pool.pending@ == old(self).pool.pending@,
            final(self).pool.closed@ == old(self).pool.closed@,
            final(self).pool.submitted@ == old(self).pool.submitted@,
            match r {
                Ok(AdmissionOutcome::Admitted(t)) => {
                    &&& forall|i: int|
                        0 <= i < states@.len() ==> old(self).registry@.contains_key(
                            #[trigger] states@[i]@,
                        )
                    &&& t.wf()
                    &&& t.state_ids@.len() == states@.len()
                    &&& forall|i: int|
                        0 <= i < states@.len() ==> (#[trigger] t.state_ids@[i])@ == states@[i]@
                    &&& forall|i: int|
                        0 <= i < states@.len() ==> (#[trigger] t.handles@[i]) == old(self).registry@[states@[i]@]
                    &&& t.update_prompt@ == should_update@
                    &&& t.permits == states@.len()
                    &&& old(self).pool.permits_out + states@.len()
                        <= old(self).pool.max_concurrency
                    &&& final(self).pool.permits_out == old(self).pool.permits_out
                        + states@.len()
                },
                Ok(AdmissionOutcome::MustWait) => {
                    &&& forall|i: int|
                        0 <= i < states@.len() ==> old(self).registry@.contains_key(
                            #[trigger] states@[i]@,
                        )
                    &&& old(self).pool.permits_out + states@.len() > old(self).pool.max_concurrency
                    &&& final(self).pool.permits_out == old(self).pool.permits_out
                },
                Err(f) => {
                    &&& f == ValidationFault::UnknownState
                    &&& exists|i: int|
                        0 <= i < states@.len() && !old(self).registry@.contains_key(
                            #[trigger] states@[i]@,
                        )
                    &&& final(self).pool.permits_out == old(self).pool.permits_out
                },
            },
    {
        let mut ids: Vec<String> = Vec::new();
        let mut handles: Vec<StateHandle> = Vec::new();
        let mut flags: Vec<bool> = Vec::new();
        let mut i: usize = 0;
        while i < states.len()
            invariant
                old(self).wf(),
                *self == *old(self),
                should_update@.len() == states@.len(),
                i <= states@.len(),
                ids@.len() == i,
                handles@.len() == i,
                flags@.len() == i,
                forall|j: int|
                    0 <= j < i ==> old(self).registry@.contains_key(#[trigger] states@[j]@),
                forall|j: int| 0 <= j < i ==> (#[trigger] ids@[j])@ == states@[j]@,
                forall|j: int|
                    0 <= j < i ==> (#[trigger] handles@[j]) == old(self).registry@[states@[j]@],
                forall|j: int| 0 <= j < i ==> (#[trigger] flags@[j]) == should_update@[j],
            decreases states@.len() - i,
        {
            let found = self.registry.get(&states[i]);
            match found {
                Some(handle) => {
                    ids.push(states[i].clone());
                    handles.push(handle);
                    flags.push(should_update[i]);
                },
                None => {
                    return Err(ValidationFault::UnknownState);
                },
            }
            i = i + 1;
        }
        let n = states.len();
        let granted = self.pool.try_acquire(n);
        if granted {
            let ticket = InferTicket { state_ids: ids, handles, update_prompt: flags, permits: n };
            proof {
                assert(ticket.update_prompt@ =~= should_update@);
            }
            Ok(AdmissionOutcome::Admitted(ticket))
        } else {
            Ok(AdmissionOutcome::MustWait)
        }
    }

    /// The drop of a ticket: every slot driven by it is marked closed — the
    /// pool evicts them once their queues drain — and the permits go back,
    /// exactly once, because the ticket is consumed here.
    #[verifier::loop_isolation(false)]
    pub fn close_ticket(&mut self, ticket: InferTicket)
        requires
            old(self).wf(),
            ticket.permits <= old(self).pool.permits_out,
        ensures
            final(self).wf(),
            final(self).registry@ == old(self).registry@,
            final(self).pool.batch_size == old(self).pool.batch_size,
            final(self).pool.max_concurrency == old(self).pool.max_concurrency,
            final(self).pool.bound@ == old(self).pool.bound@,
            final(self).pool.pending@ == old(self).pool.pending@,
            final(self).pool.submitted@ == old(self).pool.submitted@,
            final(self).pool.permits_out == old(self).pool.permits_out - ticket.permits,
            final(self).pool.closed@.len() == old(self).pool.closed@.len(),
            forall|k: int|
                0 <= k < final(self).pool.bound@.len() && final(self).pool.bound@[k] is Some
                    && ticket_names(ticket, final(self).pool.bound@[k]->0@) ==> final(self).pool.closed@[k],
            forall|k: int|
                0 <= k < final(self).pool.bound@.len() && !(final(self).pool.bound@[k] is Some
                    && ticket_names(ticket, final(self).pool.bound@[k]->0@)) ==> final(self).pool.closed@[k] == old(self).pool.closed@[k],
    {
        let mut j: usize = 0;
        while j < ticket.state_ids.len()
            invariant
                j <= ticket.state_ids@.len(),
                self.registry == old(self).registry,
                self.pool.wf(),
                self.pool.batch_size == old(self).pool.batch_size,
                self.pool.max_concurrency == old(self).pool.max_concurrency,
                self.pool.permits_out == old(self).pool.permits_out,
                self.pool.bound@ == old(self).pool.bound@,
                self.pool.pending@ == old(self).pool.pending@,
                self.pool.submitted@ == old(self).pool.submitted@,
                self.pool.closed@.len() == old(self).pool.closed@.len(),
                forall|k: int|
                    0 <= k < self.pool.bound@.len() && self.pool.bound@[k] is Some
                        && names_in_prefix(ticket, j as int, self.pool.bound@[k]->0@)
                        ==> self.pool.closed@[k],
                forall|k: int|
                    0 <= k < self.pool.bound@.len() && !(self.pool.bound@[k] is Some
                        && names_in_prefix(ticket, j as int, self.pool.bound@[k]->0@))
                        ==> self.pool.closed@[k] == old(self).pool.closed@[k],
            decreases ticket.state_ids@.len() - j,
        {
            let found = self.pool.slot_of(&ticket.state_ids[j]);
            match found {
                Some(slot) => {
                    self.pool.mark_closed(slot);
                },
                None => {},
            }
            proof {
                assert forall|k: int|
                    0 <= k < self.pool.bound@.len() && self.pool.bound@[k] is Some
                        && names_in_prefix(ticket, j as int + 1, self.pool.bound@[k]->0@)
                        implies self.pool.closed@[k] by {
                    let id = self.pool.bound@[k]->0@;
                    let witness = choose|m: int|
                        0 <= m < j + 1 && ticket.state_ids@[m]@ == id;
                    if witness < j {
                        assert(names_in_prefix(ticket, j as int, id));
                    } else {
                        assert(ticket.state_ids@[j as int]@ == id);
                        match found {
                            Some(slot) => {
                                if k != slot {
                                    assert(self.pool.bound@[slot as int] is Some
                                        && self.pool.bound@[slot as int]->0@ == id);
                                    assert(false);
                                }
                            },
                            None => {
                                assert(!old(self).pool.has_binding(id));
                                assert(false);
                            },
                        }
                    }
                }
            }
            j = j + 1;
        }
        let n = ticket.permits;
        self.pool.release(n);
        proof {
            assert forall|k: int|
                0 <= k < self.pool.bound@.len() && self.pool.bound@[k] is Some && ticket_names(
                    ticket,
                    self.pool.bound@[k]->0@,
                ) implies self.pool.closed@[k] by {
                assert(names_in_prefix(ticket, ticket.state_ids@.len() as int, self.pool.bound@[k]->0@));
            }
        }
    }

    /// Writes a forward pass's snapshot back to the state that produced it;
    /// every other state is untouched.
    pub fn write_back(&mut self, id: &String, snapshot: Vec<u8>) -> (r: Result<
        (),
        ValidationFault,
    >)
        requires
            old(self).wf(),
        ensures
            final(self).wf(),
            final(self).pool == old(self).pool,
            match r {
                Ok(()) => {
                    &&& old(self).registry@.contains_key(id@)
                    &&& final(self).registry@.contains_key(id@)
                    &&& final(self).registry@[id@].snapshot@ == snapshot@
                    &&& final(self).registry@[id@].id@ == old(self).registry@[id@].id@
                    &&& final(self).registry@.remove(id@) =~= old(self).registry@.remove(id@)
                    &&& final(self).registry@.dom() =~= old(self).registry@.dom()
                },
                Err(f) => {
                    &&& f == ValidationFault::UnknownState
                    &&& !old(self).registry@.contains_key(id@)
                    &&& final(self).registry@ == old(self).registry@
                },
            },
    {
        self.registry.write_back(id, snapshot)
    }
}

} // verus!
