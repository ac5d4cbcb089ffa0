use vstd::prelude::*;
use vstd::pervasive::VecAdditionalExecFns;
use crate::error::ValidationFault;

verus! {

/// The batching pool: a fixed array of `batch_size` GPU slots plus the
/// admission semaphore. A slot is either free or bound to one state id; while
/// bound it carries the tokens queued for the next forward pass, a closed
/// flag (the driving ticket was dropped) and a counter of passes delivered.
///
/// The pool's background loop itself is asynchronous and runs outside the
/// core; it drives the operations below, which carry the whole slot and
/// permit bookkeeping.
pub struct BatchPool {
    pub batch_size: usize,
    pub max_concurrency: usize,
    pub permits_out: usize,
    pub bound: Vec<Option<String>>,
    pub pending: Vec<Vec<u16>>,
    pub closed: Vec<bool>,
    pub submitted: Vec<u64>,
}

/// How many slots of a binding column are occupied.
pub open spec fn occupied(s: Seq<Option<String>>) -> int
    decreases s.len(),
{
    if s.len() == 0 {
        0
    } else {
        occupied(s.drop_last()) + if s.last() is Some {
            1int
        } else {
            0int
        }
    }
}

pub proof fn lemma_occupied_le_len(s: Seq<Option<String>>)
    ensures
        0 <= occupied(s) <= s.len(),
    decreases s.len(),
{
    if s.len() > 0 {
        lemma_occupied_le_len(s.drop_last());
    }
}

pub proof fn lemma_occupied_all_none(s: Seq<Option<String>>)
    requires
        forall|i: int| 0 <= i < s.len() ==> s[i] is None,
    ensures
        occupied(s) == 0,
    decreases s.len(),
{
    if s.len() > 0 {
        assert(forall|i: int| 0 <= i < s.drop_last().len() ==> s.drop_last()[i] == s[i]);
        lemma_occupied_all_none(s.drop_last());
    }
}

pub proof fn lemma_occupied_all_some(s: Seq<Option<String>>)
    requires
        forall|i: int| 0 <= i < s.len() ==> s[i] is Some,
    ensures
        occupied(s) == s.len(),
    decreases s.len(),
{
    if s.len() > 0 {
        assert(forall|i: int| 0 <= i < s.drop_last().len() ==> s.drop_last()[i] == s[i]);
        lemma_occupied_all_some(s.drop_last());
    }
}

/// Rebinding one slot moves the count by the difference of the two ends.
pub proof fn lemma_occupied_update(s: Seq<Option<String>>, i: int, v: Option<String>)
    requires
        0 <= i < s.len(),
    ensures
        occupied(s.update(i, v)) == occupied(s) - (if s[i] is Some {
            1int
        } else {
            0int
        }) + (if v is Some {
            1int
        } else {
            0int
        }),
    decreases s.len(),
{
    let t = s.update(i, v);
    if i == s.len() - 1 {
        assert(t.drop_last() =~= s.drop_last());
    } else {
        assert(t.drop_last() =~= s.drop_last().update(i, v));
        assert(t.last() == s.last());
        lemma_occupied_update(s.drop_last(), i, v);
    }
}

/// Well-formedness only reads the slot columns and the counters, so it
/// carries over to any pool whose columns agree element by element.
pub proof fn lemma_wf_transfer(a: BatchPool, b: BatchPool)
    requires
        a.wf(),
        b.batch_size == a.batch_size,
        b.max_concurrency == a.max_concurrency,
        b.permits_out <= b.max_concurrency,
        b.bound@ =~= a.bound@,
        b.pending@ =~= a.pending@,
        b.closed@ =~= a.closed@,
        b.submitted@.len() == a.submitted@.len(),
    ensures
        b.wf(),
{
    assert forall|i: int, j: int| #![trigger b.bound@[i], b.bound@[j]]
        0 <= i < j < b.bound@.len() && b.bound@[i] is Some && b.bound@[j] is Some implies b.bound@[i]->0@ != b.bound@[j]->0@ by {
        assert(a.bound@[i] == b.bound@[i]);
        assert(a.bound@[j] == b.bound@[j]);
    }
    assert forall|i: int| #![trigger b.bound@[i]]
        0 <= i < b.bound@.len() && b.bound@[i] is None implies b.pending@[i]@.len() == 0 && !b.closed@[i] by {
        assert(a.bound@[i] == b.bound@[i]);
        assert(a.pending@[i] == b.pending@[i]);
        assert(a.closed@[i] == b.closed@[i]);
    }
}

impl BatchPool {
    /// The pool's shape and safety invariant: the four slot columns are
    /// `batch_size` wide, no more than `max_concurrency` permits are out, a
    /// state is bound to at most one slot, and a free slot carries nothing.
    pub open spec fn wf(self) -> bool {
        &&& self.bound@.len() == self.batch_size
        &&& self.pending@.len() == self.batch_size
        &&& self.closed@.len() == self.batch_size
        &&& self.submitted@.len() == self.batch_size
        &&& self.max_concurrency <= self.batch_size
        &&& self.permits_out <= self.max_concurrency
        &&& forall|i: int, j: int| #![trigger self.bound@[i], self.bound@[j]]
            0 <= i < j < self.bound@.len() && self.bound@[i] is Some && self.bound@[j] is Some
                ==> self.bound@[i]->0@ != self.bound@[j]->0@
        &&& forall|i: int| #![trigger self.bound@[i]]
            0 <= i < self.bound@.len() && self.bound@[i] is None ==> self.pending@[i]@.len() == 0
                && !self.closed@[i]
    }

    /// How many slots are bound right now.
    pub open spec fn occupancy(self) -> int {
        occupied(self.bound@)
    }

    /// Whether some slot is bound to `id`.
    pub open spec fn has_binding(self, id: Seq<char>) -> bool {
        exists|i: int|
            0 <= i < self.bound@.len() && self.bound@[i] is Some && self.bound@[i]->0@ == id
    }

    /// Whether nothing is queued against `id` in any slot: the state a sync
    /// leaves behind, and what a registry copy demands of its source.
    pub open spec fn synced_on(self, id: Seq<char>) -> bool {
        forall|i: int|
            0 <= i < self.bound@.len() && (#[trigger] self.bound@[i]) is Some
                && self.bound@[i]->0@ == id ==> self.pending@[i]@.len() == 0
    }

    /// The invariant of every pool cycle: bound slots never exceed the batch
    /// width and outstanding permits never exceed the admission cap.
    pub proof fn lemma_capacity(self)
        requires
            self.wf(),
        ensures
            self.occupancy() <= self.batch_size,
            self.permits_out <= self.max_concurrency,
    {
        lemma_occupied_le_len(self.bound@);
    }

    /// A pool starts with every slot free and every permit available.
    #[verifier::loop_isolation(false)]
    pub fn new(batch_size: usize, max_concurrency: usize) -> (r: Self)
        requires
            max_concurrency <= batch_size,
        ensures
            r.wf(),
            r.batch_size == batch_size,
            r.max_concurrency == max_concurrency,
            r.permits_out == 0,
            forall|i: int| 0 <= i < batch_size ==> r.bound@[i] is None,
            r.occupancy() == 0,
    {
        let mut bound: Vec<Option<String>> = Vec::new();
        let mut pending: Vec<Vec<u16>> = Vec::new();
        let mut closed: Vec<bool> = Vec::new();
        let mut submitted: Vec<u64> = Vec::new();
        let mut i: usize = 0;
        while i < batch_size
            invariant
                i <= batch_size,
                bound@.len() == i,
                pending@.len() == i,
                closed@.len() == i,
                submitted@.len() == i,
                forall|k: int| 0 <= k < i ==> bound@[k] is None,
                forall|k: int| 0 <= k < i ==> pending@[k]@.len() == 0,
                forall|k: int| 0 <= k < i ==> !closed@[k],
            decreases batch_size - i,
        {
            bound.push(None);
            pending.push(Vec::new());
            closed.push(false);
            submitted.push(0);
            i = i + 1;
        }
        let r = BatchPool { batch_size, max_concurrency, permits_out: 0, bound, pending, closed, submitted };
        proof {
            lemma_occupied_all_none(r.bound@);
        }
        r
    }

    /// One atomic draw of `n` admission permits. The grant happens exactly
    /// when `n` permits are still free; otherwise nothing changes and the
    /// caller waits and retries — a saturated semaphore makes a ticket wait,
    /// never fail.
    pub fn try_acquire(&mut self, n: usize) -> (granted: bool)
        requires
            old(self).wf(),
        ensures
            final(self).wf(),
            granted == (old(self).permits_out + n <= old(self).max_concurrency),
            granted ==> final(self).permits_out == old(self).permits_out + n,
            !granted ==> final(self).permits_out == old(self).permits_out,
            final(self).batch_size == old(self).batch_size,
            final(self).max_concurrency == old(self).max_concurrency,
            final(self).bound@ == old(self).bound@,
            final(self).pending@ == old(self).pending@,
            final(self).closed@ == old(self).closed@,
            final(self).submitted@ == old(self).submitted@,
    {
        if n <= self.max_concurrency - self.permits_out {
            self.permits_out = self.permits_out + n;
            proof {
                lemma_wf_transfer(*old(self), *self);
            }
            true
        } else {
            false
        }
    }

    /// Returns `n` permits; a ticket does this exactly once, when dropped.
    pub fn release(&mut self, n: usize)
        requires
            old(self).wf(),
            n <= old(self).permits_out,
        ensures
            final(self).wf(),
            final(self).permits_out == old(self).permits_out - n,
            final(self).batch_size == old(self).batch_size,
            final(self).max_concurrency == old(self).max_concurrency,
            final(self).bound@ == old(self).bound@,
            final(self).pending@ == old(self).pending@,
            final(self).closed@ == old(self).closed@,
            final(self).submitted@ == old(self).submitted@,
    {
        self.permits_out = self.permits_out - n;
        proof {
            lemma_wf_transfer(*old(self), *self);
        }
    }

    /// Whether `id` is currently bound to some slot.
    #[verifier::loop_isolation(false)]
    pub fn is_bound(&self, id: &String) -> (r: bool)
        ensures
            r == self.has_binding(id@),
    {
        let mut i: usize = 0;
        while i < self.bound.len()
            invariant
                i <= self.bound@.len(),
                forall|k: int|
                    0 <= k < i ==> !(self.bound@[k] is Some && self.bound@[k]->0@ == id@),
            decreases self.bound@.len() - i,
        {
            match &self.bound[i] {
                Some(there) => {
                    if *there == *id {
                        return true;
                    }
                },
                None => {},
            }
            i = i + 1;
        }
        false
    }

    /// The slot currently bound to `id`, if any.
    #[verifier::loop_isolation(false)]
    pub fn slot_of(&self, id: &String) -> (r: Option<usize>)
        requires
            self.wf(),
        ensures
            match r {
                Some(i) => i < self.batch_size && self.bound@[i as int] is Some
                    && self.bound@[i as int]->0@ == id@,
                None => !self.has_binding(id@),
            },
    {
        let mut i: usize = 0;
        while i < self.bound.len()
            invariant
                i <= self.bound@.len(),
                forall|k: int|
                    0 <= k < i ==> !(self.bound@[k] is Some && self.bound@[k]->0@ == id@),
            decreases self.bound@.len() - i,
        {
            match &self.bound[i] {
                Some(there) => {
                    if *there == *id {
                        return Some(i);
                    }
                },
                None => {},
            }
            i = i + 1;
        }
        None
    }

    /// Binds `id` to a free slot. Admission fails exactly when every slot is
    /// taken — and callers are throttled upstream by the semaphore, so the
    /// pool treats that as a hard fault.
    #[verifier::loop_isolation(false)]
    pub fn bind_slot(&mut self, id: &String) -> (r: Result<usize, ValidationFault>)
        requires
            old(self).wf(),
            !old(self).has_binding(id@),
        ensures
            final(self).wf(),
            final(self).batch_size == old(self).batch_size,
            final(self).max_concurrency == old(self).max_concurrency,
            final(self).permits_out == old(self).permits_out,
            final(self).pending@ == old(self).pending@,
            final(self).closed@ == old(self).closed@,
            final(self).submitted@ == old(self).submitted@,
            match r {
                Ok(i) => {
                    &&& i < old(self).batch_size
                    &&& old(self).bound@[i as int] is None
                    &&& final(self).bound@[i as int] is Some
                    &&& final(self).bound@[i as int]->0@ == id@
                    &&& final(self).bound@ == old(self).bound@.update(i as int, final(self).bound@[i as int])
                    &&& final(self).occupancy() == old(self).occupancy() + 1
                    &&& final(self).has_binding(id@)
                },
                Err(f) => {
                    &&& f == ValidationFault::PoolFull
                    &&& final(self).bound@ == old(self).bound@
                    &&& old(self).occupancy() == old(self).batch_size
                },
            },
    {
        let mut i: usize = 0;
        while i < self.bound.len()
            invariant
                *self == *old(self),
                i <= self.bound@.len(),
                forall|k: int| 0 <= k < i ==> self.bound@[k] is Some,
            decreases self.bound@.len() - i,
        {
            let free = match &self.bound[i] {
                Some(_) => false,
                None => true,
            };
            if free {
                let fresh_binding = Some(id.clone());
                proof {
                    assert(fresh_binding is Some && fresh_binding->0@ == id@);
                }
                self.bound.set(i, fresh_binding);
                proof {
                    lemma_occupied_update(old(self).bound@, i as int, fresh_binding);
                    assert forall|a: int, b: int| #![trigger self.bound@[a], self.bound@[b]]
                        0 <= a < b < self.bound@.len() && self.bound@[a] is Some
                            && self.bound@[b] is Some implies self.bound@[a]->0@
                        != self.bound@[b]->0@ by {
                        if a != i && b != i {
                            assert(old(self).bound@[a] == self.bound@[a]);
                            assert(old(self).bound@[b] == self.bound@[b]);
                        } else if a == i {
                            assert(old(self).bound@[b] == self.bound@[b]);
                            assert(old(self).bound@[b] is Some && old(self).bound@[b]->0@
                                != id@);
                        } else {
                            assert(old(self).bound@[a] == self.bound@[a]);
                            assert(old(self).bound@[a] is Some && old(self).bound@[a]->0@
                                != id@);
                        }
                    }
                    assert forall|k: int| #![trigger self.bound@[k]]
                        0 <= k < self.bound@.len() && self.bound@[k] is None implies self.pending@[k]@.len()
                        == 0 && !self.closed@[k] by {
                        assert(old(self).bound@[k] == self.bound@[k]);
                    }
                }
                return Ok(i);
            }
            i = i + 1;
        }
        proof {
            lemma_occupied_all_some(self.bound@);
        }
        Err(ValidationFault::PoolFull)
    }

    /// Queues tokens for a bound slot, behind whatever is already waiting:
    /// within one slot, inputs are processed strictly in submission order.
    #[verifier::loop_isolation(false)]
    pub fn enqueue(&mut self, i: usize, tokens: &Vec<u16>)
        requires
            old(self).wf(),
            i < old(self).batch_size,
            old(self).bound@[i as int] is Some,
        ensures
            final(self).wf(),
            final(self).batch_size == old(self).batch_size,
            final(self).max_concurrency == old(self).max_concurrency,
            final(self).permits_out == old(self).permits_out,
            final(self).bound@ == old(self).bound@,
            final(self).closed@ == old(self).closed@,
            final(self).submitted@ == old(self).submitted@,
            final(self).pending@.len() == old(self).pending@.len(),
            final(self).pending@[i as int]@ == old(self).pending@[i as int]@ + tokens@,
            forall|k: int|
                0 <= k < old(self).pending@.len() && k != i ==> final(self).pending@[k] == old(self).pending@[k],
    {
        let mut buffer: Vec<u16> = Vec::new();
        self.pending.set_and_swap(i, &mut buffer);
        let mut j: usize = 0;
        while j < tokens.len()
            invariant
                j <= tokens@.len(),
                buffer@ == old(self).pending@[i as int]@ + tokens@.take(j as int),
            decreases tokens@.len() - j,
        {
            buffer.push(tokens[j]);
            proof {
                assert(old(self).pending@[i as int]@ + tokens@.take(j as int + 1) =~= (old(self).pending@[i as int]@ + tokens@.take(j as int)).push(tokens@[j as int]));
            }
            j = j + 1;
        }
        proof {
            assert(tokens@.take(tokens@.len() as int) =~= tokens@);
        }
        self.pending.set_and_swap(i, &mut buffer);
        proof {
            assert forall|a: int, b: int| #![trigger self.bound@[a], self.bound@[b]]
                0 <= a < b < self.bound@.len() && self.bound@[a] is Some
                    && self.bound@[b] is Some implies self.bound@[a]->0@ != self.bound@[b]->0@ by {
                assert(old(self).bound@[a] == self.bound@[a]);
                assert(old(self).bound@[b] == self.bound@[b]);
            }
            assert forall|k: int| #![trigger self.bound@[k]]
                0 <= k < self.bound@.len() && self.bound@[k] is None implies self.pending@[k]@.len()
                == 0 && !self.closed@[k] by {
                assert(old(self).bound@[k] == self.bound@[k]);
                if k != i {
                    assert(self.pending@[k] == old(self).pending@[k]);
                }
            }
        }
    }

    /// The sync step the registry takes before copying a state: whatever is
    /// still queued against the state leaves the pool, so the driver can run
    /// it and back the state to CPU; afterwards nothing is pending for that
    /// slot. A state with no slot needs no sync.
    #[verifier::loop_isolation(false)]
    pub fn sync_drain(&mut self, id: &String) -> (r: Option<(usize, Vec<u16>)>)
        requires
            old(self).wf(),
        ensures
            final(self).wf(),
            final(self).batch_size == old(self).batch_size,
            final(self).max_concurrency == old(self).max_concurrency,
            final(self).permits_out == old(self).permits_out,
            final(self).bound@ == old(self).bound@,
            final(self).closed@ == old(self).closed@,
            final(self).submitted@ == old(self).submitted@,
            final(self).pending@.len() == old(self).pending@.len(),
            final(self).synced_on(id@),
            match r {
                None => !old(self).has_binding(id@) && final(self).pending@ == old(self).pending@,
                Some((i, queued)) => {
                    &&& i < old(self).batch_size
                    &&& old(self).bound@[i as int] is Some
                    &&& old(self).bound@[i as int]->0@ == id@
                    &&& queued@ == old(self).pending@[i as int]@
                    &&& final(self).pending@[i as int]@ == Seq::<u16>::empty()
                    &&& forall|k: int|
                        0 <= k < old(self).pending@.len() && k != i ==> final(self).pending@[k]
                            == old(self).pending@[k]
                },
            },
    {
        let found = self.slot_of(id);
        match found {
            None => None,
            Some(i) => {
                let mut queued: Vec<u16> = Vec::new();
                self.pending.set_and_swap(i, &mut queued);
                proof {
                    assert forall|a: int, b: int| #![trigger self.bound@[a], self.bound@[b]]
                        0 <= a < b < self.bound@.len() && self.bound@[a] is Some
                            && self.bound@[b] is Some implies self.bound@[a]->0@
                        != self.bound@[b]->0@ by {
                        assert(old(self).bound@[a] == self.bound@[a]);
                        assert(old(self).bound@[b] == self.bound@[b]);
                    }
                    assert forall|k: int| #![trigger self.bound@[k]]
                        0 <= k < self.bound@.len() && self.bound@[k] is None implies self.pending@[k]@.len()
                        == 0 && !self.closed@[k] by {
                        assert(old(self).bound@[k] == self.bound@[k]);
                        if k != i {
                            assert(self.pending@[k] == old(self).pending@[k]);
                        }
                    }
                    assert forall|k: int| #![trigger self.bound@[k]]
                        0 <= k < self.bound@.len() && self.bound@[k] is Some
                            && self.bound@[k]->0@ == id@ implies self.pending@[k]@.len() == 0 by {
                        if k != i {
                            if k < i {
                                assert(self.bound@[k]->0@ != self.bound@[i as int]->0@);
                            } else {
                                assert(self.bound@[i as int]->0@ != self.bound@[k]->0@);
                            }
                        }
                    }
                }
                Some((i, queued))
            },
        }
    }

    /// Takes every slot's queued tokens for one forward pass. Slot order is
    /// preserved and each buffer leaves whole, so per-slot submission order
    /// survives into the batch; afterwards every queue is empty.
    #[verifier::loop_isolation(false)]
    pub fn collect(&mut self) -> (batch: Vec<Vec<u16>>)
        requires
            old(self).wf(),
        ensures
            final(self).wf(),
            final(self).batch_size == old(self).batch_size,
            final(self).max_concurrency == old(self).max_concurrency,
            final(self).permits_out == old(self).permits_out,
            final(self).bound@ == old(self).bound@,
            final(self).closed@ == old(self).closed@,
            final(self).submitted@ == old(self).submitted@,
            batch@.len() == old(self).batch_size,
            forall|k: int| 0 <= k < batch@.len() ==> batch@[k]@ == old(self).pending@[k]@,
            final(self).pending@.len() == old(self).batch_size,
            forall|k: int|
                0 <= k < final(self).pending@.len() ==> final(self).pending@[k]@ == Seq::<
                    u16,
                >::empty(),
    {
        let mut batch: Vec<Vec<u16>> = Vec::new();
        let mut i: usize = 0;
        while i < self.pending.len()
            invariant
                i <= self.pending@.len(),
                self.pending@.len() == old(self).pending@.len(),
                batch@.len() == i,
                forall|k: int| 0 <= k < i ==> batch@[k]@ == old(self).pending@[k]@,
                forall|k: int| 0 <= k < i ==> self.pending@[k]@ == Seq::<u16>::empty(),
                forall|k: int| i <= k < self.pending@.len() ==> self.pending@[k] == old(self).pending@[k],
                self.batch_size == old(self).batch_size,
                self.max_concurrency == old(self).max_concurrency,
                self.permits_out == old(self).permits_out,
                self.bound@ == old(self).bound@,
                self.closed@ == old(self).closed@,
                self.submitted@ == old(self).submitted@,
            decreases self.pending@.len() - i,
        {
            let mut taken: Vec<u16> = Vec::new();
            self.pending.set_and_swap(i, &mut taken);
            batch.push(taken);
            i = i + 1;
        }
        proof {
            assert forall|a: int, b: int| #![trigger self.bound@[a], self.bound@[b]]
                0 <= a < b < self.bound@.len() && self.bound@[a] is Some
                    && self.bound@[b] is Some implies self.bound@[a]->0@ != self.bound@[b]->0@ by {
                assert(old(self).bound@[a] == self.bound@[a]);
                assert(old(self).bound@[b] == self.bound@[b]);
            }
            assert forall|k: int| #![trigger self.bound@[k]]
                0 <= k < self.bound@.len() && self.bound@[k] is None implies self.pending@[k]@.len()
                == 0 && !self.closed@[k] by {
                assert(old(self).bound@[k] == self.bound@[k]);
                assert(old(self).closed@[k] == self.closed@[k]);
            }
        }
        batch
    }

    /// Records that the driving ticket of slot `i` has gone: the slot will be
    /// evicted once its queue drains.
    pub fn mark_closed(&mut self, i: usize)
        requires
            old(self).wf(),
            i < old(self).batch_size,
            old(self).bound@[i as int] is Some,
        ensures
            final(self).wf(),
            final(self).batch_size == old(self).batch_size,
            final(self).max_concurrency == old(self).max_concurrency,
            final(self).permits_out == old(self).permits_out,
            final(self).bound@ == old(self).bound@,
            final(self).pending@ == old(self).pending@,
            final(self).submitted@ == old(self).submitted@,
            final(self).closed@ == old(self).closed@.update(i as int, true),
    {
        self.closed.set(i, true);
        proof {
            assert forall|a: int, b: int| #![trigger self.bound@[a], self.bound@[b]]
                0 <= a < b < self.bound@.len() && self.bound@[a] is Some
                    && self.bound@[b] is Some implies self.bound@[a]->0@ != self.bound@[b]->0@ by {
                assert(old(self).bound@[a] == self.bound@[a]);
                assert(old(self).bound@[b] == self.bound@[b]);
            }
            assert forall|k: int| #![trigger self.bound@[k]]
                0 <= k < self.bound@.len() && self.bound@[k] is None implies self.pending@[k]@.len()
                == 0 && !self.closed@[k] by {
                assert(old(self).bound@[k] == self.bound@[k]);
                assert(self.pending@[k] == old(self).pending@[k]);
            }
        }
    }

    /// Counts one delivered forward pass for every slot that produced logits,
    /// in slot order: within a slot, outputs leave in submission order.
    #[verifier::loop_isolation(false)]
    pub fn record_outputs(&mut self, produced: &Vec<bool>)
        requires
            old(self).wf(),
            produced@.len() == old(self).batch_size,
            forall|k: int|
                0 <= k < produced@.len() && produced@[k] ==> old(self).submitted@[k] < u64::MAX,
        ensures
            final(self).wf(),
            final(self).batch_size == old(self).batch_size,
            final(self).max_concurrency == old(self).max_concurrency,
            final(self).permits_out == old(self).permits_out,
            final(self).bound@ == old(self).bound@,
            final(self).pending@ == old(self).pending@,
            final(self).closed@ == old(self).closed@,
            final(self).submitted@.len() == old(self).submitted@.len(),
            forall|k: int|
                0 <= k < produced@.len() && produced@[k] ==> final(self).submitted@[k]
                    == old(self).submitted@[k] + 1,
            forall|k: int|
                0 <= k < produced@.len() && !produced@[k] ==> final(self).submitted@[k]
                    == old(self).submitted@[k],
    {
        let mut i: usize = 0;
        while i < self.submitted.len()
            invariant
                i <= self.submitted@.len(),
                self.submitted@.len() == old(self).submitted@.len(),
                produced@.len() == old(self).submitted@.len(),
                forall|k: int|
                    0 <= k < produced@.len() && produced@[k] ==> old(self).submitted@[k]
                        < u64::MAX,
                forall|k: int|
                    0 <= k < i && produced@[k] ==> self.submitted@[k] == old(self).submitted@[k]
                        + 1,
                forall|k: int|
                    0 <= k < i && !produced@[k] ==> self.submitted@[k] == old(self).submitted@[k],
                forall|k: int|
                    i <= k < self.submitted@.len() ==> self.submitted@[k] == old(self).submitted@[k],
                self.batch_size == old(self).batch_size,
                self.max_concurrency == old(self).max_concurrency,
                self.permits_out == old(self).permits_out,
                self.bound@ == old(self).bound@,
                self.pending@ == old(self).pending@,
                self.closed@ == old(self).closed@,
            decreases self.submitted@.len() - i,
        {
            if produced[i] {
                let current = self.submitted[i];
                self.submitted.set(i, current + 1);
            }
            i = i + 1;
        }
        proof {
            assert forall|a: int, b: int| #![trigger self.bound@[a], self.bound@[b]]
                0 <= a < b < self.bound@.len() && self.bound@[a] is Some
                    && self.bound@[b] is Some implies self.bound@[a]->0@ != self.bound@[b]->0@ by {
                assert(old(self).bound@[a] == self.bound@[a]);
                assert(old(self).bound@[b] == self.bound@[b]);
            }
            assert forall|k: int| #![trigger self.bound@[k]]
                0 <= k < self.bound@.len() && self.bound@[k] is None implies self.pending@[k]@.len()
                == 0 && !self.closed@[k] by {
                assert(old(self).bound@[k] == self.bound@[k]);
                assert(self.pending@[k] == old(self).pending@[k]);
                assert(self.closed@[k] == old(self).closed@[k]);
            }
        }
    }

    /// Whether slot `i` is finished: its ticket is gone and its queue is dry.
    pub open spec fn slot_done(self, i: int) -> bool {
        self.bound@[i] is Some && self.closed@[i] && self.pending@[i]@.len() == 0
    }

    /// Frees every slot whose ticket has closed and whose queue is empty,
    /// returning their indices so the driver can back the states to CPU.
    #[verifier::loop_isolation(false)]
    pub fn evict_finished(&mut self) -> (freed: Vec<usize>)
        requires
            old(self).wf(),
        ensures
            final(self).wf(),
            final(self).batch_size == old(self).batch_size,
            final(self).max_concurrency == old(self).max_concurrency,
            final(self).permits_out == old(self).permits_out,
            final(self).pending@ == old(self).pending@,
            final(self).submitted@ == old(self).submitted@,
            final(self).bound@.len() == old(self).bound@.len(),
            forall|k: int|
                0 <= k < old(self).bound@.len() && old(self).slot_done(k) ==> final(self).bound@[k] is None && !final(self).closed@[k],
            forall|k: int|
                0 <= k < old(self).bound@.len() && !old(self).slot_done(k) ==> final(self).bound@[k] == old(self).bound@[k] && final(self).closed@[k] == old(self).closed@[k],
            forall|k: int|
                0 <= k < old(self).bound@.len() ==> (freed@.contains(k as usize) <==> old(self).slot_done(k)),
    {
        let mut freed: Vec<usize> = Vec::new();
        let mut i: usize = 0;
        while i < self.bound.len()
            invariant
                i <= self.bound@.len(),
                self.bound@.len() == old(self).bound@.len(),
                self.closed@.len() == old(self).closed@.len(),
                self.bound@.len() == self.closed@.len(),
                self.pending@ == old(self).pending@,
                self.submitted@ == old(self).submitted@,
                self.batch_size == old(self).batch_size,
                self.max_concurrency == old(self).max_concurrency,
                self.permits_out == old(self).permits_out,
                forall|k: int|
                    0 <= k < i && old(self).slot_done(k) ==> self.bound@[k] is None
                        && !self.closed@[k],
                forall|k: int|
                    0 <= k < i && !old(self).slot_done(k) ==> self.bound@[k] == old(self).bound@[k] && self.closed@[k] == old(self).closed@[k],
                forall|k: int|
                    i <= k < self.bound@.len() ==> self.bound@[k] == old(self).bound@[k]
                        && self.closed@[k] == old(self).closed@[k],
                forall|m: int| 0 <= m < freed@.len() ==> 0 <= #[trigger] freed@[m] < i,
                forall|k: int|
                    0 <= k < i ==> (freed@.contains(k as usize) <==> old(self).slot_done(k)),
            decreases self.bound@.len() - i,
        {
            let done = self.closed[i] && match &self.bound[i] {
                Some(_) => self.pending[i].len() == 0,
                None => false,
            };
            proof {
                assert(done == old(self).slot_done(i as int));
            }
            if done {
                self.bound.set(i, None);
                self.closed.set(i, false);
                let ghost before_push = freed@;
                freed.push(i);
                proof {
                    assert forall|k: int| 0 <= k <= i implies ((#[trigger] freed@.contains(
                        k as usize,
                    )) <==> (k == i || before_push.contains(k as usize))) by {
                        if freed@.contains(k as usize) {
                            let m = choose|m: int|
                                0 <= m < freed@.len() && freed@[m] == k as usize;
                            if m < before_push.len() {
                                assert(before_push[m] == k as usize);
                                assert(before_push.contains(k as usize));
                            } else {
                                assert(freed@[m] == i as usize);
                            }
                        }
                        if k == i {
                            assert(freed@[before_push.len() as int] == i as usize);
                            assert(freed@.contains(k as usize));
                        }
                        if before_push.contains(k as usize) {
                            let m = choose|m: int|
                                0 <= m < before_push.len() && before_push[m] == k as usize;
                            assert(freed@[m] == k as usize);
                            assert(freed@.contains(k as usize));
                        }
                    }
                }
            } else {
                proof {
                    if freed@.contains(i as usize) {
                        let m = choose|m: int|
                            0 <= m < freed@.len() && freed@[m] == i as usize;
                        assert(freed@[m] < i);
                    }
                }
            }
            i = i + 1;
        }
        proof {
            assert forall|a: int, b: int| #![trigger self.bound@[a], self.bound@[b]]
                0 <= a < b < self.bound@.len() && self.bound@[a] is Some
                    && self.bound@[b] is Some implies self.bound@[a]->0@ != self.bound@[b]->0@ by {
                if old(self).slot_done(a) {
                    assert(self.bound@[a] is None);
                } else {
                    assert(self.bound@[a] == old(self).bound@[a]);
                }
                if old(self).slot_done(b) {
                    assert(self.bound@[b] is None);
                } else {
                    assert(self.bound@[b] == old(self).bound@[b]);
                }
            }
            assert forall|k: int| #![trigger self.bound@[k]]
                0 <= k < self.bound@.len() && self.bound@[k] is None implies self.pending@[k]@.len()
                == 0 && !self.closed@[k] by {
                assert(self.pending@[k] == old(self).pending@[k]);
                if old(self).slot_done(k) {
                    assert(!self.closed@[k]);
                } else {
                    assert(self.bound@[k] == old(self).bound@[k]);
                    assert(self.closed@[k] == old(self).closed@[k]);
                }
            }
        }
        freed
    }
}

} // verus!
