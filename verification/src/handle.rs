use vstd::prelude::*;

verus! {

/// A named inference state: the recurrent hidden state of one logical
/// session. The CPU-resident snapshot is a byte buffer of model-defined
/// shape; it is mutated only by the pool writing a forward pass back, so it
/// is never observed partially written. Once `invalid` is set the handle is
/// only dropped.
#[derive(Clone, Debug)]
pub struct StateHandle {
    pub id: String,
    pub snapshot: Vec<u8>,
    pub invalid: bool,
}

impl StateHandle {
    /// A handle is live until its registry entry is deleted.
    pub open spec fn live(self) -> bool {
        !self.invalid
    }

    /// A fresh state starts from the model's zero recurrent state: an empty
    /// snapshot, which the model reads as all-zero.
    pub fn new(id: String) -> (r: Self)
        ensures
            r.id@ == id@,
            r.snapshot@ == Seq::<u8>::empty(),
            r.live(),
    {
        StateHandle { id, snapshot: Vec::new(), invalid: false }
    }

    /// An independent copy of this state's snapshot under a new name. Shallow
    /// copies are copy-on-write in this core; with value-semantics handles an
    /// eager copy is observationally the same, so one operation serves both
    /// modes.
    pub fn duplicate(&self, new_id: String) -> (r: Self)
        ensures
            r.id@ == new_id@,
            r.snapshot@ == self.snapshot@,
            r.live(),
    {
        let mut snapshot: Vec<u8> = Vec::new();
        let mut i: usize = 0;
        while i < self.snapshot.len()
            invariant
                i <= self.snapshot.len(),
                snapshot@ == self.snapshot@.take(i as int),
            decreases self.snapshot.len() - i,
        {
            snapshot.push(self.snapshot[i]);
            proof {
                assert(snapshot@ =~= self.snapshot@.take(i as int + 1));
            }
            i = i + 1;
        }
        proof {
            assert(snapshot@ =~= self.snapshot@);
        }
        StateHandle { id: new_id, snapshot, invalid: false }
    }

    /// Marks the handle invalid; the registry does this when deleting, so an
    /// in-flight clone can still finish while no new user may pick it up.
    pub fn invalidate(&mut self)
        ensures
            final(self).id@ == old(self).id@,
            final(self).snapshot@ == old(self).snapshot@,
            final(self).invalid,
    {
        self.invalid = true;
    }
}

} // verus!
