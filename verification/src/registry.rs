use vstd::prelude::*;
use crate::error::ValidationFault;
use crate::handle::StateHandle;
use crate::table::{empty_table, table_contains, table_get, table_insert, table_new, table_remove, table_view};
use dashmap::DashMap;

verus! {

/// The named-state registry: a map from string id to `StateHandle`. Ids are
/// unique by construction; create, copy and delete each rewrite the map at a
/// single id, so no operation is ever observed half-done.
pub struct StateRegistry {
    table: DashMap<String, StateHandle>,
}

impl View for StateRegistry {
    type V = Map<Seq<char>, StateHandle>;

    closed spec fn view(&self) -> Map<Seq<char>, StateHandle> {
        table_view(self.table)
    }
}

/// All handles a registry publishes are live and carry their own key as id.
pub open spec fn registry_wf(m: Map<Seq<char>, StateHandle>) -> bool {
    forall|k: Seq<char>| #[trigger] m.contains_key(k) ==> m[k].live() && m[k].id@ == k
}

impl StateRegistry {
    pub fn new() -> (r: Self)
        ensures
            r@ == empty_table(),
            registry_wf(r@),
    {
        StateRegistry { table: table_new() }
    }

    /// Inserts a fresh, empty state under `id`; fails if the id exists.
    pub fn create(&mut self, id: &String) -> (r: Result<(), ValidationFault>)
        ensures
            match r {
                Ok(()) => {
                    &&& !old(self)@.contains_key(id@)
                    &&& final(self)@.contains_key(id@)
                    &&& final(self)@[id@].id@ == id@
                    &&& final(self)@[id@].snapshot@ == Seq::<u8>::empty()
                    &&& final(self)@[id@].live()
                    &&& final(self)@.remove(id@) =~= old(self)@
                },
                Err(f) => {
                    &&& f == ValidationFault::StateExists
                    &&& old(self)@.contains_key(id@)
                    &&& final(self)@ == old(self)@
                },
            },
            registry_wf(old(self)@) ==> registry_wf(final(self)@),
    {
        if table_contains(&self.table, id) {
            return Err(ValidationFault::StateExists);
        }
        let fresh = StateHandle::new(id.clone());
        table_insert(&mut self.table, id.clone(), fresh);
        Ok(())
    }

    /// Deep-copies the state under `src` to a new entry under `dst`; fails if
    /// the destination exists or the source is missing. The pool must have
    /// been synced on `src` first, so the CPU snapshot copied here is
    /// consistent. The two snapshots are independent from this point on.
    pub fn copy(&mut self, src: &String, dst: &String) -> (r: Result<(), ValidationFault>)
        ensures
            match r {
                Ok(()) => {
                    &&& old(self)@.contains_key(src@)
                    &&& !old(self)@.contains_key(dst@)
                    &&& final(self)@.contains_key(dst@)
                    &&& final(self)@[dst@].id@ == dst@
                    &&& final(self)@[dst@].snapshot@ == old(self)@[src@].snapshot@
                    &&& final(self)@[dst@].live()
                    &&& final(self)@.remove(dst@) =~= old(self)@
                },
                Err(f) => {
                    &&& final(self)@ == old(self)@
                    &&& match f {
                        ValidationFault::DestinationExists => old(self)@.contains_key(dst@),
                        ValidationFault::SourceMissing => !old(self)@.contains_key(dst@)
                            && !old(self)@.contains_key(src@),
                        _ => false,
                    }
                },
            },
            registry_wf(old(self)@) ==> registry_wf(final(self)@),
    {
        if table_contains(&self.table, dst) {
            return Err(ValidationFault::DestinationExists);
        }
        let found = table_get(&self.table, src);
        match found {
            Some(handle) => {
                let copied = handle.duplicate(dst.clone());
                table_insert(&mut self.table, dst.clone(), copied);
                Ok(())
            },
            None => Err(ValidationFault::SourceMissing),
        }
    }

    /// Removes the entry under `id` and marks the removed handle invalid, in
    /// one step with respect to every other id. A clone held by an in-flight
    /// ticket is unaffected and may still finish.
    pub fn delete(&mut self, id: &String) -> (r: Result<(), ValidationFault>)
        ensures
            match r {
                Ok(()) => {
                    &&& old(self)@.contains_key(id@)
                    &&& final(self)@ == old(self)@.remove(id@)
                },
                Err(f) => {
                    &&& f == ValidationFault::StateMissing
                    &&& !old(self)@.contains_key(id@)
                    &&& final(self)@ == old(self)@
                },
            },
            registry_wf(old(self)@) ==> registry_wf(final(self)@),
    {
        let removed = table_remove(&mut self.table, id);
        match removed {
            Some(mut handle) => {
                handle.invalidate();
                Ok(())
            },
            None => Err(ValidationFault::StateMissing),
        }
    }

    pub fn has(&self, id: &String) -> (r: bool)
        ensures
            r == self@.contains_key(id@),
    {
        table_contains(&self.table, id)
    }

    /// Looks a handle up; the caller gets an independent clone, as tickets do.
    pub fn get(&self, id: &String) -> (r: Option<StateHandle>)
        ensures
            self@.contains_key(id@) ==> r == Some(self@[id@]),
            !self@.contains_key(id@) ==> r == None::<StateHandle>,
    {
        table_get(&self.table, id)
    }

    /// Writes a forward pass's output snapshot back to the state that
    /// produced it. The snapshot is replaced whole: no partial write is ever
    /// published. Every other entry is untouched.
    pub fn write_back(&mut self, id: &String, snapshot: Vec<u8>) -> (r: Result<(), ValidationFault>)
        ensures
            match r {
                Ok(()) => {
                    &&& old(self)@.contains_key(id@)
                    &&& final(self)@.contains_key(id@)
                    &&& final(self)@[id@].id@ == old(self)@[id@].id@
                    &&& final(self)@[id@].snapshot@ == snapshot@
                    &&& final(self)@[id@].invalid == old(self)@[id@].invalid
                    &&& final(self)@.remove(id@) =~= old(self)@.remove(id@)
                    &&& final(self)@.dom() =~= old(self)@.dom()
                },
                Err(f) => {
                    &&& f == ValidationFault::UnknownState
                    &&& !old(self)@.contains_key(id@)
                    &&& final(self)@ == old(self)@
                },
            },
            registry_wf(old(self)@) ==> registry_wf(final(self)@),
    {
        let found = table_get(&self.table, id);
        match found {
            Some(mut handle) => {
                handle.snapshot = snapshot;
                table_insert(&mut self.table, id.clone(), handle);
                Ok(())
            },
            None => Err(ValidationFault::UnknownState),
        }
    }
}

/// Every registry operation publishes its whole effect at a single id: any
/// other id resolves to the same handle before and after the step, so no
/// interleaved or partial write is ever observable through the map.
pub proof fn lemma_single_id_frame(
    m: Map<Seq<char>, StateHandle>,
    id: Seq<char>,
    h: StateHandle,
    other: Seq<char>,
)
    requires
        other != id,
    ensures
        m.insert(id, h).contains_key(other) == m.contains_key(other),
        m.contains_key(other) ==> m.insert(id, h)[other] == m[other],
        m.remove(id).contains_key(other) == m.contains_key(other),
        m.contains_key(other) ==> m.remove(id)[other] == m[other],
{
}

/// Freshness across recreation: after `create(id)` and `delete(id)`, the id
/// is open again, and a second `create(id)` lands in a registry
/// indistinguishable from one that never held the first handle.
pub proof fn lemma_create_delete_create(
    m: Map<Seq<char>, StateHandle>,
    id: Seq<char>,
    first: StateHandle,
    second: StateHandle,
)
    requires
        !m.contains_key(id),
    ensures
        !m.insert(id, first).remove(id).contains_key(id),
        m.insert(id, first).remove(id) =~= m,
        m.insert(id, first).remove(id).insert(id, second) =~= m.insert(id, second),
{
}

/// `copy(src, dst)` then `delete(src)` leaves `dst` fully registered, still
/// holding the snapshot taken at copy time.
pub proof fn lemma_copy_survives_source_delete(
    m: Map<Seq<char>, StateHandle>,
    src: Seq<char>,
    dst: Seq<char>,
    copied: StateHandle,
)
    requires
        m.contains_key(src),
        !m.contains_key(dst),
        src != dst,
    ensures
        m.insert(dst, copied).remove(src).contains_key(dst),
        m.insert(dst, copied).remove(src)[dst] == copied,
{
}

/// Deep copies are independent: once the copy is registered under `dst`,
/// writing a forward pass back to `src` cannot change what `dst` holds, and
/// a write-back to `dst` cannot change what `src` holds.
pub proof fn lemma_deep_copy_independent(
    m: Map<Seq<char>, StateHandle>,
    src: Seq<char>,
    dst: Seq<char>,
    copied: StateHandle,
    advanced: StateHandle,
)
    requires
        src != dst,
    ensures
        m.insert(dst, copied).insert(src, advanced)[dst] == copied,
        m.contains_key(src) ==> m.insert(dst, copied)[src] == m[src],
{
}

} // verus!
