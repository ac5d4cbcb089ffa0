use vstd::prelude::*;
use vstd::pervasive::VecAdditionalExecFns;
use crate::error::ValidationFault;

verus! {

/// The two recurrent model variants that the façade hides behind one
/// interface. The kernels themselves are GPU collaborators; the core only
/// arbitrates which operations the variants permit together.
#[derive(Clone, Copy, PartialEq, Eq, Structural, Debug)]
pub enum ModelVariant {
    V4,
    V5,
}

/// Whether a slot-to-slot copy of recurrent state may run: blitting works
/// exactly between states of one and the same model variant.
pub fn blit_allowed(src: ModelVariant, dst: ModelVariant) -> (r: Result<(), ValidationFault>)
    ensures
        r is Ok <==> src == dst,
        src != dst ==> r == Err::<(), ValidationFault>(ValidationFault::MismatchedState),
    {
    if src == dst {
        Ok(())
    } else {
        Err(ValidationFault::MismatchedState)
    }
}

/// Whether a CPU-backed state may be loaded into (or read back from) a GPU
/// state: again only within one model variant.
pub fn load_allowed(backed: ModelVariant, live: ModelVariant) -> (r: Result<(), ValidationFault>)
    ensures
        r is Ok <==> backed == live,
        backed != live ==> r == Err::<(), ValidationFault>(ValidationFault::MismatchedState),
    {
    if backed == live {
        Ok(())
    } else {
        Err(ValidationFault::MismatchedState)
    }
}

/// One round of the façade's token bookkeeping. The kernel consumes a
/// prefix of each slot's sequence in a forward pass; the remainder stays in
/// the slot's buffer, carried to the next call, and a slot yields logits
/// exactly when its sequence was non-empty and fully consumed this pass. An
/// empty sequence means the slot was idle.
#[verifier::loop_isolation(false)]
pub fn carry_tokens(buffers: &mut Vec<Vec<u16>>, consumed: &Vec<usize>) -> (produced: Vec<bool>)
    requires
        consumed@.len() == old(buffers)@.len(),
        forall|i: int|
            0 <= i < consumed@.len() ==> (#[trigger] consumed@[i]) <= old(buffers)@[i]@.len(),
    ensures
        final(buffers)@.len() == old(buffers)@.len(),
        forall|i: int|
            0 <= i < final(buffers)@.len() ==> (#[trigger] final(buffers)@[i])@ == old(buffers)@[i]@.skip(consumed@[i] as int),
        produced@.len() == old(buffers)@.len(),
        forall|i: int|
            0 <= i < produced@.len() ==> (#[trigger] produced@[i]) == (old(buffers)@[i]@.len() > 0
                && consumed@[i] == old(buffers)@[i]@.len()),
{
    let mut produced: Vec<bool> = Vec::new();
    let mut i: usize = 0;
    while i < buffers.len()
        invariant
            i <= buffers@.len(),
            buffers@.len() == old(buffers)@.len(),
            produced@.len() == i,
            forall|k: int|
                0 <= k < i ==> (#[trigger] buffers@[k])@ == old(buffers)@[k]@.skip(
                    consumed@[k] as int,
                ),
            forall|k: int| i <= k < buffers@.len() ==> buffers@[k] == old(buffers)@[k],
            forall|k: int|
                0 <= k < i ==> (#[trigger] produced@[k]) == (old(buffers)@[k]@.len() > 0
                    && consumed@[k] == old(buffers)@[k]@.len()),
        decreases buffers@.len() - i,
    {
        let mut row: Vec<u16> = Vec::new();
        buffers.set_and_swap(i, &mut row);
        let total = row.len();
        let eaten = consumed[i];
        produced.push(total > 0 && eaten == total);
        let mut rest: Vec<u16> = Vec::new();
        let mut j: usize = eaten;
        while j < total
            invariant
                eaten <= j <= total,
                total == row@.len(),
                row@ == old(buffers)@[i as int]@,
                rest@ == old(buffers)@[i as int]@.subrange(eaten as int, j as int),
            decreases total - j,
        {
            rest.push(row[j]);
            proof {
                assert(old(buffers)@[i as int]@.subrange(eaten as int, j as int + 1) =~= old(buffers)@[i as int]@.subrange(eaten as int, j as int).push(
                    old(buffers)@[i as int]@[j as int],
                ));
            }
            j = j + 1;
        }
        proof {
            assert(old(buffers)@[i as int]@.subrange(eaten as int, total as int) =~= old(buffers)@[i as int]@.skip(eaten as int));
        }
        buffers.set_and_swap(i, &mut rest);
        i = i + 1;
    }
    produced
}

/// The façade's forward loop runs the kernel until at least one slot has
/// yielded logits; this is its exit test over the per-slot availability of
/// this round.
pub fn pass_complete(produced: &Vec<bool>) -> (r: bool)
    ensures
        r == exists|i: int| 0 <= i < produced@.len() && produced@[i],
{
    let mut i: usize = 0;
    while i < produced.len()
        invariant
            i <= produced@.len(),
            forall|k: int| 0 <= k < i ==> !produced@[k],
        decreases produced@.len() - i,
    {
        if produced[i] {
            return true;
        }
        i = i + 1;
    }
    false
}

} // verus!
