use vstd::prelude::*;
use crate::api::InferStates;
use crate::error::ValidationFault;
use crate::pipeline::{contains_id, id_listed};
use crate::reset::ResetValue;

verus! {

/// Narrows raw token ids to the model's token width. The wire's `tokens`
/// field mixes id lists and raw text element by element; text goes to the
/// tokenizer collaborator first, and either way the ids come through here.
/// All of them fit or none are taken.
pub fn ids_to_tokens(ids: &Vec<u64>) -> (r: Result<Vec<u16>, ValidationFault>)
    ensures
        match r {
            Ok(ts) => {
                &&& ts@.len() == ids@.len()
                &&& forall|i: int|
                    0 <= i < ids@.len() ==> (#[trigger] ids@[i]) <= u16::MAX as u64 && ts@[i]
                        == ids@[i] as u16
            },
            Err(f) => {
                &&& f == ValidationFault::TokenOutOfRange
                &&& exists|i: int| 0 <= i < ids@.len() && (#[trigger] ids@[i]) > u16::MAX as u64
            },
        },
{
    let mut out: Vec<u16> = Vec::new();
    let mut i: usize = 0;
    while i < ids.len()
        invariant
            i <= ids@.len(),
            out@.len() == i,
            forall|k: int|
                0 <= k < i ==> (#[trigger] ids@[k]) <= u16::MAX as u64 && out@[k] == ids@[k] as u16,
        decreases ids@.len() - i,
    {
        let raw = ids[i];
        if raw > u16::MAX as u64 {
            return Err(ValidationFault::TokenOutOfRange);
        }
        out.push(raw as u16);
        i = i + 1;
    }
    Ok(out)
}

/// An `infer` request after transport decoding and tokenization: one token
/// sequence and one transformer list per named state, the sampler, terminal
/// and optional normalizer ids, whether the prompt advances the states, and
/// the reset policy for exhausted components.
pub struct InferPayload {
    pub tokens: Vec<Vec<u16>>,
    pub states: Vec<String>,
    pub transformers: Vec<Vec<String>>,
    pub sampler: String,
    pub terminal: String,
    pub normalizer: Option<String>,
    pub update_prompt: bool,
    pub reset_on_exhaustion: ResetValue,
}

/// The per-state lists must all be as long as the state list.
pub open spec fn lengths_ok(p: InferPayload) -> bool {
    &&& p.tokens@.len() == p.states@.len()
    &&& p.states@.len() == p.transformers@.len()
}

/// Every named state is registered.
pub open spec fn states_known(p: InferPayload, reg: Map<Seq<char>, crate::handle::StateHandle>) -> bool {
    forall|i: int| 0 <= i < p.states@.len() ==> reg.contains_key((#[trigger] p.states@[i])@)
}

/// Every named transformer exists in its collaborator registry.
pub open spec fn transformers_known(p: InferPayload, known: Seq<String>) -> bool {
    forall|i: int, j: int|
        0 <= i < p.transformers@.len() && 0 <= j < p.transformers@[i]@.len() ==> id_listed(
            known,
            (#[trigger] p.transformers@[i]@[j])@,
        )
}

/// The batch is non-empty and so is every per-state token list.
pub open spec fn tokens_nonempty(p: InferPayload) -> bool {
    &&& p.tokens@.len() > 0
    &&& forall|i: int| 0 <= i < p.tokens@.len() ==> (#[trigger] p.tokens@[i])@.len() > 0
}

/// The admission checks of `infer`, in the order the server makes them:
/// matching lengths, known states, known transformers, a known sampler, and
/// no empty token list. The request passes exactly when all of them hold;
/// nothing is mutated either way, so a rejected request leaves every state
/// untouched.
#[verifier::loop_isolation(false)]
pub fn validate_infer(
    p: &InferPayload,
    states: &InferStates,
    known_transformers: &Vec<String>,
    known_samplers: &Vec<String>,
) -> (r: Result<(), ValidationFault>)
    ensures
        r is Ok <==> lengths_ok(*p) && states_known(*p, states.registry@) && transformers_known(
            *p,
            known_transformers@,
        ) && id_listed(known_samplers@, p.sampler@) && tokens_nonempty(*p),
        match r {
            Ok(()) => true,
            Err(f) => match f {
                ValidationFault::LengthMismatch => !lengths_ok(*p),
                ValidationFault::UnknownState => lengths_ok(*p) && !states_known(
                    *p,
                    states.registry@,
                ),
                ValidationFault::UnknownTransformer => lengths_ok(*p) && states_known(
                    *p,
                    states.registry@,
                ) && !transformers_known(*p, known_transformers@),
                ValidationFault::UnknownSampler => lengths_ok(*p) && states_known(
                    *p,
                    states.registry@,
                ) && transformers_known(*p, known_transformers@) && !id_listed(
                    known_samplers@,
                    p.sampler@,
                ),
                ValidationFault::EmptyTokens => lengths_ok(*p) && states_known(
                    *p,
                    states.registry@,
                ) && transformers_known(*p, known_transformers@) && id_listed(
                    known_samplers@,
                    p.sampler@,
                ) && !tokens_nonempty(*p),
                _ => false,
            },
        },
{
    if p.tokens.len() != p.states.len() || p.states.len() != p.transformers.len() {
        return Err(ValidationFault::LengthMismatch);
    }
    let mut i: usize = 0;
    while i < p.states.len()
        invariant
            i <= p.states@.len(),
            forall|k: int|
                0 <= k < i ==> states.registry@.contains_key((#[trigger] p.states@[k])@),
        decreases p.states@.len() - i,
    {
        if !states.has_state(&p.states[i]) {
            return Err(ValidationFault::UnknownState);
        }
        i = i + 1;
    }
    let mut a: usize = 0;
    while a < p.transformers.len()
        invariant
            a <= p.transformers@.len(),
            forall|x: int, y: int|
                0 <= x < a && 0 <= y < p.transformers@[x]@.len() ==> id_listed(
                    known_transformers@,
                    (#[trigger] p.transformers@[x]@[y])@,
                ),
        decreases p.transformers@.len() - a,
    {
        let row_len = p.transformers[a].len();
        let mut b: usize = 0;
        while b < row_len
            invariant
                b <= row_len,
                row_len == p.transformers@[a as int]@.len(),
                a < p.transformers@.len(),
                forall|y: int|
                    0 <= y < b ==> id_listed(
                        known_transformers@,
                        (#[trigger] p.transformers@[a as int]@[y])@,
                    ),
            decreases row_len - b,
        {
            if !contains_id(known_transformers, &p.transformers[a][b]) {
                return Err(ValidationFault::UnknownTransformer);
            }
            b = b + 1;
        }
        a = a + 1;
    }
    if !contains_id(known_samplers, &p.sampler) {
        return Err(ValidationFault::UnknownSampler);
    }
    if p.tokens.len() == 0 {
        return Err(ValidationFault::EmptyTokens);
    }
    let mut t: usize = 0;
    while t < p.tokens.len()
        invariant
            t <= p.tokens@.len(),
            forall|k: int| 0 <= k < t ==> (#[trigger] p.tokens@[k])@.len() > 0,
        decreases p.tokens@.len() - t,
    {
        if p.tokens[t].len() == 0 {
            return Err(ValidationFault::EmptyTokens);
        }
        t = t + 1;
    }
    Ok(())
}

} // verus!
