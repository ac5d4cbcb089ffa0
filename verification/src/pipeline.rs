use vstd::prelude::*;
use crate::error::ValidationFault;
use crate::reset::ResetSetting;

verus! {

/// Whether some id in the list spells `x`.
pub open spec fn id_listed(ids: Seq<String>, x: Seq<char>) -> bool {
    exists|i: int| 0 <= i < ids.len() && (#[trigger] ids[i])@ == x
}

/// The nested per-state transformer id lists laid out row by row.
pub open spec fn flat_ids(rows: Seq<Vec<String>>) -> Seq<String>
    decreases rows.len(),
{
    if rows.len() == 0 {
        Seq::empty()
    } else {
        flat_ids(rows.drop_last()) + rows.last()@
    }
}

/// No id is spelled twice.
pub open spec fn distinct_ids(s: Seq<String>) -> bool {
    forall|i: int, j: int|
        0 <= i < j < s.len() ==> (#[trigger] s[i])@ != (#[trigger] s[j])@
}

pub proof fn lemma_flat_ids_take(rows: Seq<Vec<String>>, i: int)
    requires
        0 <= i < rows.len(),
    ensures
        flat_ids(rows.take(i + 1)) == flat_ids(rows.take(i)) + rows[i]@,
{
    assert(rows.take(i + 1).drop_last() =~= rows.take(i));
    assert(rows.take(i + 1).last() == rows[i]);
}

/// Whether the list holds an id spelling `x`.
pub fn contains_id(ids: &Vec<String>, x: &String) -> (r: bool)
    ensures
        r == id_listed(ids@, x@),
{
    let mut i: usize = 0;
    while i < ids.len()
        invariant
            i <= ids@.len(),
            forall|k: int| 0 <= k < i ==> (#[trigger] ids@[k])@ != x@,
        decreases ids@.len() - i,
    {
        if ids[i] == *x {
            return true;
        }
        i = i + 1;
    }
    false
}

/// The per-generation pipeline: the component ids it was built over, frozen
/// at construction. The live components stay in their collaborator
/// registries, which hand out exclusive borrows for the generation's
/// lifetime, so later registry changes cannot reach a built pipeline.
#[derive(Debug)]
pub struct SamplePipeline {
    pub transformers: Vec<Vec<String>>,
    pub sampler: String,
    pub terminal: String,
    pub normalizer: Option<String>,
    pub reset_setting: ResetSetting,
}

impl SamplePipeline {
    /// Resolves the named components once. Every transformer id may appear
    /// in at most one list, every named component must exist in its
    /// registry, and the whole construction fails fast on the first id that
    /// breaks either rule — nothing is borrowed until everything resolves.
    #[verifier::loop_isolation(false)]
    pub fn new(
        transformers: Vec<Vec<String>>,
        sampler: String,
        terminal: String,
        normalizer: Option<String>,
        reset_setting: ResetSetting,
        known_transformers: &Vec<String>,
        known_samplers: &Vec<String>,
        known_terminals: &Vec<String>,
        known_normalizers: &Vec<String>,
    ) -> (r: Result<SamplePipeline, ValidationFault>)
        ensures
            match r {
                Ok(p) => {
                    &&& p.transformers == transformers
                    &&& p.sampler == sampler
                    &&& p.terminal == terminal
                    &&& p.normalizer == normalizer
                    &&& p.reset_setting == reset_setting
                    &&& distinct_ids(flat_ids(transformers@))
                    &&& forall|k: int|
                        0 <= k < flat_ids(transformers@).len() ==> id_listed(
                            known_transformers@,
                            (#[trigger] flat_ids(transformers@)[k])@,
                        )
                    &&& id_listed(known_samplers@, sampler@)
                    &&& id_listed(known_terminals@, terminal@)
                    &&& (normalizer matches Some(nid) ==> id_listed(known_normalizers@, nid@))
                },
                Err(f) => match f {
                    ValidationFault::DuplicateTransformer => !distinct_ids(flat_ids(transformers@)),
                    ValidationFault::UnknownTransformer => distinct_ids(flat_ids(transformers@))
                        && (exists|k: int|
                        0 <= k < flat_ids(transformers@).len() && !id_listed(
                            known_transformers@,
                            (#[trigger] flat_ids(transformers@)[k])@,
                        )),
                    ValidationFault::UnknownSampler => distinct_ids(flat_ids(transformers@))
                        && (forall|k: int|
                        0 <= k < flat_ids(transformers@).len() ==> id_listed(
                            known_transformers@,
                            (#[trigger] flat_ids(transformers@)[k])@,
                        )) && !id_listed(known_samplers@, sampler@),
                    ValidationFault::UnknownTerminal => distinct_ids(flat_ids(transformers@))
                        && (forall|k: int|
                        0 <= k < flat_ids(transformers@).len() ==> id_listed(
                            known_transformers@,
                            (#[trigger] flat_ids(transformers@)[k])@,
                        )) && id_listed(known_samplers@, sampler@) && !id_listed(
                        known_terminals@,
                        terminal@,
                    ),
                    ValidationFault::UnknownNormalizer => distinct_ids(flat_ids(transformers@))
                        && (forall|k: int|
                        0 <= k < flat_ids(transformers@).len() ==> id_listed(
                            known_transformers@,
                            (#[trigger] flat_ids(transformers@)[k])@,
                        )) && id_listed(known_samplers@, sampler@) && id_listed(
                        known_terminals@,
                        terminal@,
                    ) && (normalizer matches Some(nid) && !id_listed(known_normalizers@, nid@)),
                    _ => false,
                },
            },
    {
        let mut flat: Vec<String> = Vec::new();
        let mut i: usize = 0;
        while i < transformers.len()
            invariant
                i <= transformers@.len(),
                flat@ == flat_ids(transformers@.take(i as int)),
            decreases transformers@.len() - i,
        {
            let row_len = transformers[i].len();
            let mut j: usize = 0;
            while j < row_len
                invariant
                    j <= row_len,
                    row_len == transformers@[i as int]@.len(),
                    flat@ == flat_ids(transformers@.take(i as int)) + transformers@[i as int]@.take(
                        j as int,
                    ),
                decreases row_len - j,
            {
                flat.push(transformers[i][j].clone());
                proof {
                    assert(flat_ids(transformers@.take(i as int)) + transformers@[i as int]@.take(
                        j as int + 1,
                    ) =~= (flat_ids(transformers@.take(i as int))
                        + transformers@[i as int]@.take(j as int)).push(
                        transformers@[i as int]@[j as int],
                    ));
                }
                j = j + 1;
            }
            proof {
                lemma_flat_ids_take(transformers@, i as int);
                assert(transformers@[i as int]@.take(transformers@[i as int]@.len() as int)
                    =~= transformers@[i as int]@);
            }
            i = i + 1;
        }
        proof {
            assert(transformers@.take(transformers@.len() as int) =~= transformers@);
        }
        let mut a: usize = 0;
        while a < flat.len()
            invariant
                a <= flat@.len(),
                flat@ == flat_ids(transformers@),
                forall|x: int, y: int|
                    0 <= x < y < flat@.len() && x < a ==> (#[trigger] flat@[x])@ != (
                    #[trigger] flat@[y])@,
            decreases flat@.len() - a,
        {
            let mut b: usize = a + 1;
            while b < flat.len()
                invariant
                    a < b <= flat@.len() || (a + 1 == b && b > flat@.len() - 1),
                    a < flat@.len(),
                    flat@ == flat_ids(transformers@),
                    forall|y: int| a < y < b ==> (#[trigger] flat@[y])@ != flat@[a as int]@,
                decreases flat@.len() - b,
            {
                if flat[a] == flat[b] {
                    return Err(ValidationFault::DuplicateTransformer);
                }
                b = b + 1;
            }
            a = a + 1;
        }
        let mut k: usize = 0;
        while k < flat.len()
            invariant
                k <= flat@.len(),
                flat@ == flat_ids(transformers@),
                distinct_ids(flat@),
                forall|m: int|
                    0 <= m < k ==> id_listed(known_transformers@, (#[trigger] flat@[m])@),
            decreases flat@.len() - k,
        {
            if !contains_id(known_transformers, &flat[k]) {
                return Err(ValidationFault::UnknownTransformer);
            }
            k = k + 1;
        }
        if !contains_id(known_samplers, &sampler) {
            return Err(ValidationFault::UnknownSampler);
        }
        if !contains_id(known_terminals, &terminal) {
            return Err(ValidationFault::UnknownTerminal);
        }
        match &normalizer {
            Some(nid) => {
                if !contains_id(known_normalizers, nid) {
                    return Err(ValidationFault::UnknownNormalizer);
                }
            },
            None => {},
        }
        Ok(SamplePipeline { transformers, sampler, terminal, normalizer, reset_setting })
    }
}

/// Which live components `reset` clears, one flag per component in pipeline
/// order.
pub struct ResetTargets {
    pub transformers: Vec<bool>,
    pub sampler: bool,
    pub normalizer: bool,
}

impl SamplePipeline {
    /// What `reset` clears: each transformer exactly per its flag in the
    /// reset policy, the sampler per its flag, and the normalizer per its
    /// flag — but only when a normalizer is bound at all.
    pub fn reset_targets(&self) -> (r: ResetTargets)
        ensures
            r.transformers@ == self.reset_setting.transformers@,
            r.sampler == self.reset_setting.sampler,
            r.normalizer == (self.reset_setting.normalizer && self.normalizer is Some),
    {
        let mut flags: Vec<bool> = Vec::new();
        let mut i: usize = 0;
        while i < self.reset_setting.transformers.len()
            invariant
                i <= self.reset_setting.transformers@.len(),
                flags@ == self.reset_setting.transformers@.take(i as int),
            decreases self.reset_setting.transformers@.len() - i,
        {
            flags.push(self.reset_setting.transformers[i]);
            proof {
                assert(self.reset_setting.transformers@.take(i as int + 1)
                    =~= self.reset_setting.transformers@.take(i as int).push(
                    self.reset_setting.transformers@[i as int],
                ));
            }
            i = i + 1;
        }
        proof {
            assert(self.reset_setting.transformers@.take(
                self.reset_setting.transformers@.len() as int,
            ) =~= self.reset_setting.transformers@);
        }
        let has_normalizer = match &self.normalizer {
            Some(_) => true,
            None => false,
        };
        ResetTargets {
            transformers: flags,
            sampler: self.reset_setting.sampler,
            normalizer: self.reset_setting.normalizer && has_normalizer,
        }
    }
}

/// How one component's `update` round ended. The components run in order —
/// each state's transformers first, then the sampler on the whole batch —
/// and the outcomes arrive in that order.
pub enum ComponentOutcome {
    Done,
    Exhausted,
    Failed(String),
}

/// What a round of updates means for the generation.
pub enum PipelineVerdict {
    Proceed,
    Exhausted,
    Failed(String),
}

/// The verdict of a round is the first outcome that is not clean.
pub open spec fn verdict_of(s: Seq<ComponentOutcome>) -> PipelineVerdict
    decreases s.len(),
{
    if s.len() == 0 {
        PipelineVerdict::Proceed
    } else {
        match s[0] {
            ComponentOutcome::Done => verdict_of(s.skip(1)),
            ComponentOutcome::Exhausted => PipelineVerdict::Exhausted,
            ComponentOutcome::Failed(m) => PipelineVerdict::Failed(m),
        }
    }
}

/// What `update` decides for one round: which components to reset, and
/// whether the generation proceeds, ends on exhaustion, or aborts.
pub struct UpdatePlan {
    pub resets: Vec<bool>,
    pub verdict: PipelineVerdict,
}

/// Applies the reset policy to a round of component outcomes: a component is
/// reset exactly when it reported exhaustion and its flag allows it, and the
/// round's verdict is the first outcome that is not clean.
#[verifier::loop_isolation(false)]
pub fn plan_update(outcomes: &Vec<ComponentOutcome>, flags: &Vec<bool>) -> (r: UpdatePlan)
    requires
        flags@.len() == outcomes@.len(),
    ensures
        r.resets@.len() == outcomes@.len(),
        forall|i: int|
            0 <= i < outcomes@.len() ==> r.resets@[i] == (outcomes@[i] is Exhausted
                && flags@[i]),
        r.verdict == verdict_of(outcomes@),
{
    let mut resets: Vec<bool> = Vec::new();
    let mut i: usize = 0;
    while i < outcomes.len()
        invariant
            i <= outcomes@.len(),
            resets@.len() == i,
            forall|k: int|
                0 <= k < i ==> resets@[k] == (outcomes@[k] is Exhausted && flags@[k]),
        decreases outcomes@.len() - i,
    {
        let exhausted = match &outcomes[i] {
            ComponentOutcome::Exhausted => true,
            _ => false,
        };
        resets.push(exhausted && flags[i]);
        i = i + 1;
    }
    let mut j: usize = 0;
    proof {
        assert(outcomes@.skip(0) =~= outcomes@);
    }
    while j < outcomes.len()
        invariant
            j <= outcomes@.len(),
            verdict_of(outcomes@) == verdict_of(outcomes@.skip(j as int)),
            forall|k: int| 0 <= k < j ==> outcomes@[k] is Done,
        decreases outcomes@.len() - j,
    {
        proof {
            assert(outcomes@.skip(j as int)[0] == outcomes@[j as int]);
            assert(outcomes@.skip(j as int).skip(1) =~= outcomes@.skip(j as int + 1));
        }
        match &outcomes[j] {
            ComponentOutcome::Done => {},
            ComponentOutcome::Exhausted => {
                return UpdatePlan { resets, verdict: PipelineVerdict::Exhausted };
            },
            ComponentOutcome::Failed(msg) => {
                return UpdatePlan { resets, verdict: PipelineVerdict::Failed(msg.clone()) };
            },
        }
        j = j + 1;
    }
    proof {
        assert(outcomes@.skip(outcomes@.len() as int) =~= Seq::<ComponentOutcome>::empty());
    }
    UpdatePlan { resets, verdict: PipelineVerdict::Proceed }
}

} // verus!
