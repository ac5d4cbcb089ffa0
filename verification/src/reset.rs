use vstd::prelude::*;
use crate::error::ValidationFault;

verus! {

/// A client's reset specification as the wire carries it: absent, a bare
/// boolean that covers every component, or an object naming specific
/// components (each field optional). The transport decodes the JSON payload
/// into this shape; any other JSON value becomes `Other` and is rejected.
pub enum ResetValue {
    Absent,
    Scalar(bool),
    Shaped {
        transformers: Option<Vec<Vec<bool>>>,
        sampler: Option<bool>,
        normalizer: Option<bool>,
    },
    Other,
}

/// Per-component reset-on-exhaustion flags: one per transformer (the nested
/// per-state lists flattened row by row), one for the sampler, one for the
/// normalizer.
#[derive(Debug)]
pub struct ResetSetting {
    pub transformers: Vec<bool>,
    pub sampler: bool,
    pub normalizer: bool,
}

/// The number of transformers in a nested per-state id list.
pub open spec fn flat_len(rows: Seq<Vec<String>>) -> int
    decreases rows.len(),
{
    if rows.len() == 0 {
        0
    } else {
        flat_len(rows.drop_last()) + rows.last()@.len()
    }
}

/// The nested flag rows laid out row by row.
pub open spec fn flat_flags(rows: Seq<Vec<bool>>) -> Seq<bool>
    decreases rows.len(),
{
    if rows.len() == 0 {
        Seq::empty()
    } else {
        flat_flags(rows.drop_last()) + rows.last()@
    }
}

/// Whether a nested flag list has exactly the shape of the pipeline's
/// nested transformer id list.
pub open spec fn shape_matches(rows: Seq<Vec<bool>>, ids: Seq<Vec<String>>) -> bool {
    &&& rows.len() == ids.len()
    &&& forall|i: int| 0 <= i < rows.len() ==> (#[trigger] rows[i])@.len() == ids[i]@.len()
}

pub proof fn lemma_flat_len_take(rows: Seq<Vec<String>>, i: int)
    requires
        0 <= i < rows.len(),
    ensures
        flat_len(rows.take(i + 1)) == flat_len(rows.take(i)) + rows[i]@.len(),
{
    assert(rows.take(i + 1).drop_last() =~= rows.take(i));
    assert(rows.take(i + 1).last() == rows[i]);
}

pub proof fn lemma_flat_flags_take(rows: Seq<Vec<bool>>, i: int)
    requires
        0 <= i < rows.len(),
    ensures
        flat_flags(rows.take(i + 1)) == flat_flags(rows.take(i)) + rows[i]@,
{
    assert(rows.take(i + 1).drop_last() =~= rows.take(i));
    assert(rows.take(i + 1).last() == rows[i]);
}

impl ResetSetting {
    /// One and the same flag for every component: what a scalar reset
    /// specification means.
    #[verifier::loop_isolation(false)]
    pub fn all_bool(transformers: &Vec<Vec<String>>, value: bool) -> (r: Self)
        ensures
            r.transformers@.len() == flat_len(transformers@),
            forall|i: int| 0 <= i < r.transformers@.len() ==> r.transformers@[i] == value,
            r.sampler == value,
            r.normalizer == value,
    {
        let mut flags: Vec<bool> = Vec::new();
        let mut i: usize = 0;
        while i < transformers.len()
            invariant
                i <= transformers@.len(),
                flags@.len() == flat_len(transformers@.take(i as int)),
                forall|k: int| 0 <= k < flags@.len() ==> flags@[k] == value,
            decreases transformers@.len() - i,
        {
            let row_len = transformers[i].len();
            let mut j: usize = 0;
            while j < row_len
                invariant
                    j <= row_len,
                    row_len == transformers@[i as int]@.len(),
                    flags@.len() == flat_len(transformers@.take(i as int)) + j,
                    forall|k: int| 0 <= k < flags@.len() ==> flags@[k] == value,
                decreases row_len - j,
            {
                flags.push(value);
                j = j + 1;
            }
            proof {
                lemma_flat_len_take(transformers@, i as int);
            }
            i = i + 1;
        }
        proof {
            assert(transformers@.take(transformers@.len() as int) =~= transformers@);
        }
        ResetSetting { transformers: flags, sampler: value, normalizer: value }
    }

    /// Builds the reset flags from the client's specification against the
    /// pipeline's transformer shape. Absent means reset everything; a scalar
    /// sets every flag to it; an object names components, with omitted
    /// fields defaulting to true, and its per-transformer rows must match
    /// the pipeline's shape exactly or nothing is built.
    #[verifier::loop_isolation(false)]
    pub fn from_value(transformer_ids: &Vec<Vec<String>>, value: ResetValue) -> (r: Result<
        Self,
        ValidationFault,
    >)
        ensures
            match r {
                Ok(rs) => {
                    &&& rs.transformers@.len() == flat_len(transformer_ids@)
                    &&& match value {
                        ResetValue::Absent => (forall|i: int|
                            0 <= i < rs.transformers@.len() ==> rs.transformers@[i] == true)
                            && rs.sampler == true && rs.normalizer == true,
                        ResetValue::Scalar(f) => (forall|i: int|
                            0 <= i < rs.transformers@.len() ==> rs.transformers@[i] == f)
                            && rs.sampler == f && rs.normalizer == f,
                        ResetValue::Shaped { transformers: t, sampler: s, normalizer: nz } => {
                            &&& rs.sampler == (match s {
                                Some(b) => b,
                                None => true,
                            })
                            &&& rs.normalizer == (match nz {
                                Some(b) => b,
                                None => true,
                            })
                            &&& match t {
                                Some(rows) => shape_matches(rows@, transformer_ids@)
                                    && rs.transformers@ == flat_flags(rows@),
                                None => forall|i: int|
                                    0 <= i < rs.transformers@.len() ==> rs.transformers@[i]
                                        == true,
                            }
                        },
                        ResetValue::Other => false,
                    }
                },
                Err(f) => match f {
                    ValidationFault::NotBoolOrObject => value is Other,
                    ValidationFault::ShapeMismatch => (value matches ResetValue::Shaped {
                        transformers: Some(rows),
                        ..
                    } && !shape_matches(rows@, transformer_ids@)),
                    _ => false,
                },
            },
    {
        match value {
            ResetValue::Absent => Ok(ResetSetting::all_bool(transformer_ids, true)),
            ResetValue::Scalar(flag) => Ok(ResetSetting::all_bool(transformer_ids, flag)),
            ResetValue::Other => Err(ValidationFault::NotBoolOrObject),
            ResetValue::Shaped { transformers, sampler, normalizer } => {
                let sampler_flag = match sampler {
                    Some(b) => b,
                    None => true,
                };
                let normalizer_flag = match normalizer {
                    Some(b) => b,
                    None => true,
                };
                match transformers {
                    None => {
                        let whole = ResetSetting::all_bool(transformer_ids, true);
                        Ok(
                            ResetSetting {
                                transformers: whole.transformers,
                                sampler: sampler_flag,
                                normalizer: normalizer_flag,
                            },
                        )
                    },
                    Some(rows) => {
                        if rows.len() != transformer_ids.len() {
                            return Err(ValidationFault::ShapeMismatch);
                        }
                        let mut i: usize = 0;
                        while i < rows.len()
                            invariant
                                i <= rows@.len(),
                                rows@.len() == transformer_ids@.len(),
                                forall|k: int|
                                    0 <= k < i ==> (#[trigger] rows@[k])@.len()
                                        == transformer_ids@[k]@.len(),
                            decreases rows@.len() - i,
                        {
                            if rows[i].len() != transformer_ids[i].len() {
                                return Err(ValidationFault::ShapeMismatch);
                            }
                            i = i + 1;
                        }
                        let mut flags: Vec<bool> = Vec::new();
                        let mut a: usize = 0;
                        while a < rows.len()
                            invariant
                                a <= rows@.len(),
                                flags@ == flat_flags(rows@.take(a as int)),
                            decreases rows@.len() - a,
                        {
                            let row_len = rows[a].len();
                            let mut b: usize = 0;
                            while b < row_len
                                invariant
                                    b <= row_len,
                                    row_len == rows@[a as int]@.len(),
                                    flags@ == flat_flags(rows@.take(a as int)) + rows@[a as int]@.take(b as int),
                                decreases row_len - b,
                            {
                                flags.push(rows[a][b]);
                                proof {
                                    assert(flat_flags(rows@.take(a as int)) + rows@[a as int]@.take(
                                        b as int + 1,
                                    ) =~= (flat_flags(rows@.take(a as int)) + rows@[a as int]@.take(
                                        b as int,
                                    )).push(rows@[a as int]@[b as int]));
                                }
                                b = b + 1;
                            }
                            proof {
                                lemma_flat_flags_take(rows@, a as int);
                                assert(rows@[a as int]@.take(rows@[a as int]@.len() as int)
                                    =~= rows@[a as int]@);
                            }
                            a = a + 1;
                        }
                        proof {
                            assert(rows@.take(rows@.len() as int) =~= rows@);
                            lemma_flat_flags_len_matches(rows@, transformer_ids@);
                        }
                        Ok(
                            ResetSetting {
                                transformers: flags,
                                sampler: sampler_flag,
                                normalizer: normalizer_flag,
                            },
                        )
                    },
                }
            },
        }
    }
}

/// Rows of matching shape flatten to matching widths.
pub proof fn lemma_flat_flags_len_matches(rows: Seq<Vec<bool>>, ids: Seq<Vec<String>>)
    requires
        shape_matches(rows, ids),
    ensures
        flat_flags(rows).len() == flat_len(ids),
    decreases rows.len(),
{
    if rows.len() > 0 {
        assert(forall|i: int|
            0 <= i < rows.drop_last().len() ==> (#[trigger] rows.drop_last()[i]) == rows[i]);
        assert(forall|i: int|
            0 <= i < ids.drop_last().len() ==> (#[trigger] ids.drop_last()[i]) == ids[i]);
        lemma_flat_flags_len_matches(rows.drop_last(), ids.drop_last());
    }
}

} // verus!
