//! The bridge between templates and an index that only knows flat word
//! vectors: a vector holds the code words followed by the mask words.

use crate::bitvec::{IrisCodeArray, IRIS_CODE_SIZE, IRIS_CODE_SIZE_U64};
use crate::template::{IrisCode, MaskedDistance, MERGED_SIZE_U64};
use bytemuck::PodCastError;
use std::sync::atomic::AtomicUsize;
use std::sync::atomic::Ordering;
use vstd::prelude::*;

verus! {

/// `bytemuck::PodCastError`, the reason a slice cast was refused.
#[verifier::external_type_specification]
#[verifier::external_body]
pub struct ExPodCastError(PodCastError);

/// `bytemuck::try_cast_slice` from `u64` to `u64`. Source and target have
/// the same size and alignment, so the cast succeeds and hands back the same
/// words.
#[verifier::external_body]
pub(crate) fn try_cast_words(code: &[u64]) -> (cast: Result<&[u64], PodCastError>)
    ensures
        cast is Ok,
        cast->Ok_0@ == code@,
{
    bytemuck::try_cast_slice(code)
}

/// The template that a flat vector of `MERGED_SIZE_U64` words stands for.
pub open spec fn spec_split(words: Seq<u64>) -> IrisCode {
    IrisCode {
        code: IrisCodeArray([words[0], words[1]]),
        mask: IrisCodeArray([words[2], words[3]]),
    }
}

/// The words of one half of a flat vector as an array.
pub fn to_array(code: &[u64]) -> (words: [u64; IRIS_CODE_SIZE_U64])
    requires
        code@.len() == IRIS_CODE_SIZE_U64,
    ensures
        words@ == code@,
{
    let same = try_cast_words(code).unwrap();
    let words = [same[0], same[1]];
    assert(words@ =~= code@);
    words
}

/// Splits a flat vector at its midpoint into the code and the mask of a
/// template.
pub fn split(words: &[u64]) -> (iris: IrisCode)
    requires
        words@.len() == MERGED_SIZE_U64,
    ensures
        iris == spec_split(words@),
{
    let code = IrisCodeArray(to_array(&words[0..IRIS_CODE_SIZE_U64]));
    let mask = IrisCodeArray(to_array(&words[IRIS_CODE_SIZE_U64..MERGED_SIZE_U64]));
    assert(code.0 =~= spec_split(words@).code.0);
    assert(mask.0 =~= spec_split(words@).mask.0);
    IrisCode { code, mask }
}

/// Laying a template out flat and splitting the words again gives the
/// template back, bit for bit.
pub proof fn lemma_merge_split_round_trip(iris: IrisCode)
    ensures
        spec_split(iris.code.0@ + iris.mask.0@) == iris,
        spec_split(iris.code.0@ + iris.mask.0@).code@ == iris.code@,
        spec_split(iris.code.0@ + iris.mask.0@).mask@ == iris.mask@,
{
    let back = spec_split(iris.code.0@ + iris.mask.0@);
    assert(back.code.0 =~= iris.code.0);
    assert(back.mask.0 =~= iris.mask.0);
}

/// The masked Hamming distance as a metric on flat vectors, together with a
/// count of the evaluations made through it.
pub struct HD {
    evaluations: AtomicUsize,
}

impl HD {
    /// A metric that has not been evaluated yet.
    pub fn new() -> HD {
        HD { evaluations: AtomicUsize::new(0) }
    }

    /// The distance between the templates that two flat vectors stand for.
    /// Every call adds one to the evaluation count.
    pub fn eval(&self, va: &[u64], vb: &[u64]) -> (distance: Option<MaskedDistance>)
        requires
            va@.len() == MERGED_SIZE_U64,
            vb@.len() == MERGED_SIZE_U64,
        ensures
            distance == spec_split(va@).spec_distance(&spec_split(vb@)),
            distance matches Some(d) ==> d.differing <= d.compared && 0 < d.compared
                <= IRIS_CODE_SIZE,
    {
        self.evaluations.fetch_add(1, Ordering::Relaxed);
        let code1 = split(va);
        let code2 = split(vb);
        code1.get_distance(&code2)
    }

    /// Sets the evaluation count back to zero.
    pub fn reset_evaluations(&self) {
        self.evaluations.store(0, Ordering::Relaxed);
    }

    /// The number of evaluations since the metric was made or last reset.
    /// Other threads may be evaluating meanwhile, so nothing is claimed of
    /// the number.
    pub fn evaluations(&self) -> usize {
        self.evaluations.load(Ordering::Relaxed)
    }
}

} // verus!
