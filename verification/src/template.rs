//! Iris templates and the masked Hamming distance between them.

use crate::bitvec::{
    count_true, count_true_below, lemma_count_true_bounds, lemma_count_true_monotone, seq_and, seq_xor,
    IrisCodeArray, IRIS_CODE_SIZE, IRIS_CODE_SIZE_U64,
};
use crate::random::{chance, index_below};
use rand::rngs::StdRng;
use vstd::prelude::*;

verus! {

/// Numerator of the match threshold. Two templates match when their
/// distance is below
/// `MATCH_THRESHOLD_NUMERATOR / MATCH_THRESHOLD_DENOMINATOR`, that is 0.375.
pub const MATCH_THRESHOLD_NUMERATOR: usize = 3;

/// Denominator of the match threshold.
pub const MATCH_THRESHOLD_DENOMINATOR: usize = 8;

/// Numerator of the noise rate. A re-capture flips each bit with
/// probability `NOISE_NUMERATOR / NOISE_DENOMINATOR`, that is 0.05.
pub const NOISE_NUMERATOR: u32 = 1;

/// Denominator of the noise rate.
pub const NOISE_DENOMINATOR: u32 = 20;

/// Number of mask pairs that a random template draws for clearing.
pub const CLEARED_PAIR_DRAWS: usize = IRIS_CODE_SIZE / 10 / 2;

/// Number of words of a template laid out flat: the code words, then the
/// mask words.
pub const MERGED_SIZE_U64: usize = IRIS_CODE_SIZE_U64 + IRIS_CODE_SIZE_U64;

/// A masked Hamming distance as a fraction: of `compared` positions that are
/// valid in both masks, `differing` hold different code bits.
#[derive(Clone, Copy, Debug, PartialEq, Eq)]
pub struct MaskedDistance {
    pub differing: usize,
    pub compared: usize,
}

/// An iris template: the feature bits and the mask that says which of them
/// are valid for comparison.
#[derive(Clone, Copy, Debug, PartialEq, Eq)]
pub struct IrisCode {
    pub code: IrisCodeArray,
    pub mask: IrisCodeArray,
}

/// The mask that is set everywhere but on the pairs in `draws`: pair `k`
/// covers positions `2k` and `2k + 1`.
pub open spec fn mask_without_pairs(draws: Seq<int>) -> Seq<bool> {
    Seq::new(IRIS_CODE_SIZE as nat, |i: int| !draws.contains(i / 2))
}

/// Pair indices as mathematical integers.
pub open spec fn pair_indices(pairs: Seq<usize>) -> Seq<int> {
    pairs.map_values(|p: usize| p as int)
}

impl IrisCode {
    /// The positions that are valid in both masks.
    pub open spec fn combined_mask(&self, other: &Self) -> Seq<bool> {
        seq_and(self.mask@, other.mask@)
    }

    /// The positions that are valid in both masks and hold different code
    /// bits.
    pub open spec fn disagreement(&self, other: &Self) -> Seq<bool> {
        seq_and(seq_xor(self.code@, other.code@), self.combined_mask(other))
    }

    /// The masked Hamming distance: the share of differing code bits among
    /// the positions valid in both masks, and `None` where no position is.
    pub open spec fn spec_distance(&self, other: &Self) -> Option<MaskedDistance> {
        let compared = count_true(self.combined_mask(other));
        let differing = count_true(self.disagreement(other));
        if compared == 0 {
            None
        } else {
            Some(MaskedDistance { differing: differing as usize, compared: compared as usize })
        }
    }

    /// Whether the distance is defined and below the match threshold.
    pub open spec fn spec_is_close(&self, other: &Self) -> bool {
        match self.spec_distance(other) {
            Some(d) => d.differing * MATCH_THRESHOLD_DENOMINATOR < MATCH_THRESHOLD_NUMERATOR
                * d.compared,
            None => false,
        }
    }

    /// Whether the two positions of every mask pair, `2k` and `2k + 1`, are
    /// both set or both clear.
    pub open spec fn mask_is_pairwise(&self) -> bool {
        forall|i: int, j: int|
            0 <= i < IRIS_CODE_SIZE && 0 <= j < IRIS_CODE_SIZE && i / 2 == j / 2
                ==> self.mask@[i] == self.mask@[j]
    }

    /// Whether the mask is the full mask with the pairs of
    /// `CLEARED_PAIR_DRAWS` draws cleared.
    pub open spec fn has_drawn_mask(&self) -> bool {
        exists|draws: Seq<int>|
            {
                &&& draws.len() == CLEARED_PAIR_DRAWS
                &&& forall|n: int|
                    0 <= n < draws.len() ==> 0 <= #[trigger] draws[n] < IRIS_CODE_SIZE / 2
                &&& self.mask@ == mask_without_pairs(draws)
            }
    }

    /// Whether `noisy` is this template after a re-capture with the given
    /// draws: draw `2i` says whether code bit `i` flips, draw `2i + 1`
    /// whether mask bit `i` flips.
    pub open spec fn is_recapture(&self, draws: Seq<bool>, noisy: IrisCode) -> bool {
        &&& forall|i: int|
            0 <= i < IRIS_CODE_SIZE ==> #[trigger] noisy.code@[i] == (self.code@[i] != draws[2
                * i])
        &&& forall|i: int|
            0 <= i < IRIS_CODE_SIZE ==> #[trigger] noisy.mask@[i] == (self.mask@[i] != draws[2
                * i + 1])
    }

    /// The masked Hamming distance to `other`. `None` stands for the
    /// undefined ratio of two templates that share no valid position.
    pub fn get_distance(&self, other: &Self) -> (distance: Option<MaskedDistance>)
        ensures
            distance == self.spec_distance(other),
            distance matches Some(d) ==> d.differing <= d.compared && 0 < d.compared
                <= IRIS_CODE_SIZE,
    {
        let combined_mask = self.mask.bitand(other.mask);
        let combined_mask_len = combined_mask.count_ones();
        let combined_code = self.code.bitxor(other.code).bitand(combined_mask);
        let code_distance = combined_code.count_ones();
        proof {
            assert(combined_mask@ =~= self.combined_mask(other));
            assert(combined_code@ =~= self.disagreement(other));
            lemma_count_true_monotone(combined_code@, combined_mask@, IRIS_CODE_SIZE as nat);
        }
        if combined_mask_len == 0 {
            None
        } else {
            Some(MaskedDistance { differing: code_distance, compared: combined_mask_len })
        }
    }

    /// Whether `other` is near enough to count as the same identity.
    pub fn is_close(&self, other: &Self) -> (close: bool)
        ensures
            close == self.spec_is_close(other),
    {
        match self.get_distance(other) {
            Some(d) => d.differing * MATCH_THRESHOLD_DENOMINATOR < MATCH_THRESHOLD_NUMERATOR
                * d.compared,
            None => false,
        }
    }

    /// The template as one flat array: the code words, then the mask words.
    pub fn as_merged_array(&self) -> (words: [u64; MERGED_SIZE_U64])
        ensures
            words@ == self.code.0@ + self.mask.0@,
    {
        let mut res: [u64; MERGED_SIZE_U64] = [0;MERGED_SIZE_U64];
        for k in 0..IRIS_CODE_SIZE_U64
            invariant
                forall|j: int| 0 <= j < k ==> res[j] == self.code.0[j],
                forall|j: int| 0 <= j < k ==> res[IRIS_CODE_SIZE_U64 + j] == self.mask.0[j],
        {
            res[k] = self.code.0[k];
            res[IRIS_CODE_SIZE_U64 + k] = self.mask.0[k];
        }
        assert(res@ =~= self.code.0@ + self.mask.0@);
        res
    }

    /// Clears the two mask positions of pair `k`, `2k` and `2k + 1`, and
    /// leaves the code and the rest of the mask as they were.
    pub fn occlude_pair(&mut self, k: usize)
        requires
            k < IRIS_CODE_SIZE / 2,
        ensures
            final(self).code == old(self).code,
            final(self).mask@ == without_pair(old(self).mask@, k as int),
    {
        self.mask.set_bit(2 * k, false);
        self.mask.set_bit(2 * k + 1, false);
        assert(self.mask@ =~= without_pair(old(self).mask@, k as int));
    }

    /// The template with the given code and the full mask with the given
    /// pairs cleared. A pair may be named more than once.
    pub fn with_cleared_pairs(code: IrisCodeArray, pairs: &Vec<usize>) -> (iris: Self)
        requires
            forall|n: int| 0 <= n < pairs@.len() ==> pairs@[n] < IRIS_CODE_SIZE / 2,
        ensures
            iris.code == code,
            iris.mask@ == mask_without_pairs(pair_indices(pairs@)),
            iris.mask_is_pairwise(),
            IRIS_CODE_SIZE - 2 * pairs@.len() <= count_true(iris.mask@) <= IRIS_CODE_SIZE,
            pairs@.len() > 0 ==> count_true(iris.mask@) <= IRIS_CODE_SIZE - 2,
    {
        let mut iris = IrisCode { code, mask: IrisCodeArray::ones() };
        let ghost mut draws: Seq<int> = Seq::empty();
        assert(iris.mask@ =~= mask_without_pairs(draws));
        proof {
            lemma_count_true_bounds(iris.mask@, IRIS_CODE_SIZE as nat);
        }
        for n in 0..pairs.len()
            invariant
                forall|m: int| 0 <= m < pairs@.len() ==> pairs@[m] < IRIS_CODE_SIZE / 2,
                draws.len() == n,
                forall|m: int| 0 <= m < n ==> #[trigger] draws[m] == pairs@[m],
                iris.code == code,
                iris.mask@ == mask_without_pairs(draws),
                IRIS_CODE_SIZE - 2 * n <= count_true(iris.mask@) <= IRIS_CODE_SIZE,
                n > 0 ==> count_true(iris.mask@) <= IRIS_CODE_SIZE - 2,
        {
            let ghost mask_before = iris.mask@;
            let i = pairs[n];
            iris.occlude_pair(i);
            proof {
                lemma_without_pair_count(mask_before, i as int, IRIS_CODE_SIZE as nat);
                if n == 0 {
                    assert(mask_before[2 * i] && mask_before[2 * i + 1]);
                }
                let before = draws;
                draws = draws.push(i as int);
                assert forall|p: int| 0 <= p < IRIS_CODE_SIZE implies iris.mask@[p]
                    == mask_without_pairs(draws)[p] by {
                    if before.contains(p / 2) {
                        let m = choose|m: int| 0 <= m < before.len() && before[m] == p / 2;
                        assert(draws[m] == p / 2);
                    }
                    if p / 2 == i as int {
                        assert(draws[n as int] == p / 2);
                    }
                }
                assert(iris.mask@ =~= mask_without_pairs(draws));
            }
        }
        proof {
            assert(draws =~= pair_indices(pairs@));
            lemma_cleared_pairs_are_pairwise(iris, draws);
        }
        iris
    }

    /// A random template: the code bits are drawn from `rng`, and the mask is
    /// set everywhere but on `CLEARED_PAIR_DRAWS` pairs drawn from `rng`. A
    /// pair may be drawn more than once, so between one pair and
    /// `CLEARED_PAIR_DRAWS` pairs end up cleared. The result is
    /// `with_cleared_pairs` of the drawn code and the drawn pairs.
    pub fn random_rng(rng: &mut StdRng) -> (iris: Self)
        ensures
            iris.has_drawn_mask(),
            iris.mask_is_pairwise(),
            IRIS_CODE_SIZE - 2 * CLEARED_PAIR_DRAWS <= count_true(iris.mask@) <= IRIS_CODE_SIZE - 2,
    {
        let code = IrisCodeArray::random_rng(rng);
        let mut pairs: Vec<usize> = Vec::new();
        for n in 0..CLEARED_PAIR_DRAWS
            invariant
                pairs@.len() == n,
                forall|m: int| 0 <= m < n ==> pairs@[m] < IRIS_CODE_SIZE / 2,
        {
            pairs.push(index_below(rng, IRIS_CODE_SIZE / 2));
        }
        let iris = IrisCode::with_cleared_pairs(code, &pairs);
        proof {
            let draws = pair_indices(pairs@);
            assert(draws.len() == CLEARED_PAIR_DRAWS);
            assert forall|n: int| 0 <= n < draws.len() implies 0 <= #[trigger] draws[n]
                < IRIS_CODE_SIZE / 2 by {
                assert(draws[n] == pairs@[n]);
            }
        }
        iris
    }

    /// The template with every position flipped where the flip vectors are
    /// set: code bits by `code_flips`, mask bits by `mask_flips`.
    pub fn with_flips(&self, code_flips: IrisCodeArray, mask_flips: IrisCodeArray) -> (noisy:
        IrisCode)
        ensures
            noisy.code@ == seq_xor(self.code@, code_flips@),
            noisy.mask@ == seq_xor(self.mask@, mask_flips@),
    {
        let noisy = IrisCode {
            code: self.code.bitxor(code_flips),
            mask: self.mask.bitxor(mask_flips),
        };
        assert(noisy.code@ =~= seq_xor(self.code@, code_flips@));
        assert(noisy.mask@ =~= seq_xor(self.mask@, mask_flips@));
        noisy
    }

    /// The template after a re-capture with the given draws, two for every
    /// position in turn: draw `2i` says whether code bit `i` flips, draw
    /// `2i + 1` whether mask bit `i` flips.
    pub fn with_draws(&self, draws: &Vec<bool>) -> (noisy: IrisCode)
        requires
            draws@.len() == 2 * IRIS_CODE_SIZE,
        ensures
            self.is_recapture(draws@, noisy),
    {
        let mut code_flips = IrisCodeArray::zero();
        let mut mask_flips = IrisCodeArray::zero();
        for i in 0..IRIS_CODE_SIZE
            invariant
                draws@.len() == 2 * IRIS_CODE_SIZE,
                forall|j: int|
                    0 <= j < IRIS_CODE_SIZE ==> #[trigger] code_flips@[j] == (j < i && draws@[2
                        * j]),
                forall|j: int|
                    0 <= j < IRIS_CODE_SIZE ==> #[trigger] mask_flips@[j] == (j < i && draws@[2
                        * j + 1]),
        {
            code_flips.set_bit(i, draws[2 * i]);
            mask_flips.set_bit(i, draws[2 * i + 1]);
        }
        self.with_flips(code_flips, mask_flips)
    }

    /// A noisy re-capture of the template. For every position in turn, one
    /// draw from `rng` decides whether the code bit flips and a second one
    /// whether the mask bit flips, each with probability
    /// `NOISE_NUMERATOR / NOISE_DENOMINATOR`. The result is `with_draws` of
    /// the draws in the order they were made; any template may come back.
    pub fn get_similar_iris(&self, rng: &mut StdRng) -> (noisy: IrisCode)
        ensures
            exists|draws: Seq<bool>|
                draws.len() == 2 * IRIS_CODE_SIZE && #[trigger] self.is_recapture(draws, noisy),
    {
        let mut draws: Vec<bool> = Vec::new();
        for i in 0..IRIS_CODE_SIZE
            invariant
                draws@.len() == 2 * i,
        {
            draws.push(chance(rng, NOISE_NUMERATOR, NOISE_DENOMINATOR));
            draws.push(chance(rng, NOISE_NUMERATOR, NOISE_DENOMINATOR));
        }
        self.with_draws(&draws)
    }
}

impl Default for IrisCode {
    /// The template with a zero code and a full mask.
    fn default() -> (iris: Self)
        ensures
            iris.code@ == Seq::new(IRIS_CODE_SIZE as nat, |i: int| false),
            iris.mask@ == Seq::new(IRIS_CODE_SIZE as nat, |i: int| true),
    {
        IrisCode { code: IrisCodeArray::zero(), mask: IrisCodeArray::ones() }
    }
}

/// The mask `s` with the two positions of pair `k` cleared.
pub open spec fn without_pair(s: Seq<bool>, k: int) -> Seq<bool> {
    Seq::new(s.len(), |i: int| s[i] && i / 2 != k)
}

/// Clearing a pair takes away its set positions and nothing else: the count
/// of set positions drops by the number of them that the pair held.
pub proof fn lemma_without_pair_count(s: Seq<bool>, k: int, n: nat)
    requires
        0 <= k,
        2 * k + 2 <= s.len(),
        n <= s.len(),
    ensures
        n <= 2 * k ==> count_true_below(without_pair(s, k), n) == count_true_below(s, n),
        n == 2 * k + 1 ==> count_true_below(without_pair(s, k), n) + (if s[2 * k] {
            1nat
        } else {
            0nat
        }) == count_true_below(s, n),
        n >= 2 * k + 2 ==> count_true_below(without_pair(s, k), n) + (if s[2 * k] {
            1nat
        } else {
            0nat
        }) + (if s[2 * k + 1] {
            1nat
        } else {
            0nat
        }) == count_true_below(s, n),
    decreases n,
{
    if n > 0 {
        lemma_without_pair_count(s, k, (n - 1) as nat);
        assert(without_pair(s, k)[n - 1] == (s[n - 1] && (n - 1) / 2 != k));
    }
}

/// A mask with whole pairs cleared keeps the two positions of every pair
/// equal: never exactly one of them is set.
pub proof fn lemma_cleared_pairs_are_pairwise(iris: IrisCode, draws: Seq<int>)
    requires
        iris.mask@ == mask_without_pairs(draws),
    ensures
        iris.mask_is_pairwise(),
{
}

/// The distance is a fraction between zero and one wherever the two masks
/// share a valid position, and it is undefined only where they share none.
pub proof fn lemma_distance_in_unit_interval(a: IrisCode, b: IrisCode)
    ensures
        count_true(a.combined_mask(&b)) <= IRIS_CODE_SIZE,
        a.spec_distance(&b).is_none() <==> count_true(a.combined_mask(&b)) == 0,
        a.spec_distance(&b).is_none() <==> forall|i: int|
            0 <= i < IRIS_CODE_SIZE ==> !(a.mask@[i] && b.mask@[i]),
        a.spec_distance(&b) matches Some(d) ==> {
            &&& d.compared == count_true(a.combined_mask(&b))
            &&& d.differing == count_true(a.disagreement(&b))
            &&& d.differing <= d.compared
            &&& 0 < d.compared <= IRIS_CODE_SIZE
        },
{
    let combined = a.combined_mask(&b);
    let differing = a.disagreement(&b);
    lemma_count_true_bounds(combined, IRIS_CODE_SIZE as nat);
    lemma_count_true_bounds(differing, IRIS_CODE_SIZE as nat);
    lemma_count_true_monotone(differing, combined, IRIS_CODE_SIZE as nat);
    if count_true(combined) == 0 {
        assert forall|i: int| 0 <= i < IRIS_CODE_SIZE implies !(a.mask@[i] && b.mask@[i]) by {
            assert(!combined[i]);
        }
    }
}

/// The distance does not depend on the order of the two templates.
pub proof fn lemma_distance_symmetric(a: IrisCode, b: IrisCode)
    ensures
        a.spec_distance(&b) == b.spec_distance(&a),
        a.spec_is_close(&b) == b.spec_is_close(&a),
{
    assert(a.combined_mask(&b) =~= b.combined_mask(&a));
    assert(a.disagreement(&b) =~= b.disagreement(&a));
}

/// Two templates with the same code and the same mask are at distance zero,
/// provided the masks share a valid position.
pub proof fn lemma_distance_of_equal_templates(a: IrisCode, b: IrisCode)
    requires
        a.code@ == b.code@,
        a.mask@ == b.mask@,
        count_true(a.combined_mask(&b)) > 0,
    ensures
        a.spec_distance(&b) matches Some(d) && d.differing == 0 && d.compared == count_true(
            a.mask@,
        ),
        a.spec_is_close(&b),
{
    assert(a.combined_mask(&b) =~= a.mask@);
    lemma_count_true_bounds(a.disagreement(&b), IRIS_CODE_SIZE as nat);
    lemma_count_true_bounds(a.mask@, IRIS_CODE_SIZE as nat);
}

/// A re-capture in which no bit flipped is the template itself, and is at
/// distance zero from it, provided the mask has a valid position.
pub proof fn lemma_unperturbed_is_same(
    iris: IrisCode,
    code_flips: Seq<bool>,
    mask_flips: Seq<bool>,
    noisy: IrisCode,
)
    requires
        code_flips == Seq::new(IRIS_CODE_SIZE as nat, |i: int| false),
        mask_flips == Seq::new(IRIS_CODE_SIZE as nat, |i: int| false),
        noisy.code@ == seq_xor(iris.code@, code_flips),
        noisy.mask@ == seq_xor(iris.mask@, mask_flips),
    ensures
        noisy.code@ == iris.code@,
        noisy.mask@ == iris.mask@,
        count_true(iris.mask@) > 0 ==> (iris.spec_distance(&noisy) matches Some(d)
            && d.differing == 0 && d.compared == count_true(iris.mask@)),
{
    assert(noisy.code@ =~= iris.code@);
    assert(noisy.mask@ =~= iris.mask@);
    if count_true(iris.mask@) > 0 {
        assert(iris.combined_mask(&noisy) =~= iris.mask@);
        lemma_distance_of_equal_templates(iris, noisy);
    }
}

/// A re-capture in which no draw asked for a flip is the template itself,
/// and is at distance zero from it, provided the mask has a valid position.
pub proof fn lemma_recapture_without_flips(iris: IrisCode, draws: Seq<bool>, noisy: IrisCode)
    requires
        draws.len() == 2 * IRIS_CODE_SIZE,
        forall|n: int| 0 <= n < draws.len() ==> !draws[n],
        iris.is_recapture(draws, noisy),
    ensures
        noisy.code@ == iris.code@,
        noisy.mask@ == iris.mask@,
        count_true(iris.mask@) > 0 ==> (iris.spec_distance(&noisy) matches Some(d)
            && d.differing == 0 && d.compared == count_true(iris.mask@)),
{
    assert(noisy.code@ =~= iris.code@);
    assert(noisy.mask@ =~= iris.mask@);
    if count_true(iris.mask@) > 0 {
        assert(iris.combined_mask(&noisy) =~= iris.mask@);
        lemma_distance_of_equal_templates(iris, noisy);
    }
}

} // verus!
