//! The bookkeeping of a recall benchmark: which templates exist, which of
//! them are queried again, what is handed to the index in which phase, and
//! how the answers are scored. The index itself is driven by the caller.

use crate::adapter::HD;
use crate::random::sample_indices;
use crate::bitvec::{count_true, IRIS_CODE_SIZE};
use crate::template::{IrisCode, CLEARED_PAIR_DRAWS, MERGED_SIZE_U64};
use rand::rngs::StdRng;
use vstd::prelude::*;

verus! {

/// Number of templates in the population.
pub const N_POINTS: usize = 100_000;

/// Number of templates that are queried again.
pub const RANDOM_QUERIES: usize = 10_000;

/// Largest number of neighbours that the index keeps per node.
pub const MAX_NB_CONNECTION: usize = 128;

/// Search width of the index, while it is built and while it is queried.
pub const EF_C: usize = 128;

/// Number of neighbours asked for per query.
pub const KNBN: usize = 1;

/// Largest population of which every template can be kept as a query.
pub const LARGEST_WHOLE_SAMPLE: usize = 0xffff_ffff;

/// Where a benchmark run stands. A run only ever moves forward through the
/// phases in the order they are listed.
#[derive(Clone, Copy, Debug, PartialEq, Eq, Structural)]
pub enum Phase {
    /// Nothing has been generated yet.
    Empty,
    /// The population and the queries exist; nothing has been handed out.
    Populated,
    /// The insertions have been handed out; the index is being built.
    BuildMode,
    /// The index takes queries; nothing is inserted any more.
    SearchMode,
    /// The answers have been scored.
    Reported,
}

/// Why a step of a run was refused.
#[derive(Clone, Copy, Debug, PartialEq, Eq, Structural)]
pub enum HarnessError {
    /// The step does not belong to the phase the run is in.
    WrongPhase,
    /// More queries were asked for than there are templates.
    TooManyQueries,
    /// Every template of a population above `LARGEST_WHOLE_SAMPLE` was asked
    /// for as a query; so large a population can only be queried in part.
    WholeSampleTooLarge,
    /// The number of answers is not the number of queries.
    AnswerCountMismatch,
    /// The index found nothing for one of the queries.
    EmptyResult,
}

/// A template kept for querying, with the id it was inserted under.
#[derive(Clone, Copy, Debug, PartialEq, Eq)]
pub struct Query {
    pub template: IrisCode,
    pub id: usize,
}

/// A flat vector for the index: with the id to insert it under, or with the
/// id that a search for it should find.
#[derive(Clone, Copy, Debug, PartialEq, Eq)]
pub struct IndexEntry {
    pub vector: [u64; MERGED_SIZE_U64],
    pub id: usize,
}

/// The outcome of a run.
#[derive(Clone, Copy, Debug, PartialEq, Eq)]
pub struct Report {
    /// Number of queries whose nearest neighbour was the queried template.
    pub correct: usize,
    /// Number of queries.
    pub queries: usize,
    /// Number of distance evaluations during the query phase.
    pub evaluations: usize,
}

/// Number of the first `n` queries whose answer names the id of the query.
pub open spec fn count_hits(queries: Seq<Query>, nearest: Seq<Option<usize>>, n: nat) -> nat
    decreases n,
{
    if n == 0 {
        0
    } else {
        count_hits(queries, nearest, (n - 1) as nat) + if nearest[n - 1] == Some(queries[n - 1].id) {
            1nat
        } else {
            0nat
        }
    }
}

impl Report {
    /// Distance evaluations per query, rounded down; `None` for a run
    /// without queries.
    pub fn average_evaluations(&self) -> (average: Option<usize>)
        ensures
            self.queries == 0 ==> average.is_none(),
            self.queries > 0 ==> average == Some((self.evaluations / self.queries) as usize),
    {
        if self.queries == 0 {
            None
        } else {
            Some(self.evaluations / self.queries)
        }
    }
}

/// What holds of every template of a population: its mask is the full mask
/// with the pairs of `CLEARED_PAIR_DRAWS` draws cleared, so the two
/// positions of every pair agree, and between one pair and
/// `CLEARED_PAIR_DRAWS` pairs are clear.
pub open spec fn is_drawn_template(template: IrisCode) -> bool {
    &&& template.has_drawn_mask()
    &&& template.mask_is_pairwise()
    &&& IRIS_CODE_SIZE - 2 * CLEARED_PAIR_DRAWS <= count_true(template.mask@) <= IRIS_CODE_SIZE
        - 2
}

/// Every query names a template of the population and holds that very
/// template, and no two queries name the same one.
pub open spec fn queries_match(templates: Seq<IrisCode>, queries: Seq<Query>) -> bool {
    &&& forall|j: int|
        0 <= j < queries.len() ==> (#[trigger] queries[j]).id < templates.len()
            && queries[j].template == templates[queries[j].id as int]
    &&& forall|j: int, k: int|
        0 <= j < k < queries.len() ==> (#[trigger] queries[j]).id != (#[trigger] queries[k]).id
}

/// A benchmark run: the population, the queries kept from it, and the phase
/// the run is in.
pub struct Harness {
    phase: Phase,
    templates: Vec<IrisCode>,
    queries: Vec<Query>,
}

impl Harness {
    /// In every phase the kept queries belong to the population.
    #[verifier::type_invariant]
    spec fn wf(self) -> bool {
        queries_match(self.templates@, self.queries@)
    }

    /// The phase the run is in.
    pub closed spec fn phase(&self) -> Phase {
        self.phase
    }

    /// The population; the id of a template is its position.
    pub closed spec fn templates(&self) -> Seq<IrisCode> {
        self.templates@
    }

    /// The templates kept for querying.
    pub closed spec fn queries(&self) -> Seq<Query> {
        self.queries@
    }

    /// A run that has no population yet.
    pub fn new() -> (run: Harness)
        ensures
            run.phase() == Phase::Empty,
            run.templates().len() == 0,
            run.queries().len() == 0,
    {
        Harness { phase: Phase::Empty, templates: Vec::new(), queries: Vec::new() }
    }

    /// The phase the run is in.
    pub fn current_phase(&self) -> (phase: Phase)
        ensures
            phase == self.phase(),
    {
        self.phase
    }

    /// The number of templates in the population.
    pub fn population(&self) -> (n: usize)
        ensures
            n == self.templates().len(),
    {
        self.templates.len()
    }

    /// The number of templates kept for querying.
    pub fn query_count(&self) -> (n: usize)
        ensures
            n == self.queries().len(),
            queries_match(self.templates(), self.queries()),
    {
        proof {
            use_type_invariant(self);
        }
        self.queries.len()
    }

    /// The templates kept for querying, each with its id.
    pub fn kept_queries(&self) -> (kept: &Vec<Query>)
        ensures
            kept@ == self.queries(),
            queries_match(self.templates(), self.queries()),
    {
        proof {
            use_type_invariant(self);
        }
        &self.queries
    }

    /// Builds the population: `population` random templates with the ids
    /// `0..population`, of which `queries` distinct ones, drawn at random,
    /// are kept for querying. A population above `LARGEST_WHOLE_SAMPLE` can
    /// only be queried in part.
    pub fn populate(&mut self, rng: &mut StdRng, population: usize, queries: usize) -> (done:
        Result<(), HarnessError>)
        ensures
            old(self).phase() != Phase::Empty ==> done == Err::<(), HarnessError>(
                HarnessError::WrongPhase,
            ),
            old(self).phase() == Phase::Empty && queries > population ==> done == Err::<
                (),
                HarnessError,
            >(HarnessError::TooManyQueries),
            old(self).phase() == Phase::Empty && queries == population && population
                > LARGEST_WHOLE_SAMPLE ==> done == Err::<(), HarnessError>(
                HarnessError::WholeSampleTooLarge,
            ),
            old(self).phase() == Phase::Empty && (queries < population || queries == population
                <= LARGEST_WHOLE_SAMPLE) ==> done.is_ok(),
            done.is_err() ==> *final(self) == *old(self),
            done.is_ok() ==> {
                &&& final(self).phase() == Phase::Populated
                &&& final(self).templates().len() == population
                &&& final(self).queries().len() == queries
                &&& queries_match(final(self).templates(), final(self).queries())
                &&& forall|i: int|
                    0 <= i < population ==> is_drawn_template(
                        #[trigger] final(self).templates()[i],
                    )
            },
    {
        if self.phase != Phase::Empty {
            return Err(HarnessError::WrongPhase);
        }
        if queries > population {
            return Err(HarnessError::TooManyQueries);
        }
        if queries == population && population > LARGEST_WHOLE_SAMPLE {
            return Err(HarnessError::WholeSampleTooLarge);
        }
        let ids = sample_indices(rng, population, queries);
        let mut templates: Vec<IrisCode> = Vec::new();
        for id in 0..population
            invariant
                templates@.len() == id,
                forall|i: int| 0 <= i < id ==> is_drawn_template(#[trigger] templates@[i]),
        {
            templates.push(IrisCode::random_rng(rng));
        }
        let mut kept: Vec<Query> = Vec::new();
        for j in 0..queries
            invariant
                ids@.len() == queries,
                templates@.len() == population,
                forall|n: int| 0 <= n < ids@.len() ==> ids@[n] < population,
                kept@.len() == j,
                forall|n: int|
                    0 <= n < j ==> (#[trigger] kept@[n]).id == ids@[n] && kept@[n].template
                        == templates@[ids@[n] as int],
        {
            kept.push(Query { template: templates[ids[j]], id: ids[j] });
        }
        self.queries = Vec::new();
        self.templates = templates;
        self.queries = kept;
        self.phase = Phase::Populated;
        Ok(())
    }

    /// Opens the build phase and hands out what is to be inserted: for every
    /// template, in the order of the ids, its flat vector and its id.
    pub fn insertions(&mut self) -> (entries: Result<Vec<IndexEntry>, HarnessError>)
        ensures
            entries.is_ok() <==> old(self).phase() == Phase::Populated,
            entries.is_err() ==> entries == Err::<Vec<IndexEntry>, HarnessError>(
                HarnessError::WrongPhase,
            ) && *final(self) == *old(self),
            entries matches Ok(list) ==> {
                &&& final(self).phase() == Phase::BuildMode
                &&& final(self).templates() == old(self).templates()
                &&& final(self).queries() == old(self).queries()
                &&& list@.len() == old(self).templates().len()
                &&& forall|i: int|
                    0 <= i < list@.len() ==> (#[trigger] list@[i]).id == i && list@[i].vector@
                        == old(self).templates()[i].code.0@ + old(self).templates()[i].mask.0@
            },
    {
        if self.phase != Phase::Populated {
            return Err(HarnessError::WrongPhase);
        }
        let mut list: Vec<IndexEntry> = Vec::new();
        for id in 0..self.templates.len()
            invariant
                list@.len() == id,
                forall|i: int|
                    0 <= i < id ==> (#[trigger] list@[i]).id == i && list@[i].vector@
                        == self.templates@[i].code.0@ + self.templates@[i].mask.0@,
        {
            list.push(IndexEntry { vector: self.templates[id].as_merged_array(), id });
        }
        proof {
            use_type_invariant(&*self);
        }
        self.phase = Phase::BuildMode;
        Ok(list)
    }

    /// Closes the build phase for good and opens the search phase. The
    /// evaluation count of `metric` starts again from zero, so that it
    /// covers the queries alone.
    pub fn switch_to_search(&mut self, metric: &HD) -> (done: Result<(), HarnessError>)
        ensures
            done.is_ok() <==> old(self).phase() == Phase::BuildMode,
            done.is_err() ==> done == Err::<(), HarnessError>(HarnessError::WrongPhase)
                && *final(self) == *old(self),
            done.is_ok() ==> {
                &&& final(self).phase() == Phase::SearchMode
                &&& final(self).templates() == old(self).templates()
                &&& final(self).queries() == old(self).queries()
            },
    {
        if self.phase != Phase::BuildMode {
            return Err(HarnessError::WrongPhase);
        }
        metric.reset_evaluations();
        proof {
            use_type_invariant(&*self);
        }
        self.phase = Phase::SearchMode;
        Ok(())
    }

    /// Hands out what is to be searched for: for every query, in the order
    /// they are kept, the flat vector of a noisy re-capture of its template
    /// and the id that the search should find.
    pub fn probes(&self, rng: &mut StdRng) -> (probes: Result<Vec<IndexEntry>, HarnessError>)
        ensures
            probes.is_ok() <==> self.phase() == Phase::SearchMode,
            probes.is_err() ==> probes == Err::<Vec<IndexEntry>, HarnessError>(
                HarnessError::WrongPhase,
            ),
            probes matches Ok(list) ==> {
                &&& list@.len() == self.queries().len()
                &&& forall|j: int|
                    0 <= j < list@.len() ==> (#[trigger] list@[j]).id == self.queries()[j].id
            },
    {
        if self.phase != Phase::SearchMode {
            return Err(HarnessError::WrongPhase);
        }
        let mut list: Vec<IndexEntry> = Vec::new();
        for j in 0..self.queries.len()
            invariant
                list@.len() == j,
                forall|n: int| 0 <= n < j ==> (#[trigger] list@[n]).id == self.queries@[n].id,
        {
            let noisy = self.queries[j].template.get_similar_iris(rng);
            list.push(IndexEntry { vector: noisy.as_merged_array(), id: self.queries[j].id });
        }
        Ok(list)
    }

    /// Scores the answers of the index and closes the run. `nearest` holds,
    /// for every query in the order of `probes`, the id of the nearest
    /// neighbour that the index found, or `None` where it found nothing. A
    /// query counts as correct when that id is its own.
    pub fn score(&mut self, nearest: &Vec<Option<usize>>, metric: &HD) -> (report: Result<
        Report,
        HarnessError,
    >)
        ensures
            old(self).phase() != Phase::SearchMode ==> report == Err::<Report, HarnessError>(
                HarnessError::WrongPhase,
            ),
            old(self).phase() == Phase::SearchMode && nearest@.len() != old(self).queries().len()
                ==> report == Err::<Report, HarnessError>(HarnessError::AnswerCountMismatch),
            old(self).phase() == Phase::SearchMode && nearest@.len() == old(self).queries().len()
                && (exists|j: int| 0 <= j < nearest@.len() && nearest@[j].is_none()) ==> report
                == Err::<Report, HarnessError>(HarnessError::EmptyResult),
            old(self).phase() == Phase::SearchMode && nearest@.len() == old(self).queries().len()
                && (forall|j: int| 0 <= j < nearest@.len() ==> nearest@[j].is_some())
                ==> report.is_ok(),
            report.is_err() ==> *final(self) == *old(self),
            report matches Ok(r) ==> {
                &&& final(self).phase() == Phase::Reported
                &&& final(self).templates() == old(self).templates()
                &&& final(self).queries() == old(self).queries()
                &&& r.queries == nearest@.len()
                &&& r.correct == count_hits(old(self).queries(), nearest@, nearest@.len())
                &&& r.correct <= r.queries
            },
    {
        if self.phase != Phase::SearchMode {
            return Err(HarnessError::WrongPhase);
        }
        if nearest.len() != self.queries.len() {
            return Err(HarnessError::AnswerCountMismatch);
        }
        let mut correct: usize = 0;
        for j in 0..nearest.len()
            invariant
                nearest@.len() == self.queries@.len(),
                forall|n: int| 0 <= n < j ==> nearest@[n].is_some(),
                correct == count_hits(self.queries@, nearest@, j as nat),
                correct <= j,
                *self == *old(self),
                old(self).phase() == Phase::SearchMode,
        {
            match nearest[j] {
                Some(found) => {
                    if self.queries[j].id == found {
                        correct = correct + 1;
                    }
                },
                None => {
                    return Err(HarnessError::EmptyResult);
                },
            }
        }
        proof {
            use_type_invariant(&*self);
        }
        self.phase = Phase::Reported;
        Ok(Report { correct, queries: nearest.len(), evaluations: metric.evaluations() })
    }
}

} // verus!
