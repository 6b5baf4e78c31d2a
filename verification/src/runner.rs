//! The pipeline runner's aggregation: many outcomes, one result.
//!
//! The tasks of a run are independent and finish in any order. The caller
//! hands each source to a worker, receives exactly one outcome per source,
//! and gives them here in the order in which they arrived.

use vstd::prelude::*;
use crate::error::PipelineError;
use crate::error::PipelineErrorView;
use crate::path::file_stem_of;
use crate::store::ImageOutcome;
use crate::store::ImageOutcomeView;
use crate::store::StepView;
use crate::store::StoreMode;
use crate::store::first_step;
use crate::store::outcomes_in;
use crate::store::output_of;
use crate::text::texts;

verus! {

/// The values of a sequence of outcomes.
pub open spec fn outcome_views(outcomes: Seq<ImageOutcome>) -> Seq<ImageOutcomeView> {
    outcomes.map_values(|o: ImageOutcome| o@)
}

/// The output path that an outcome reports. A cache hit counts like a fresh
/// write.
pub open spec fn path_of(o: ImageOutcomeView) -> Seq<char> {
    match o {
        ImageOutcomeView::Skipped(p) => p,
        ImageOutcomeView::Produced(p) => p,
        ImageOutcomeView::Failed(_) => Seq::empty(),
    }
}

/// The error of the first failure among the outcomes, if one failed.
pub open spec fn first_failure(outcomes: Seq<ImageOutcomeView>) -> Option<PipelineErrorView>
    decreases outcomes.len(),
{
    if outcomes.len() == 0 {
        None
    } else {
        match first_failure(outcomes.drop_last()) {
            Some(e) => Some(e),
            None => match outcomes.last() {
                ImageOutcomeView::Failed(e) => Some(e),
                _ => None,
            },
        }
    }
}

/// The result of a run with the given outcomes: the first failure fails the
/// run; without one, the result holds the output path of each outcome, in
/// order.
pub open spec fn collected(outcomes: Seq<ImageOutcomeView>) -> Result<
    Seq<Seq<char>>,
    PipelineErrorView,
> {
    match first_failure(outcomes) {
        Some(e) => Err(e),
        None => Ok(outcomes.map_values(|o: ImageOutcomeView| path_of(o))),
    }
}

/// `first_failure` is what its name says: where it gives an error, some
/// outcome failed with it and none before that one failed; where it gives
/// none, no outcome failed.
pub proof fn lemma_first_failure(outcomes: Seq<ImageOutcomeView>)
    ensures
        match first_failure(outcomes) {
            Some(e) => exists|k: int|
                {
                    &&& 0 <= k < outcomes.len()
                    &&& #[trigger] outcomes[k] == ImageOutcomeView::Failed(e)
                    &&& forall|j: int| 0 <= j < k ==> !(#[trigger] outcomes[j] is Failed)
                },
            None => forall|j: int| 0 <= j < outcomes.len() ==> !(#[trigger] outcomes[j] is Failed),
        },
    decreases outcomes.len(),
{
    if outcomes.len() > 0 {
        let rest = outcomes.drop_last();
        lemma_first_failure(rest);
        assert forall|j: int| 0 <= j < rest.len() implies rest[j] == outcomes[j] by {}
        match first_failure(rest) {
            Some(e) => {
                let k = choose|k: int|
                    {
                        &&& 0 <= k < rest.len()
                        &&& #[trigger] rest[k] == ImageOutcomeView::Failed(e)
                        &&& forall|j: int| 0 <= j < k ==> !(#[trigger] rest[j] is Failed)
                    };
                assert(outcomes[k] == ImageOutcomeView::Failed(e));
                assert forall|j: int| 0 <= j < k implies !(#[trigger] outcomes[j] is Failed) by {
                    assert(rest[j] == outcomes[j]);
                }
            },
            None => {
                assert forall|j: int| 0 <= j < outcomes.len() - 1 implies !(
                #[trigger] outcomes[j] is Failed) by {
                    assert(rest[j] == outcomes[j]);
                }
                match outcomes.last() {
                    ImageOutcomeView::Failed(e) => {
                        assert(outcomes[outcomes.len() - 1] == ImageOutcomeView::Failed(e));
                    },
                    _ => {},
                }
            },
        }
    }
}

/// Once an outcome has failed, later outcomes do not change the failure.
pub proof fn lemma_first_failure_stays(outcomes: Seq<ImageOutcomeView>, k: int)
    requires
        0 <= k <= outcomes.len(),
        first_failure(outcomes.take(k)) is Some,
    ensures
        first_failure(outcomes) == first_failure(outcomes.take(k)),
    decreases outcomes.len() - k,
{
    if k == outcomes.len() {
        assert(outcomes.take(k) =~= outcomes);
    } else {
        assert(outcomes.take(k + 1).drop_last() =~= outcomes.take(k));
        lemma_first_failure_stays(outcomes, k + 1);
    }
}

/// Turns the outcomes of a run, in the order in which they arrived, into the
/// run's result. The first failure fails the run, with its error; without a
/// failure the result holds one output path per outcome, in order, and a
/// cache hit counts like a fresh write.
pub fn collect(outcomes: &Vec<ImageOutcome>) -> (r: Result<Vec<String>, PipelineError>)
    ensures
        match r {
            Ok(paths) => collected(outcome_views(outcomes@)) == Ok::<
                Seq<Seq<char>>,
                PipelineErrorView,
            >(texts(paths@)),
            Err(e) => collected(outcome_views(outcomes@)) == Err::<
                Seq<Seq<char>>,
                PipelineErrorView,
            >(e@),
        },
{
    let ghost all = outcome_views(outcomes@);
    let mut paths: Vec<String> = Vec::new();
    let mut i: usize = 0;
    proof {
        assert(all.take(0) =~= Seq::<ImageOutcomeView>::empty());
    }
    while i < outcomes.len()
        invariant
            i <= outcomes.len(),
            all == outcome_views(outcomes@),
            first_failure(all.take(i as int)) is None,
            paths@.len() == i,
            forall|k: int| 0 <= k < i ==> (#[trigger] paths@[k])@ == path_of(all[k]),
        decreases outcomes.len() - i,
    {
        proof {
            assert(all.take(i + 1).drop_last() =~= all.take(i as int));
            assert(all.take(i + 1).last() == outcomes@[i as int]@);
        }
        match &outcomes[i] {
            ImageOutcome::Failed(e) => {
                let e = e.duplicate();
                proof {
                    lemma_first_failure_stays(all, i + 1);
                }
                return Err(e);
            },
            ImageOutcome::Skipped(p) => {
                paths.push(p.clone());
            },
            ImageOutcome::Produced(p) => {
                paths.push(p.clone());
            },
        }
        i += 1;
    }
    proof {
        assert(all.take(i as int) =~= all);
        assert(texts(paths@) =~= all.map_values(|o: ImageOutcomeView| path_of(o)));
    }
    Ok(paths)
}

/// A run without a failure reports one path per outcome: as many paths as
/// there were sources, whether the outputs were written or found.
pub proof fn lemma_one_output_per_input(outcomes: Seq<ImageOutcomeView>)
    requires
        forall|i: int| 0 <= i < outcomes.len() ==> !(#[trigger] outcomes[i] is Failed),
    ensures
        collected(outcomes) is Ok,
        collected(outcomes)->Ok_0.len() == outcomes.len(),
        forall|i: int|
            0 <= i < outcomes.len() ==> (#[trigger] outcomes[i] == ImageOutcomeView::Skipped(
                collected(outcomes)->Ok_0[i],
            ) || outcomes[i] == ImageOutcomeView::Produced(collected(outcomes)->Ok_0[i])),
{
    lemma_first_failure(outcomes);
    if first_failure(outcomes) is Some {
        let e = first_failure(outcomes)->0;
        let k = choose|k: int|
            0 <= k < outcomes.len() && #[trigger] outcomes[k] == ImageOutcomeView::Failed(e);
        assert(outcomes[k] is Failed);
    }
}

/// A run with a failure fails, whatever else succeeded.
pub proof fn lemma_any_failure_fails_run(outcomes: Seq<ImageOutcomeView>, k: int)
    requires
        0 <= k < outcomes.len(),
        outcomes[k] is Failed,
    ensures
        collected(outcomes) is Err,
{
    lemma_first_failure(outcomes);
}

/// A source without a stem fails the whole run with an input-shape error
/// when every other task of the batch succeeded: its task ends at once,
/// and that failure is the run's result.
pub proof fn lemma_stemless_source_fails_run(
    source: Seq<char>,
    dir: Seq<char>,
    mode: StoreMode,
    outcomes: Seq<ImageOutcomeView>,
    k: int,
)
    requires
        file_stem_of(source) is None,
        0 <= k < outcomes.len(),
        StepView::Done(outcomes[k]) == first_step(source, dir, mode),
        forall|j: int| 0 <= j < outcomes.len() && j != k ==> !(#[trigger] outcomes[j] is Failed),
    ensures
        first_step(source, dir, mode) == StepView::Done(
            ImageOutcomeView::Failed(PipelineErrorView::InputShape),
        ),
        collected(outcomes) == Err::<Seq<Seq<char>>, PipelineErrorView>(
            PipelineErrorView::InputShape,
        ),
{
    lemma_first_failure(outcomes);
    assert(outcomes[k] == ImageOutcomeView::Failed(PipelineErrorView::InputShape));
    match first_failure(outcomes) {
        Some(e) => {
            let i = choose|i: int|
                0 <= i < outcomes.len() && #[trigger] outcomes[i] == ImageOutcomeView::Failed(e);
            assert(outcomes[i] is Failed);
            assert(i == k);
        },
        None => {
            assert(outcomes[k] is Failed);
        },
    }
}

/// A run over sources that all have stems, in which every read, rendering
/// and write succeeds, reports the output of every source, in order,
/// whatever the store held before: a first run and a second run report the
/// same paths.
pub proof fn lemma_run_reports_every_output(
    files: Set<Seq<char>>,
    sources: Seq<Seq<char>>,
    dir: Seq<char>,
    mode: StoreMode,
)
    requires
        forall|i: int| 0 <= i < sources.len() ==> file_stem_of(#[trigger] sources[i]) is Some,
    ensures
        collected(outcomes_in(files, sources, dir, mode)) == Ok::<
            Seq<Seq<char>>,
            PipelineErrorView,
        >(sources.map_values(|s: Seq<char>| output_of(s, dir, mode))),
{
    let outcomes = outcomes_in(files, sources, dir, mode);
    lemma_outcomes_are_outputs(files, sources, dir, mode);
    lemma_one_output_per_input(outcomes);
    assert(collected(outcomes)->Ok_0 =~= sources.map_values(
        |s: Seq<char>| output_of(s, dir, mode),
    ));
}

proof fn lemma_outcomes_are_outputs(
    files: Set<Seq<char>>,
    sources: Seq<Seq<char>>,
    dir: Seq<char>,
    mode: StoreMode,
)
    requires
        forall|i: int| 0 <= i < sources.len() ==> file_stem_of(#[trigger] sources[i]) is Some,
    ensures
        outcomes_in(files, sources, dir, mode).len() == sources.len(),
        forall|i: int|
            0 <= i < sources.len() ==> !(#[trigger] outcomes_in(files, sources, dir, mode)[i]
                is Failed) && path_of(outcomes_in(files, sources, dir, mode)[i]) == output_of(
                sources[i],
                dir,
                mode,
            ),
    decreases sources.len(),
{
    if sources.len() > 0 {
        let rest = sources.drop_last();
        let n = sources.len() as int;
        assert forall|i: int| 0 <= i < rest.len() implies rest[i] == sources[i] by {}
        lemma_outcomes_are_outputs(files, rest, dir, mode);
        let all = outcomes_in(files, sources, dir, mode);
        assert forall|i: int| 0 <= i < sources.len() implies !(#[trigger] all[i] is Failed)
            && path_of(all[i]) == output_of(sources[i], dir, mode) by {
            if i < n - 1 {
                assert(all[i] == outcomes_in(files, rest, dir, mode)[i]);
            }
        }
    }
}

} // verus!
