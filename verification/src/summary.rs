//! The account of a run: how many files there were, and what became of them.

use crate::encoding::{ConversionOutcome, OutcomeView};
use vstd::prelude::*;

verus! {

/// The counts that a run reports when it is over.
#[derive(Debug, Copy, Clone, PartialEq, Eq, Structural)]
pub struct RunSummary {
    /// The audio files found in the source tree.
    pub discovered: usize,
    /// Those of them that were not handed out as a job.
    pub skipped: usize,
    /// The jobs that succeeded.
    pub converted: usize,
    /// The jobs that failed.
    pub failed: usize,
}

/// How many of `outcomes` are successes.
pub open spec fn successes(outcomes: Seq<OutcomeView>) -> nat
    decreases outcomes.len(),
{
    if outcomes.len() == 0 {
        0
    } else if outcomes.last() is Success {
        successes(outcomes.drop_last()) + 1
    } else {
        successes(outcomes.drop_last())
    }
}

/// How many of `outcomes` are failures.
pub open spec fn failures(outcomes: Seq<OutcomeView>) -> nat
    decreases outcomes.len(),
{
    if outcomes.len() == 0 {
        0
    } else if outcomes.last() is Failure {
        failures(outcomes.drop_last()) + 1
    } else {
        failures(outcomes.drop_last())
    }
}

/// Every outcome is counted once: the jobs that did not fail succeeded.
pub proof fn lemma_every_outcome_counts(outcomes: Seq<OutcomeView>)
    ensures
        successes(outcomes) + failures(outcomes) == outcomes.len(),
    decreases outcomes.len(),
{
    if outcomes.len() > 0 {
        lemma_every_outcome_counts(outcomes.drop_last());
    }
}

/// One job's failure changes no other job's count: putting a failure among
/// outcomes leaves the number of successes as it was, and adds one failure.
pub proof fn lemma_failure_is_isolated(
    before: Seq<OutcomeView>,
    failure: OutcomeView,
    after: Seq<OutcomeView>,
)
    requires
        failure is Failure,
    ensures
        successes(before.push(failure) + after) == successes(before + after),
        failures(before.push(failure) + after) == failures(before + after) + 1,
    decreases after.len(),
{
    if after.len() == 0 {
        assert(before.push(failure) + after =~= before.push(failure));
        assert(before + after =~= before);
        assert(before.push(failure).drop_last() =~= before);
    } else {
        let with = before.push(failure) + after;
        let without = before + after;
        lemma_failure_is_isolated(before, failure, after.drop_last());
        assert(with.drop_last() =~= before.push(failure) + after.drop_last());
        assert(without.drop_last() =~= before + after.drop_last());
        assert(with.last() == after.last());
        assert(without.last() == after.last());
    }
}

/// Draws up the account of a run from the number of audio files that
/// discovery found and the outcomes of the jobs that were handed out.
pub fn summarize(audio_found: usize, outcomes: &Vec<ConversionOutcome>) -> (summary: RunSummary)
    ensures
        summary.discovered == audio_found,
        summary.converted == successes(outcomes.deep_view()),
        summary.failed == failures(outcomes.deep_view()),
        summary.skipped == if audio_found >= outcomes.len() {
            audio_found - outcomes.len()
        } else {
            0
        },
{
    let mut converted: usize = 0;
    let mut failed: usize = 0;
    let ghost all = outcomes.deep_view();
    let mut i: usize = 0;
    assert(all.take(0) =~= Seq::<OutcomeView>::empty());
    while i < outcomes.len()
        invariant
            i <= outcomes.len(),
            all == outcomes.deep_view(),
            converted == successes(all.take(i as int)),
            failed == failures(all.take(i as int)),
            converted + failed == i,
        decreases outcomes.len() - i,
    {
        assert(all.take(i + 1).drop_last() =~= all.take(i as int));
        match &outcomes[i] {
            ConversionOutcome::Success => {
                converted = converted + 1;
            },
            ConversionOutcome::Failure(_) => {
                failed = failed + 1;
            },
        }
        i = i + 1;
    }
    assert(all.take(i as int) =~= all);
    let skipped: usize = if audio_found >= outcomes.len() {
        audio_found - outcomes.len()
    } else {
        0
    };
    RunSummary { discovered: audio_found, skipped, converted, failed }
}

} // verus!
