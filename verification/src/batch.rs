//! A batch of attempts: what it amounts to once every attempt has ended.
//!
//! The attempts themselves run elsewhere, all at once and in no particular
//! order. Their outcomes are handed over in launch order, and the policy
//! says what an error among them does to the batch.

use crate::attempt::Outcome;
use crate::error::ErrorKind;
use vstd::prelude::*;

verus! {

/// What an attempt's error does to the batch.
#[derive(Clone, Copy, PartialEq, Eq, Debug, Structural)]
pub enum Policy {
    /// The first error, in launch order, is the batch's error.
    Strict,
    /// An error drops its attempt; the batch completes all the same.
    BestEffort,
}

/// The count of a completed batch.
#[derive(Clone, Copy, PartialEq, Eq, Debug, Structural)]
pub struct Summary {
    /// Attempts launched.
    pub attempted: usize,
    /// Attempts that put a file on disk.
    pub written: usize,
    /// Attempts that the service answered with a non-success status.
    pub skipped: usize,
    /// Attempts given up for an error.
    pub failed: usize,
}

/// How many of `outcomes` are `Written`.
pub open spec fn written_count(outcomes: Seq<Outcome>) -> nat
    decreases outcomes.len(),
{
    if outcomes.len() == 0 {
        0
    } else {
        written_count(outcomes.drop_last()) + if outcomes.last() is Written {
            1nat
        } else {
            0nat
        }
    }
}

/// How many of `outcomes` are `Skipped`.
pub open spec fn skipped_count(outcomes: Seq<Outcome>) -> nat
    decreases outcomes.len(),
{
    if outcomes.len() == 0 {
        0
    } else {
        skipped_count(outcomes.drop_last()) + if outcomes.last() is Skipped {
            1nat
        } else {
            0nat
        }
    }
}

/// How many of `outcomes` are `Failed`.
pub open spec fn failed_count(outcomes: Seq<Outcome>) -> nat
    decreases outcomes.len(),
{
    if outcomes.len() == 0 {
        0
    } else {
        failed_count(outcomes.drop_last()) + if outcomes.last() is Failed {
            1nat
        } else {
            0nat
        }
    }
}

/// The error of the first failed attempt, if any failed.
pub open spec fn first_failure(outcomes: Seq<Outcome>) -> Option<ErrorKind>
    decreases outcomes.len(),
{
    if outcomes.len() == 0 {
        None
    } else {
        match first_failure(outcomes.drop_last()) {
            Some(kind) => Some(kind),
            None => match outcomes.last() {
                Outcome::Failed(kind) => Some(kind),
                _ => None,
            },
        }
    }
}

/// The count of `outcomes`.
pub open spec fn tally(outcomes: Seq<Outcome>) -> Summary {
    Summary {
        attempted: outcomes.len() as usize,
        written: written_count(outcomes) as usize,
        skipped: skipped_count(outcomes) as usize,
        failed: failed_count(outcomes) as usize,
    }
}

/// What a batch with these outcomes amounts to under `policy`.
pub open spec fn batch_result(policy: Policy, outcomes: Seq<Outcome>) -> Result<
    Summary,
    ErrorKind,
> {
    match (policy, first_failure(outcomes)) {
        (Policy::Strict, Some(kind)) => Err(kind),
        _ => Ok(tally(outcomes)),
    }
}

/// Every outcome is counted once: the three counts add up to the number of
/// attempts.
pub proof fn lemma_counts_add_up(outcomes: Seq<Outcome>)
    ensures
        written_count(outcomes) + skipped_count(outcomes) + failed_count(outcomes)
            == outcomes.len(),
    decreases outcomes.len(),
{
    if outcomes.len() > 0 {
        lemma_counts_add_up(outcomes.drop_last());
    }
}

/// No attempt failed exactly when the count of failures is zero.
pub proof fn lemma_first_failure(outcomes: Seq<Outcome>)
    ensures
        first_failure(outcomes) is None <==> failed_count(outcomes) == 0,
        first_failure(outcomes) is None <==> forall|i: int|
            0 <= i < outcomes.len() ==> !(#[trigger] outcomes[i] is Failed),
    decreases outcomes.len(),
{
    if outcomes.len() > 0 {
        let earlier = outcomes.drop_last();
        lemma_first_failure(earlier);
        if first_failure(outcomes) is None {
            assert forall|i: int| 0 <= i < outcomes.len() implies !(#[trigger] outcomes[i]
                is Failed) by {
                if i < earlier.len() {
                    assert(outcomes[i] == earlier[i]);
                }
            }
        } else if first_failure(earlier) is Some {
            let i = choose|i: int| 0 <= i < earlier.len() && #[trigger] earlier[i] is Failed;
            assert(outcomes[i] == earlier[i]);
        } else {
            assert(outcomes[outcomes.len() - 1] is Failed);
        }
    }
}

/// Sums up a batch from the outcomes of its attempts, given in launch
/// order.
pub fn summarize(policy: Policy, outcomes: &[Outcome]) -> (result: Result<Summary, ErrorKind>)
    ensures
        result == batch_result(policy, outcomes@),
{
    let mut summary = Summary { attempted: 0, written: 0, skipped: 0, failed: 0 };
    let mut first: Option<ErrorKind> = None;
    let mut i: usize = 0;
    while i < outcomes.len()
        invariant
            i <= outcomes.len(),
            summary.attempted == i,
            summary.written == written_count(outcomes@.take(i as int)),
            summary.skipped == skipped_count(outcomes@.take(i as int)),
            summary.failed == failed_count(outcomes@.take(i as int)),
            first == first_failure(outcomes@.take(i as int)),
        decreases outcomes.len() - i,
    {
        proof {
            let seen = outcomes@.take(i + 1);
            assert(seen.drop_last() =~= outcomes@.take(i as int));
            assert(seen.last() == outcomes@[i as int]);
            lemma_counts_add_up(seen);
        }
        match outcomes[i] {
            Outcome::Written => {
                summary.written += 1;
            },
            Outcome::Skipped => {
                summary.skipped += 1;
            },
            Outcome::Failed(kind) => {
                summary.failed += 1;
                if first.is_none() {
                    first = Some(kind);
                }
            },
        }
        summary.attempted += 1;
        i += 1;
    }
    assert(outcomes@.take(i as int) =~= outcomes@);
    match (policy, first) {
        (Policy::Strict, Some(kind)) => Err(kind),
        _ => Ok(summary),
    }
}

/// Where every attempt failed, a best-effort batch still completes, with
/// every attempt counted and none written, and a strict batch ends with the
/// first attempt's error.
pub proof fn lemma_all_failed(outcomes: Seq<Outcome>)
    requires
        outcomes.len() > 0,
        outcomes.len() <= usize::MAX,
        forall|i: int| 0 <= i < outcomes.len() ==> #[trigger] outcomes[i] is Failed,
    ensures
        batch_result(Policy::BestEffort, outcomes) matches Ok(summary) && summary.attempted
            == outcomes.len() && summary.written == 0 && summary.skipped == 0 && summary.failed
            == outcomes.len(),
        batch_result(Policy::Strict, outcomes) == Err::<Summary, ErrorKind>(outcomes[0]->Failed_0),
    decreases outcomes.len(),
{
    let earlier = outcomes.drop_last();
    if earlier.len() > 0 {
        assert forall|i: int| 0 <= i < earlier.len() implies #[trigger] earlier[i] is Failed by {
            assert(earlier[i] == outcomes[i]);
        }
        lemma_all_failed(earlier);
        assert(earlier[0] == outcomes[0]);
    } else {
        assert(outcomes.last() == outcomes[0]);
        assert(first_failure(earlier) is None);
        assert(written_count(earlier) == 0);
        assert(skipped_count(earlier) == 0);
        assert(failed_count(earlier) == 0);
    }
    lemma_counts_add_up(outcomes);
}

} // verus!
