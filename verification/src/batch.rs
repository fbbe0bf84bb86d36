//! The batch orchestrator: folds the per-pair outcomes of one run into a
//! single result, accumulating every failure message instead of stopping
//! at the first.

use crate::link::Outcome;
use vstd::prelude::*;
use vstd::string::StringExecFns;

verus! {

/// Whether `o` is a failed outcome.
pub open spec fn outcome_failed(o: Outcome) -> bool {
    match o {
        Outcome::Failed { .. } => true,
        _ => false,
    }
}

/// What `o` contributes to the aggregate message: its message if it
/// failed, nothing otherwise.
pub open spec fn failure_text(o: Outcome) -> Seq<char> {
    match o {
        Outcome::Failed { message } => message@,
        _ => Seq::empty(),
    }
}

/// Whether some outcome in the batch failed.
pub open spec fn spec_has_failure(outs: Seq<Outcome>) -> bool {
    exists|k: int| 0 <= k < outs.len() && outcome_failed(outs[k])
}

/// The aggregate message: every failure message, in batch order, and
/// nothing else.
pub open spec fn spec_aggregate(outs: Seq<Outcome>) -> Seq<char>
    decreases outs.len(),
{
    if outs.len() == 0 {
        Seq::empty()
    } else {
        spec_aggregate(outs.drop_last()) + failure_text(outs.last())
    }
}

/// Law: a batch whose outcomes are only creations and skips aggregates no
/// message at all — skipped pairs are not errors and are not accumulated.
pub proof fn lemma_no_failure_no_message(outs: Seq<Outcome>)
    requires
        !spec_has_failure(outs),
    ensures
        spec_aggregate(outs) == Seq::<char>::empty(),
    decreases outs.len(),
{
    if outs.len() > 0 {
        assert forall|k: int| 0 <= k < outs.len() - 1 implies !outcome_failed(
            outs.drop_last()[k],
        ) by {
            assert(!outcome_failed(outs[k]));
        }
        lemma_no_failure_no_message(outs.drop_last());
        assert(!outcome_failed(outs.last()));
        assert(spec_aggregate(outs) =~= Seq::<char>::empty());
    }
}

/// Folds the outcomes of one batch, in order, into a single result.
///
/// A skipped pair is not an error and contributes nothing; a failed pair
/// never blocks the rest — its message joins the aggregate, and the batch
/// fails as a whole exactly when at least one pair failed.
pub fn make_symlinks(outcomes: Vec<Outcome>) -> (r: Result<(), String>)
    ensures
        spec_has_failure(outcomes@) ==> (r matches Err(m) && m@ == spec_aggregate(outcomes@)),
        !spec_has_failure(outcomes@) ==> r == Result::<(), String>::Ok(()),
{
    let mut agg = String::new();
    let mut any_failed = false;
    let n = outcomes.len();
    let mut i: usize = 0;
    while i < n
        invariant
            n == outcomes@.len(),
            i <= n,
            agg@ == spec_aggregate(outcomes@.subrange(0, i as int)),
            any_failed == spec_has_failure(outcomes@.subrange(0, i as int)),
        decreases n - i,
    {
        let ghost pre = outcomes@.subrange(0, i as int);
        let ghost ext = outcomes@.subrange(0, i + 1);
        proof {
            assert(ext.drop_last() =~= pre);
            assert(ext.last() == outcomes@[i as int]);
        }
        match &outcomes[i] {
            Outcome::Failed { message } => {
                agg.append(message.as_str());
                any_failed = true;
                proof {
                    assert(outcome_failed(ext[i as int]));
                    assert(spec_has_failure(ext));
                }
            },
            _ => {
                proof {
                    assert(failure_text(ext.last()) =~= Seq::<char>::empty());
                    assert(agg@ + Seq::<char>::empty() =~= agg@);
                    if spec_has_failure(ext) {
                        let k = choose|k: int|
                            0 <= k < ext.len() && outcome_failed(ext[k]);
                        assert(k < i);
                        assert(outcome_failed(pre[k]));
                        assert(spec_has_failure(pre));
                    }
                }
            },
        }
        i = i + 1;
    }
    proof {
        assert(outcomes@.subrange(0, n as int) =~= outcomes@);
    }
    if any_failed {
        Err(agg)
    } else {
        Ok(())
    }
}

} // verus!
