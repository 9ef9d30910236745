//! Outcomes of resampling trials: each trial either yields an estimate or
//! fails (a solver that did not converge), and a run keeps every success and
//! counts every failure.

use vstd::prelude::*;

verus! {

/// The estimates of the trials that succeeded, in trial order.
pub open spec fn successes<T>(s: Seq<Option<T>>) -> Seq<T>
    decreases s.len(),
{
    if s.len() == 0 {
        Seq::empty()
    } else {
        match s.last() {
            Some(v) => successes(s.drop_last()).push(v),
            None => successes(s.drop_last()),
        }
    }
}

/// The number of trials that failed.
pub open spec fn failure_count<T>(s: Seq<Option<T>>) -> nat
    decreases s.len(),
{
    if s.len() == 0 {
        0
    } else {
        failure_count(s.drop_last()) + if s.last() is None { 1nat } else { 0nat }
    }
}

/// Every trial is either kept as a success or counted as a failure, never
/// both and never neither.
pub proof fn lemma_every_trial_accounted<T>(s: Seq<Option<T>>)
    ensures
        successes(s).len() + failure_count(s) == s.len(),
    decreases s.len(),
{
    if s.len() > 0 {
        lemma_every_trial_accounted(s.drop_last());
    }
}

/// The population of successful estimates and the number of failures of a
/// run of trials.
pub struct Tally<T> {
    pub successes: Vec<T>,
    pub failures: usize,
}

/// Splits the outcomes of a run into its successes and its failure count.
pub fn tally<T: Copy>(outcomes: &Vec<Option<T>>) -> (r: Tally<T>)
    ensures
        r.successes@ == successes(outcomes@),
        r.failures == failure_count(outcomes@),
        r.successes.len() + r.failures == outcomes.len(),
{
    let mut kept: Vec<T> = Vec::new();
    let mut failures: usize = 0;
    let mut i: usize = 0;
    while i < outcomes.len()
        invariant
            i <= outcomes.len(),
            kept@ == successes(outcomes@.take(i as int)),
            failures == failure_count(outcomes@.take(i as int)),
            kept.len() + failures == i,
        decreases outcomes.len() - i,
    {
        proof {
            assert(outcomes@.take(i + 1).drop_last() =~= outcomes@.take(i as int));
            lemma_every_trial_accounted(outcomes@.take(i as int));
        }
        match outcomes[i] {
            Some(v) => kept.push(v),
            None => failures = failures + 1,
        }
        i = i + 1;
    }
    proof {
        assert(outcomes@.take(i as int) =~= outcomes@);
    }
    Tally { successes: kept, failures }
}

/// The estimates of all trials when every one of them succeeded, and `None`
/// as soon as one failed.
pub fn all_succeeded<T: Copy>(outcomes: &Vec<Option<T>>) -> (r: Option<Vec<T>>)
    ensures
        r.is_some() <==> forall|i: int| 0 <= i < outcomes.len() ==> (#[trigger] outcomes[i]).is_some(),
        r matches Some(v) ==> v.len() == outcomes.len() && forall|i: int|
            0 <= i < outcomes.len() ==> #[trigger] outcomes[i] == Some(v[i]),
{
    let mut values: Vec<T> = Vec::with_capacity(outcomes.len());
    let mut i: usize = 0;
    while i < outcomes.len()
        invariant
            i <= outcomes.len(),
            values.len() == i,
            forall|j: int| 0 <= j < i ==> #[trigger] outcomes[j] == Some(values[j]),
        decreases outcomes.len() - i,
    {
        match outcomes[i] {
            Some(v) => values.push(v),
            None => return None,
        }
        i = i + 1;
    }
    Some(values)
}

} // verus!
