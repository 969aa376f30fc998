//! Counting what comes of going through stored messages again.

use vstd::prelude::*;
use crate::models::MeshWatchyError;

verus! {

/// What came of the messages gone through so far.
#[derive(Clone, Copy, Debug, PartialEq, Eq, Structural)]
pub struct ReplayTally {
    /// Messages gone through without an error.
    pub processed: u64,
    /// Those among them that changed something.
    pub changed: u64,
    /// Messages that gave an error.
    pub errors: u64,
}

/// What came of one message: whether it changed something, or none where it gave an error.
pub open spec fn outcome_of(result: Result<bool, MeshWatchyError>) -> Option<bool> {
    match result {
        Ok(changed) => Some(changed),
        Err(_) => None,
    }
}

/// How many of these messages were gone through without an error.
pub open spec fn processed_among(outcomes: Seq<Option<bool>>) -> nat
    decreases outcomes.len(),
{
    if outcomes.len() == 0 {
        0
    } else {
        processed_among(outcomes.drop_last()) + (if outcomes.last() is Some {
            1nat
        } else {
            0nat
        })
    }
}

/// How many of these messages changed something.
pub open spec fn changed_among(outcomes: Seq<Option<bool>>) -> nat
    decreases outcomes.len(),
{
    if outcomes.len() == 0 {
        0
    } else {
        changed_among(outcomes.drop_last()) + (if outcomes.last() == Some(true) {
            1nat
        } else {
            0nat
        })
    }
}

impl ReplayTally {
    /// Whether this counts what came of these messages.
    pub open spec fn counts(self, outcomes: Seq<Option<bool>>) -> bool {
        &&& self.processed == processed_among(outcomes)
        &&& self.changed == changed_among(outcomes)
        &&& self.errors == outcomes.len() - processed_among(outcomes)
    }

    /// Whether one more outcome can be counted.
    pub open spec fn has_room(self, outcome: Option<bool>) -> bool {
        if outcome is Some {
            self.processed < u64::MAX
        } else {
            self.errors < u64::MAX
        }
    }

    /// This, with one more outcome counted.
    pub open spec fn counted(self, outcome: Option<bool>) -> ReplayTally {
        match outcome {
            Some(changed) => ReplayTally {
                processed: (self.processed + 1) as u64,
                changed: (if changed {
                    (self.changed + 1) as u64
                } else {
                    self.changed
                }),
                errors: self.errors,
            },
            None => ReplayTally { errors: (self.errors + 1) as u64, ..self },
        }
    }

    /// No message gone through yet.
    pub fn new() -> (r: Self)
        ensures
            r.counts(Seq::<Option<bool>>::empty()),
    {
        ReplayTally { processed: 0, changed: 0, errors: 0 }
    }

    /// Counts what came of one more message, and tells whether it is time to report: behind every
    /// hundredth message without an error.
    pub fn count(&mut self, result: &Result<bool, MeshWatchyError>) -> (r: bool)
        requires
            old(self).changed <= old(self).processed,
            old(self).has_room(outcome_of(*result)),
        ensures
            *final(self) == old(self).counted(outcome_of(*result)),
            final(self).changed <= final(self).processed,
            r == (result is Ok && final(self).processed % 100 == 0),
    {
        match result {
            Ok(changed) => {
                self.processed = self.processed + 1;
                if *changed {
                    self.changed = self.changed + 1;
                }
                self.processed % 100 == 0
            },
            Err(_) => {
                self.errors = self.errors + 1;
                false
            },
        }
    }
}

/// Counting one more message counts what came of all of them.
pub proof fn law_count_extends(
    tally: ReplayTally,
    outcomes: Seq<Option<bool>>,
    outcome: Option<bool>,
)
    requires
        tally.counts(outcomes),
        tally.has_room(outcome),
    ensures
        tally.counted(outcome).counts(outcomes.push(outcome)),
{
    assert(outcomes.push(outcome).drop_last() =~= outcomes);
    lemma_changed_within_processed(outcomes);
}

proof fn lemma_changed_within_processed(outcomes: Seq<Option<bool>>)
    ensures
        changed_among(outcomes) <= processed_among(outcomes) <= outcomes.len(),
    decreases outcomes.len(),
{
    if outcomes.len() > 0 {
        lemma_changed_within_processed(outcomes.drop_last());
    }
}

/// Every message is counted once: as gone through or as an error; and none changes something
/// without being gone through.
pub proof fn law_all_accounted_for(tally: ReplayTally, outcomes: Seq<Option<bool>>)
    requires
        tally.counts(outcomes),
    ensures
        tally.processed + tally.errors == outcomes.len(),
        tally.changed <= tally.processed,
{
    lemma_changed_within_processed(outcomes);
}

/// One more message is counted once: as gone through and, where it changed something, as a change; or
/// as an error. Nothing else is counted for it.
pub proof fn law_counted_once(tally: ReplayTally, changed: bool)
    requires
        tally.changed <= tally.processed,
    ensures
        tally.processed < u64::MAX ==> {
            let after = tally.counted(Some(changed));
            &&& after.processed == tally.processed + 1
            &&& after.errors == tally.errors
            &&& changed ==> after.changed == tally.changed + 1
            &&& !changed ==> after.changed == tally.changed
        },
        tally.errors < u64::MAX ==> {
            let after = tally.counted(None);
            &&& after.processed == tally.processed
            &&& after.errors == tally.errors + 1
            &&& after.changed == tally.changed
        },
{
}

/// What came of messages is counted one by one.
pub proof fn law_outcomes_one_by_one(outcomes: Seq<Option<bool>>)
    ensures
        processed_among(Seq::empty()) == 0,
        changed_among(Seq::empty()) == 0,
        processed_among(outcomes.push(Some(true))) == processed_among(outcomes) + 1,
        processed_among(outcomes.push(Some(false))) == processed_among(outcomes) + 1,
        processed_among(outcomes.push(None)) == processed_among(outcomes),
        changed_among(outcomes.push(Some(true))) == changed_among(outcomes) + 1,
        changed_among(outcomes.push(Some(false))) == changed_among(outcomes),
        changed_among(outcomes.push(None)) == changed_among(outcomes),
{
    assert(outcomes.push(Some(true)).drop_last() =~= outcomes);
    assert(outcomes.push(Some(false)).drop_last() =~= outcomes);
    assert(outcomes.push(None).drop_last() =~= outcomes);
}

/// A message that was gone through comes to whether it changed something, any error to an error.
pub proof fn law_outcome_by_result(changed: bool, error: MeshWatchyError)
    ensures
        outcome_of(Ok(changed)) == Some(changed),
        outcome_of(Err(error)) is None,
{
}

} // verus!
