//! Batches: a run of row statements inside one transaction.
//!
//! A batch decides what the driver of the store is to do next: open the
//! transaction, run the statement of one row, commit, or roll back. The driver
//! carries the action out and hands back how it went. A batch commits only
//! after every row went well, and rolls back after the first failure.

use crate::store::StoreError;
use vstd::prelude::*;

verus! {

/// Opens a transaction.
pub const BEGIN_TRANSACTION: &'static str = "BEGIN TRANSACTION;";

/// Closes the transaction and keeps what was done in it.
pub const COMMIT: &'static str = "COMMIT;";

/// Closes the transaction and undoes what was done in it.
pub const ROLLBACK: &'static str = "ROLLBACK;";

/// How far a batch has come.
#[derive(Clone, Copy, Debug, PartialEq, Eq)]
pub enum Phase {
    /// Nothing was done yet.
    Start,
    /// The transaction is open and the rows before `next` went well.
    Rows { next: usize },
    /// Every row went well.
    Committing,
    /// Something failed while the transaction was open.
    RollingBack { cause: StoreError },
    /// The batch is over.
    Done { result: Result<(), StoreError> },
}

/// What the driver is to do.
#[derive(Clone, Copy, Debug, PartialEq, Eq)]
pub enum BatchAction {
    /// Open the transaction.
    Begin,
    /// Run the statement of the row with this index.
    Row(usize),
    /// Commit the transaction.
    Commit,
    /// Roll the transaction back.
    Rollback,
    /// Nothing more: the batch ended with this result.
    Finish(Result<(), StoreError>),
}

/// The phase once `done` of `count` rows went well.
pub open spec fn after_rows(count: nat, done: nat) -> Phase {
    if done < count {
        Phase::Rows { next: done as usize }
    } else {
        Phase::Committing
    }
}

/// The phase that follows `phase` when the action of `phase` had this outcome.
pub open spec fn next_phase(count: nat, phase: Phase, outcome: Result<(), StoreError>) -> Phase {
    match phase {
        Phase::Start => match outcome {
            Ok(_) => after_rows(count, 0),
            Err(e) => Phase::Done { result: Err(e) },
        },
        Phase::Rows { next } => match outcome {
            Ok(_) => after_rows(count, (next + 1) as nat),
            Err(e) => Phase::RollingBack { cause: e },
        },
        Phase::Committing => match outcome {
            Ok(_) => Phase::Done { result: Ok(()) },
            Err(e) => Phase::RollingBack { cause: e },
        },
        Phase::RollingBack { cause } => Phase::Done { result: Err(cause) },
        Phase::Done { result } => Phase::Done { result },
    }
}

/// The action that the driver is to carry out in `phase`.
pub open spec fn action_of(phase: Phase) -> BatchAction {
    match phase {
        Phase::Start => BatchAction::Begin,
        Phase::Rows { next } => BatchAction::Row(next),
        Phase::Committing => BatchAction::Commit,
        Phase::RollingBack { .. } => BatchAction::Rollback,
        Phase::Done { result } => BatchAction::Finish(result),
    }
}

/// The phase after the outcomes `outcomes`, one for each action carried out.
pub open spec fn phase_after(count: nat, outcomes: Seq<Result<(), StoreError>>) -> Phase
    decreases outcomes.len(),
{
    if outcomes.len() == 0 {
        Phase::Start
    } else {
        next_phase(count, phase_after(count, outcomes.drop_last()), outcomes.last())
    }
}

/// A phase that a batch of `count` rows can be in.
pub open spec fn phase_fits(count: nat, phase: Phase) -> bool {
    phase matches Phase::Rows { next } ==> next < count
}

/// What a batch is: how many rows it has and how far it has come.
pub struct BatchView {
    pub count: nat,
    pub phase: Phase,
}

/// A batch of row statements.
#[derive(Clone, Copy, Debug, PartialEq, Eq)]
pub struct Batch {
    count: usize,
    phase: Phase,
}

impl View for Batch {
    type V = BatchView;

    closed spec fn view(&self) -> BatchView {
        BatchView { count: self.count as nat, phase: self.phase }
    }
}

impl Batch {
    #[verifier::type_invariant]
    spec fn well_formed(&self) -> bool {
        phase_fits(self.count as nat, self.phase)
    }

    /// A batch of `count` rows, of which nothing was done yet.
    pub fn new(count: usize) -> (batch: Batch)
        ensures
            batch@ == (BatchView { count: count as nat, phase: Phase::Start }),
    {
        Batch { count, phase: Phase::Start }
    }

    /// How far the batch has come.
    pub fn phase(&self) -> (phase: Phase)
        ensures
            phase == self@.phase,
            phase_fits(self@.count, phase),
    {
        proof {
            use_type_invariant(self);
        }
        self.phase
    }

    /// What the driver is to do now.
    pub fn action(&self) -> (action: BatchAction)
        ensures
            action == action_of(self@.phase),
            action matches BatchAction::Row(i) ==> i < self@.count,
    {
        proof {
            use_type_invariant(self);
        }
        match self.phase {
            Phase::Start => BatchAction::Begin,
            Phase::Rows { next } => BatchAction::Row(next),
            Phase::Committing => BatchAction::Commit,
            Phase::RollingBack { cause } => BatchAction::Rollback,
            Phase::Done { result } => BatchAction::Finish(result),
        }
    }

    /// Tells whether the batch is over.
    pub fn is_done(&self) -> (done: bool)
        ensures
            done == self@.phase is Done,
    {
        match self.phase {
            Phase::Done { .. } => true,
            _ => false,
        }
    }

    /// Takes note of how the action of [`Batch::action`] went.
    pub fn advance(&mut self, outcome: Result<(), StoreError>)
        ensures
            final(self)@ == (BatchView {
                count: old(self)@.count,
                phase: next_phase(old(self)@.count, old(self)@.phase, outcome),
            }),
    {
        proof {
            use_type_invariant(&*self);
        }
        let phase = match self.phase {
            Phase::Start => match outcome {
                Ok(_) => self.rows_from(0),
                Err(e) => Phase::Done { result: Err(e) },
            },
            Phase::Rows { next } => match outcome {
                Ok(_) => self.rows_from(next + 1),
                Err(e) => Phase::RollingBack { cause: e },
            },
            Phase::Committing => match outcome {
                Ok(_) => Phase::Done { result: Ok(()) },
                Err(e) => Phase::RollingBack { cause: e },
            },
            Phase::RollingBack { cause } => Phase::Done { result: Err(cause) },
            Phase::Done { result } => Phase::Done { result },
        };
        self.phase = phase;
    }

    /// The phase once `done` rows went well.
    fn rows_from(&self, done: usize) -> (phase: Phase)
        ensures
            phase == after_rows(self@.count, done as nat),
            phase_fits(self@.count, phase),
    {
        if done < self.count {
            Phase::Rows { next: done }
        } else {
            Phase::Committing
        }
    }
}

/// Every outcome of `outcomes` is a success.
pub open spec fn all_ok(outcomes: Seq<Result<(), StoreError>>) -> bool {
    forall|i: int| 0 <= i < outcomes.len() ==> (#[trigger] outcomes[i]) is Ok
}

/// While everything goes well, a batch opens the transaction, runs the rows in
/// order, commits, and ends well.
pub proof fn lemma_phase_while_ok(count: nat, outcomes: Seq<Result<(), StoreError>>)
    requires
        count <= usize::MAX,
        all_ok(outcomes),
    ensures
        phase_after(count, outcomes) == if outcomes.len() == 0 {
            Phase::Start
        } else if outcomes.len() <= count {
            Phase::Rows { next: (outcomes.len() - 1) as usize }
        } else if outcomes.len() == count + 1 {
            Phase::Committing
        } else {
            Phase::Done { result: Ok(()) }
        },
    decreases outcomes.len(),
{
    if outcomes.len() > 0 {
        let before = outcomes.drop_last();
        assert forall|i: int| 0 <= i < before.len() implies (#[trigger] before[i]) is Ok by {
            assert(before[i] == outcomes[i]);
        }
        lemma_phase_while_ok(count, before);
        assert(outcomes.last() == outcomes[outcomes.len() - 1]);
    }
}

/// The phases in which everything so far went well are reached by successes only.
pub proof fn lemma_phase_needs_ok(count: nat, outcomes: Seq<Result<(), StoreError>>)
    requires
        count <= usize::MAX,
    ensures
        phase_after(count, outcomes) is Rows || phase_after(count, outcomes) is Committing
            ==> all_ok(outcomes),
        phase_after(count, outcomes) == (Phase::Done { result: Ok(()) }) ==> outcomes.len()
            >= count + 2 && all_ok(outcomes.take(count as int + 2)),
    decreases outcomes.len(),
{
    if outcomes.len() > 0 {
        let before = outcomes.drop_last();
        lemma_phase_needs_ok(count, before);
        let phase = phase_after(count, before);
        if phase is Start {
            lemma_start_is_first(count, before);
        }
        if phase is Start || phase is Rows || phase is Committing {
            if outcomes.last() is Ok {
                assert forall|i: int| 0 <= i < outcomes.len() implies (#[trigger] outcomes[i]) is Ok by {
                    if i < before.len() {
                        assert(before[i] == outcomes[i]);
                    }
                }
                lemma_phase_while_ok(count, outcomes);
                if phase is Committing {
                    lemma_phase_while_ok(count, before);
                    assert(outcomes.take(count as int + 2) =~= outcomes);
                }
            }
        } else if phase == (Phase::Done { result: Ok::<(), StoreError>(()) }) {
            assert(outcomes.take(count as int + 2) =~= before.take(count as int + 2));
        }
    }
}

/// A batch is at its start only before anything was done.
pub proof fn lemma_start_is_first(count: nat, outcomes: Seq<Result<(), StoreError>>)
    requires
        phase_after(count, outcomes) is Start,
    ensures
        outcomes.len() == 0,
{
    if outcomes.len() > 0 {
        let phase = phase_after(count, outcomes.drop_last());
        assert(next_phase(count, phase, outcomes.last()) !is Start);
    }
}

/// A batch commits only after the transaction was opened and every row went
/// well, and it ends well only after the commit went well too.
pub proof fn lemma_commit_needs_every_row(count: nat, outcomes: Seq<Result<(), StoreError>>)
    requires
        count <= usize::MAX,
    ensures
        action_of(phase_after(count, outcomes)) == BatchAction::Commit ==> outcomes.len() == count
            + 1 && all_ok(outcomes),
        action_of(phase_after(count, outcomes)) == BatchAction::Finish(Ok(())) ==> outcomes.len()
            >= count + 2 && all_ok(outcomes.take(count as int + 2)),
{
    lemma_phase_needs_ok(count, outcomes);
    if phase_after(count, outcomes) is Committing {
        lemma_phase_while_ok(count, outcomes);
    }
}

/// After the first failure of a row or of the commit, a batch rolls back, and
/// then ends with that failure.
pub proof fn lemma_failure_rolls_back(
    count: nat,
    outcomes: Seq<Result<(), StoreError>>,
    cause: StoreError,
    after: Result<(), StoreError>,
)
    requires
        count <= usize::MAX,
        0 < outcomes.len() <= count + 1,
        all_ok(outcomes),
    ensures
        action_of(phase_after(count, outcomes.push(Err(cause)))) == BatchAction::Rollback,
        action_of(phase_after(count, outcomes.push(Err(cause)).push(after))) == BatchAction::Finish(
            Err(cause),
        ),
{
    lemma_phase_while_ok(count, outcomes);
    let failed = outcomes.push(Err(cause));
    assert(failed.drop_last() =~= outcomes);
    assert(failed.push(after).drop_last() =~= failed);
}

/// A batch whose transaction could not be opened ends with that failure, and
/// neither runs a row nor rolls back.
pub proof fn lemma_failed_begin_ends(count: nat, cause: StoreError)
    ensures
        action_of(phase_after(count, seq![Err(cause)])) == BatchAction::Finish(Err(cause)),
{
    let outcomes = seq![Err::<(), StoreError>(cause)];
    assert(outcomes.drop_last() =~= Seq::<Result<(), StoreError>>::empty());
    assert(outcomes.last() == Err::<(), StoreError>(cause));
    assert(phase_after(count, outcomes.drop_last()) == Phase::Start);
}

/// Once a batch is over, nothing changes its result.
pub proof fn lemma_done_stays(count: nat, phase: Phase, outcome: Result<(), StoreError>)
    requires
        phase is Done,
    ensures
        next_phase(count, phase, outcome) == phase,
{
}

} // verus!
