//! Package kinds: adding and deleting them in bulk.
//!
//! Each bulk operation runs inside one transaction: either every kind of the
//! list is added (or deleted), or the table of kinds stays as it was.

use crate::batch::{action_of, next_phase, Batch, BatchAction, Phase};
use crate::store::{
    kind_is_used, row_error, tables_wf, with_kind, without_kind, MetadataStore, StoreError,
    StoreView, TablesView,
};
use crate::table::{append_check, next_id};
use vstd::prelude::*;
use vstd::string::*;

verus! {

/// Adds one kind. Its parameter is the kind.
pub const INSERT_KIND: &'static str = "INSERT INTO package_kinds (kind) VALUES (?);";

/// Deletes one kind. Its parameter is the kind.
pub const DELETE_KIND: &'static str = "DELETE FROM package_kinds WHERE kind = ?;";

/// What a bulk operation does with each kind of its list.
#[derive(Clone, Copy, Debug, PartialEq, Eq)]
pub enum KindOperation {
    Insert,
    Delete,
}

impl KindOperation {
    /// The statement that is run for each kind.
    pub fn statement(&self) -> (text: &'static str)
        ensures
            text == match *self {
                KindOperation::Insert => INSERT_KIND,
                KindOperation::Delete => DELETE_KIND,
            },
    {
        match self {
            KindOperation::Insert => INSERT_KIND,
            KindOperation::Delete => DELETE_KIND,
        }
    }
}

/// What the kinds of a list are.
pub open spec fn names_view(kinds: Seq<String>) -> Seq<Seq<char>> {
    kinds.map_values(|k: String| k@)
}

/// Why the store refuses the statement for `kind`, if it does.
pub open spec fn row_check(op: KindOperation, t: TablesView, kind: Seq<char>) -> Option<StoreError> {
    match op {
        KindOperation::Insert => match append_check(t.kinds, next_id(t.kinds), kind) {
            Some(cause) => Some(row_error(cause)),
            None => None,
        },
        KindOperation::Delete => if kind_is_used(t, kind) {
            Some(StoreError::KindInUse)
        } else {
            None
        },
    }
}

/// The tables after the statement for `kind` was run.
pub open spec fn row_applied(op: KindOperation, t: TablesView, kind: Seq<char>) -> TablesView {
    match op {
        KindOperation::Insert => with_kind(t, next_id(t.kinds), kind),
        KindOperation::Delete => without_kind(t, kind),
    }
}

/// The tables after the statement was run for each of `kinds`, in order.
pub open spec fn rows_applied(op: KindOperation, t: TablesView, kinds: Seq<Seq<char>>) -> TablesView
    decreases kinds.len(),
{
    if kinds.len() == 0 {
        t
    } else {
        row_applied(op, rows_applied(op, t, kinds.drop_last()), kinds.last())
    }
}

/// Why the store refuses the first of `kinds` that it refuses, if it refuses one.
pub open spec fn first_refusal(op: KindOperation, t: TablesView, kinds: Seq<Seq<char>>) -> Option<
    StoreError,
>
    decreases kinds.len(),
{
    if kinds.len() == 0 {
        None
    } else {
        match first_refusal(op, t, kinds.drop_last()) {
            Some(e) => Some(e),
            None => row_check(op, rows_applied(op, t, kinds.drop_last()), kinds.last()),
        }
    }
}

/// How a bulk operation on the store `start` ends: it fails if a transaction
/// is open already, or with the first refusal of the store.
pub open spec fn batch_result(op: KindOperation, start: StoreView, kinds: Seq<Seq<char>>) -> Result<
    (),
    StoreError,
> {
    if start.saved is Some {
        Err(StoreError::Transaction)
    } else {
        match first_refusal(op, start.tables, kinds) {
            Some(e) => Err(e),
            None => Ok(()),
        }
    }
}

/// A list that the store refuses at some point is refused at the same point
/// whatever follows.
proof fn lemma_refusal_stays(op: KindOperation, t: TablesView, kinds: Seq<Seq<char>>, k: int)
    requires
        0 <= k <= kinds.len(),
        first_refusal(op, t, kinds.take(k)) is Some,
    ensures
        first_refusal(op, t, kinds) == first_refusal(op, t, kinds.take(k)),
    decreases kinds.len() - k,
{
    if k == kinds.len() {
        assert(kinds.take(k) =~= kinds);
    } else {
        assert(kinds.drop_last().take(k) =~= kinds.take(k));
        lemma_refusal_stays(op, t, kinds.drop_last(), k);
    }
}

/// Runs the statement for one kind.
fn apply_row(op: KindOperation, kind: &str, db: &mut MetadataStore) -> (r: Result<(), StoreError>)
    ensures
        match r {
            Ok(_) => row_check(op, old(db)@.tables, kind@) is None && final(db)@ == (StoreView {
                tables: row_applied(op, old(db)@.tables, kind@),
                saved: old(db)@.saved,
            }),
            Err(e) => row_check(op, old(db)@.tables, kind@) == Some(e) && final(db)@ == old(db)@,
        },
{
    match op {
        KindOperation::Insert => match db.insert_kind(kind) {
            Ok(_) => Ok(()),
            Err(e) => Err(e),
        },
        KindOperation::Delete => match db.delete_kind(kind) {
            Ok(_) => Ok(()),
            Err(e) => Err(e),
        },
    }
}

/// What holds of the store while a bulk operation that began on `start` is in `phase`.
spec fn in_step(
    op: KindOperation,
    kinds: Seq<Seq<char>>,
    start: StoreView,
    phase: Phase,
    now: StoreView,
) -> bool {
    match phase {
        Phase::Start => now == start,
        Phase::Rows { next } => {
            &&& start.saved is None
            &&& next < kinds.len()
            &&& first_refusal(op, start.tables, kinds.take(next as int)) is None
            &&& now == (StoreView {
                tables: rows_applied(op, start.tables, kinds.take(next as int)),
                saved: Some(start.tables),
            })
        },
        Phase::Committing => {
            &&& start.saved is None
            &&& first_refusal(op, start.tables, kinds) is None
            &&& now == (StoreView {
                tables: rows_applied(op, start.tables, kinds),
                saved: Some(start.tables),
            })
        },
        Phase::RollingBack { cause } => {
            &&& start.saved is None
            &&& now.saved == Some(start.tables)
            &&& batch_result(op, start, kinds) == Err::<(), StoreError>(cause)
        },
        Phase::Done { result } => {
            &&& result == batch_result(op, start, kinds)
            &&& match result {
                Ok(_) => now == (StoreView {
                    tables: rows_applied(op, start.tables, kinds),
                    saved: None,
                }),
                Err(_) => now == start,
            }
        },
    }
}

/// How many steps a bulk operation in `phase` has before it.
spec fn steps_left(count: nat, phase: Phase) -> nat {
    match phase {
        Phase::Start => count + 4,
        Phase::Rows { next } => (count - next + 3) as nat,
        Phase::Committing => 3,
        Phase::RollingBack { .. } => 2,
        Phase::Done { .. } => 1,
    }
}

/// Runs the statement of `op` for each of `kinds` inside one transaction.
///
/// Either every statement takes effect, or none does.
pub fn run_kind_batch(op: KindOperation, kinds: &Vec<String>, db: &mut MetadataStore) -> (r: Result<
    (),
    StoreError,
>)
    ensures
        r == batch_result(op, old(db)@, names_view(kinds@)),
        match r {
            Ok(_) => final(db)@ == (StoreView {
                tables: rows_applied(op, old(db)@.tables, names_view(kinds@)),
                saved: None,
            }),
            Err(_) => final(db)@ == old(db)@,
        },
{
    let ghost start = db@;
    let ghost names = names_view(kinds@);
    let mut batch = Batch::new(kinds.len());
    loop
        invariant
            start == old(db)@,
            names == names_view(kinds@),
            batch@.count == kinds.len(),
            in_step(op, names, start, batch@.phase, db@),
        decreases steps_left(kinds.len() as nat, batch@.phase),
    {
        let outcome = match batch.action() {
            BatchAction::Begin => db.begin(),
            BatchAction::Row(i) => {
                proof {
                    assert(names.take(i + 1).drop_last() =~= names.take(i as int));
                    assert(names.take(i + 1).last() == kinds@[i as int]@);
                    if i + 1 == names.len() {
                        assert(names.take(i + 1) =~= names);
                    }
                }
                let outcome = apply_row(op, kinds[i].as_str(), db);
                proof {
                    if outcome is Err {
                        lemma_refusal_stays(op, start.tables, names, i + 1);
                    }
                }
                outcome
            },
            BatchAction::Commit => db.commit(),
            BatchAction::Rollback => db.rollback(),
            BatchAction::Finish(result) => {
                return result;
            },
        };
        proof {
            assert(names.take(0) =~= Seq::<Seq<char>>::empty());
            if names.len() == 0 {
                assert(names =~= Seq::<Seq<char>>::empty());
            }
        }
        batch.advance(outcome);
    }
}

/// Adds every kind of `kinds`, or none of them.
///
/// Fails, with the table of kinds as it was, if a transaction is open, if a
/// kind is empty, or if a kind is recorded already or occurs twice in the list.
pub fn insert_pkg_kinds(kinds: Vec<String>, db: &mut MetadataStore) -> (r: Result<(), StoreError>)
    ensures
        r == batch_result(KindOperation::Insert, old(db)@, names_view(kinds@)),
        match r {
            Ok(_) => final(db)@ == (StoreView {
                tables: rows_applied(KindOperation::Insert, old(db)@.tables, names_view(kinds@)),
                saved: None,
            }),
            Err(_) => final(db)@ == old(db)@,
        },
{
    run_kind_batch(KindOperation::Insert, &kinds, db)
}

/// Deletes every kind of `kinds` that is recorded, or none of them.
///
/// Fails, with the table of kinds as it was, if a transaction is open or if
/// one of the kinds is the kind of a recorded package.
pub fn delete_pkg_kinds(kinds: Vec<String>, db: &mut MetadataStore) -> (r: Result<(), StoreError>)
    ensures
        r == batch_result(KindOperation::Delete, old(db)@, names_view(kinds@)),
        match r {
            Ok(_) => final(db)@ == (StoreView {
                tables: rows_applied(KindOperation::Delete, old(db)@.tables, names_view(kinds@)),
                saved: None,
            }),
            Err(_) => final(db)@ == old(db)@,
        },
{
    run_kind_batch(KindOperation::Delete, &kinds, db)
}

/// What the store is after the driver carried out `action`. A statement that
/// failed changed nothing. A rollback undoes the transaction whether or not
/// the driver could report it: an open transaction ends with the connection.
pub open spec fn store_after(
    op: KindOperation,
    kinds: Seq<Seq<char>>,
    store: StoreView,
    action: BatchAction,
    went_well: bool,
) -> StoreView {
    match action {
        BatchAction::Begin => if went_well {
            StoreView { tables: store.tables, saved: Some(store.tables) }
        } else {
            store
        },
        BatchAction::Row(i) => if went_well {
            StoreView { tables: row_applied(op, store.tables, kinds[i as int]), saved: store.saved }
        } else {
            store
        },
        BatchAction::Commit => if went_well {
            StoreView { tables: store.tables, saved: None }
        } else {
            store
        },
        BatchAction::Rollback => match store.saved {
            Some(t) => StoreView { tables: t, saved: None },
            None => store,
        },
        BatchAction::Finish(_) => store,
    }
}

/// The phase of a bulk operation, and the store, after the driver carried out
/// one action for each of `outcomes` and it went as the outcome says.
pub open spec fn driven(
    op: KindOperation,
    kinds: Seq<Seq<char>>,
    start: StoreView,
    outcomes: Seq<Result<(), StoreError>>,
) -> (Phase, StoreView)
    decreases outcomes.len(),
{
    if outcomes.len() == 0 {
        (Phase::Start, start)
    } else {
        let (phase, store) = driven(op, kinds, start, outcomes.drop_last());
        (
            next_phase(kinds.len(), phase, outcomes.last()),
            store_after(op, kinds, store, action_of(phase), outcomes.last() is Ok),
        )
    }
}

/// What holds of the store while a driven bulk operation is in `phase`.
spec fn driven_step(
    op: KindOperation,
    kinds: Seq<Seq<char>>,
    start: StoreView,
    phase: Phase,
    now: StoreView,
) -> bool {
    match phase {
        Phase::Start => now == start,
        Phase::Rows { next } => next < kinds.len() && now == (StoreView {
            tables: rows_applied(op, start.tables, kinds.take(next as int)),
            saved: Some(start.tables),
        }),
        Phase::Committing => now == (StoreView {
            tables: rows_applied(op, start.tables, kinds),
            saved: Some(start.tables),
        }),
        Phase::RollingBack { .. } => now.saved == Some(start.tables),
        Phase::Done { result } => match result {
            Ok(_) => now == (StoreView {
                tables: rows_applied(op, start.tables, kinds),
                saved: None,
            }),
            Err(_) => now == start,
        },
    }
}

/// While a bulk operation is driven, the store is as its phase says.
proof fn lemma_driven_step(
    op: KindOperation,
    kinds: Seq<Seq<char>>,
    start: StoreView,
    outcomes: Seq<Result<(), StoreError>>,
)
    requires
        start.saved is None,
        kinds.len() <= usize::MAX,
    ensures
        driven_step(
            op,
            kinds,
            start,
            driven(op, kinds, start, outcomes).0,
            driven(op, kinds, start, outcomes).1,
        ),
    decreases outcomes.len(),
{
    if outcomes.len() > 0 {
        lemma_driven_step(op, kinds, start, outcomes.drop_last());
        let (phase, store) = driven(op, kinds, start, outcomes.drop_last());
        assert(kinds.take(0) =~= Seq::<Seq<char>>::empty());
        if kinds.len() == 0 {
            assert(kinds =~= Seq::<Seq<char>>::empty());
        }
        match phase {
            Phase::Rows { next } => {
                assert(kinds.take(next + 1).drop_last() =~= kinds.take(next as int));
                assert(kinds.take(next + 1).last() == kinds[next as int]);
                if next + 1 == kinds.len() {
                    assert(kinds.take(next + 1) =~= kinds);
                }
            },
            _ => {},
        }
    }
}

/// A bulk operation is all or nothing, whatever fails and wherever: when it is
/// over, either it ended well and the statement was run for every kind, or it
/// failed and the store is as it was before.
pub proof fn lemma_batch_is_atomic(
    op: KindOperation,
    kinds: Seq<Seq<char>>,
    start: StoreView,
    outcomes: Seq<Result<(), StoreError>>,
)
    requires
        start.saved is None,
        kinds.len() <= usize::MAX,
    ensures
        driven(op, kinds, start, outcomes).0 matches Phase::Done { result } ==> match result {
            Ok(_) => driven(op, kinds, start, outcomes).1 == (StoreView {
                tables: rows_applied(op, start.tables, kinds),
                saved: None,
            }),
            Err(_) => driven(op, kinds, start, outcomes).1 == start,
        },
{
    lemma_driven_step(op, kinds, start, outcomes);
}

/// Every statement that the store accepts keeps the tables consistent.
pub proof fn lemma_row_applied_wf(op: KindOperation, t: TablesView, kind: Seq<char>)
    requires
        tables_wf(t),
        row_check(op, t, kind) is None,
    ensures
        tables_wf(row_applied(op, t, kind)),
{
    match op {
        KindOperation::Insert => {
            crate::store::lemma_with_kind_wf(t, next_id(t.kinds), kind);
        },
        KindOperation::Delete => {
            crate::store::lemma_without_kind_wf(t, kind);
        },
    }
}

} // verus!
