//! Atomic append to a transactional backend: the decisions between database calls.
//!
//! The caller performs the database call that [`AppendFlow::action`] asks for and hands the result
//! to the matching `on_` method, until the flow is done.

use vstd::prelude::*;
use vstd::string::*;

use crate::error::{store_outcome, StoreError, StoreErrorView};
use crate::event::{event_views, Event, EventView};
use crate::ids::{hyphenated, WorkflowId};
use crate::store::{append_rule, contiguity, head_of, validate_contiguous};
use crate::text::{joined, signed_decimal, signed_decimal_text};
use crate::timestamp::rfc3339_text;

verus! {

/// How often the head is read again before a failed write counts as a backend failure.
pub const RECHECKS: u8 = 3;

/// The head that a head query returned: there must be a row, and it must not be negative.
pub open spec fn decoded_head(row: Option<i64>) -> Result<u64, StoreErrorView> {
    match row {
        None => Err(StoreErrorView::Backend("event head query returned no rows"@)),
        Some(head) => if head < 0 {
            Err(
                StoreErrorView::Backend(
                    "event head was negative: "@ + signed_decimal(head as int),
                ),
            )
        } else {
            Ok(head as u64)
        },
    }
}

/// Decodes the row of a head query.
pub fn current_head(row: Option<i64>) -> (head: Result<u64, StoreError>)
    ensures
        match decoded_head(row) {
            Ok(found) => head == Ok::<u64, StoreError>(found),
            Err(error) => head matches Err(e) && e@ == error,
        },
{
    match row {
        None => Err(StoreError::Backend("event head query returned no rows".to_owned())),
        Some(head) => {
            if head < 0 {
                Err(
                    StoreError::Backend(
                        joined("event head was negative: ", signed_decimal_text(head).as_str()),
                    ),
                )
            } else {
                Ok(head as u64)
            }
        },
    }
}

/// The columns of an event row that are not the encoded event.
#[derive(Debug, PartialEq, Eq)]
pub struct EventRow {
    /// Text of the workflow identifier.
    pub workflow_id: String,
    /// Position in the history.
    pub seq: u64,
    /// RFC 3339 text of the recording time.
    pub recorded_at: String,
}

/// The row under which an event of a workflow is inserted.
pub fn event_row(workflow_id: &WorkflowId, event: &Event) -> (row: EventRow)
    ensures
        row.workflow_id@ == hyphenated(workflow_id.value),
        row.seq == event@.envelope.seq,
        row.recorded_at@ == rfc3339_text(
            event@.envelope.recorded_at.seconds(),
            event@.envelope.recorded_at.subsec_nanos(),
        ),
{
    EventRow {
        workflow_id: workflow_id.to_string(),
        seq: event.seq(),
        recorded_at: event.recorded_at().to_rfc3339(),
    }
}

/// What happens once a transaction was rolled back.
#[derive(Debug, PartialEq, Eq)]
pub enum AfterRollback {
    /// The append ends with this outcome.
    Return(Result<(), StoreError>),
    /// The head is read again; if it did not move, the append ends with this failure.
    Recheck(StoreError),
}

/// Mathematical value of [`AfterRollback`].
pub enum AfterRollbackView {
    /// The append ends with this outcome.
    Return(Result<(), StoreErrorView>),
    /// The head is read again.
    Recheck(StoreErrorView),
}

impl View for AfterRollback {
    type V = AfterRollbackView;

    open spec fn view(&self) -> AfterRollbackView {
        match self {
            AfterRollback::Return(outcome) => AfterRollbackView::Return(store_outcome(*outcome)),
            AfterRollback::Recheck(error) => AfterRollbackView::Recheck(error@),
        }
    }
}

/// The database call that the flow waits for.
#[derive(Debug, PartialEq, Eq)]
pub enum AppendAction {
    /// Begin an immediate transaction.
    Begin,
    /// Read the head inside the transaction.
    ReadHead,
    /// Insert the event at this position of the batch.
    Insert(usize),
    /// Commit the transaction.
    Commit,
    /// Roll the transaction back.
    Rollback(AfterRollback),
    /// Read the head outside any transaction. The number of earlier reads is given, and the
    /// failure that counts if the head did not move.
    RecheckHead(u8, StoreError),
    /// Nothing: the append has ended.
    Done(Result<(), StoreError>),
}

/// Mathematical value of an [`AppendAction`].
pub enum AppendActionView {
    /// Begin an immediate transaction.
    Begin,
    /// Read the head inside the transaction.
    ReadHead,
    /// Insert an event of the batch.
    Insert(int),
    /// Commit the transaction.
    Commit,
    /// Roll the transaction back.
    Rollback(AfterRollbackView),
    /// Read the head outside any transaction.
    RecheckHead(u8, StoreErrorView),
    /// The append has ended.
    Done(Result<(), StoreErrorView>),
}

impl View for AppendAction {
    type V = AppendActionView;

    open spec fn view(&self) -> AppendActionView {
        match self {
            AppendAction::Begin => AppendActionView::Begin,
            AppendAction::ReadHead => AppendActionView::ReadHead,
            AppendAction::Insert(i) => AppendActionView::Insert(*i as int),
            AppendAction::Commit => AppendActionView::Commit,
            AppendAction::Rollback(next) => AppendActionView::Rollback(next@),
            AppendAction::RecheckHead(reads, error) => AppendActionView::RecheckHead(
                *reads,
                error@,
            ),
            AppendAction::Done(outcome) => AppendActionView::Done(store_outcome(*outcome)),
        }
    }
}

/// What follows the begin of the transaction. A transaction that cannot be begun may be due to a
/// concurrent writer, so the head is read again.
pub open spec fn after_begin(begun: Result<(), StoreErrorView>) -> AppendActionView {
    match begun {
        Ok(()) => AppendActionView::ReadHead,
        Err(failure) => AppendActionView::RecheckHead(0, failure),
    }
}

/// What follows the commit, which may fail with a text. A failed commit may be due to a concurrent
/// writer, so the head is read again.
pub open spec fn after_commit(committed: Result<(), Seq<char>>) -> AppendActionView {
    match committed {
        Ok(()) => AppendActionView::Done(Ok(())),
        Err(message) => AppendActionView::RecheckHead(0, StoreErrorView::Backend(message)),
    }
}

/// What follows a rollback; a failure of the rollback ends the append.
pub open spec fn after_rollback(
    then: AfterRollbackView,
    rolled_back: Result<(), StoreErrorView>,
) -> AppendActionView {
    match rolled_back {
        Err(error) => AppendActionView::Done(Err(error)),
        Ok(()) => match then {
            AfterRollbackView::Return(outcome) => AppendActionView::Done(outcome),
            AfterRollbackView::Recheck(failure) => AppendActionView::RecheckHead(0, failure),
        },
    }
}

/// What follows the read of the head inside the transaction: the batch is written only when the
/// head is the expected one and the batch continues it; a refusal and an empty batch roll back.
pub open spec fn after_head(
    head: Result<u64, StoreErrorView>,
    events: Seq<EventView>,
    expected_seq: u64,
) -> AppendActionView {
    match head {
        Err(error) => AppendActionView::Rollback(AfterRollbackView::Return(Err(error))),
        Ok(found) => if found != expected_seq {
            AppendActionView::Rollback(
                AfterRollbackView::Return(
                    Err(StoreErrorView::SequenceConflict { expected: expected_seq, found }),
                ),
            )
        } else if events.len() == 0 {
            AppendActionView::Rollback(AfterRollbackView::Return(Ok(())))
        } else {
            match contiguity(events, expected_seq as int) {
                Err(error) => AppendActionView::Rollback(AfterRollbackView::Return(Err(error))),
                Ok(()) => AppendActionView::Insert(0),
            }
        },
    }
}

/// What follows the insertion of the event at position `i`. A backend failure may be due to a
/// concurrent writer, so the head is read again behind the rollback.
pub open spec fn after_insert(
    i: int,
    len: int,
    inserted: Result<(), StoreErrorView>,
) -> AppendActionView {
    match inserted {
        Ok(()) => if i + 1 < len {
            AppendActionView::Insert(i + 1)
        } else {
            AppendActionView::Commit
        },
        Err(StoreErrorView::Backend(message)) => AppendActionView::Rollback(
            AfterRollbackView::Recheck(StoreErrorView::Backend(message)),
        ),
        Err(error) => AppendActionView::Rollback(AfterRollbackView::Return(Err(error))),
    }
}

/// What follows a read of the head outside the transaction, after `reads` earlier ones: a head
/// that moved is a sequence conflict, and one that stays put through all reads leaves the failure
/// as it was.
pub open spec fn after_recheck(
    reads: u8,
    failure: StoreErrorView,
    expected_seq: u64,
    head: Result<u64, StoreErrorView>,
) -> AppendActionView {
    match head {
        Err(error) => AppendActionView::Done(Err(error)),
        Ok(found) => if found != expected_seq {
            AppendActionView::Done(
                Err(StoreErrorView::SequenceConflict { expected: expected_seq, found }),
            )
        } else if reads + 1 < RECHECKS {
            AppendActionView::RecheckHead((reads + 1) as u8, failure)
        } else {
            AppendActionView::Done(Err(failure))
        },
    }
}

/// One append in progress.
#[derive(Debug)]
pub struct AppendFlow {
    expected_seq: u64,
    action: AppendAction,
}

impl AppendFlow {
    /// Head that the writer expects.
    pub closed spec fn expected(&self) -> u64 {
        self.expected_seq
    }

    /// The database call that the flow waits for.
    pub closed spec fn waits_for(&self) -> AppendActionView {
        self.action@
    }

    /// An append that has not touched the database yet.
    pub fn begin(expected_seq: u64) -> (flow: Self)
        ensures
            flow.expected() == expected_seq,
            flow.waits_for() == AppendActionView::Begin,
    {
        AppendFlow { expected_seq, action: AppendAction::Begin }
    }

    /// The database call to perform next.
    pub fn action(&self) -> (action: &AppendAction)
        ensures
            action@ == self.waits_for(),
    {
        &self.action
    }

    /// The transaction was begun, or the backend refused with `failure`.
    pub fn on_begin(self, begun: Result<(), StoreError>) -> (next: Self)
        ensures
            next.expected() == self.expected(),
            next.waits_for() == after_begin(store_outcome(begun)),
    {
        let action = match begun {
            Ok(()) => AppendAction::ReadHead,
            Err(failure) => AppendAction::RecheckHead(0, failure),
        };
        AppendFlow { expected_seq: self.expected_seq, action }
    }

    /// The head was read inside the transaction.
    pub fn on_head(self, row: Result<Option<i64>, StoreError>, events: &[Event]) -> (next: Self)
        ensures
            next.expected() == self.expected(),
            next.waits_for() == after_head(
                match row {
                    Ok(row) => decoded_head(row),
                    Err(error) => Err(error@),
                },
                event_views(events@),
                self.expected(),
            ),
    {
        let head = match row {
            Ok(row) => current_head(row),
            Err(error) => Err(error),
        };
        let expected_seq = self.expected_seq;
        let action = match head {
            Err(error) => AppendAction::Rollback(AfterRollback::Return(Err(error))),
            Ok(found) => {
                if found != expected_seq {
                    AppendAction::Rollback(
                        AfterRollback::Return(
                            Err(StoreError::SequenceConflict { expected: expected_seq, found }),
                        ),
                    )
                } else if events.len() == 0 {
                    AppendAction::Rollback(AfterRollback::Return(Ok(())))
                } else {
                    match validate_contiguous(events, expected_seq) {
                        Err(error) => AppendAction::Rollback(AfterRollback::Return(Err(error))),
                        Ok(()) => AppendAction::Insert(0),
                    }
                }
            },
        };
        AppendFlow { expected_seq, action }
    }

    /// The event at position `i` of a batch of `len` events was inserted.
    pub fn on_insert(self, i: usize, len: usize, inserted: Result<(), StoreError>) -> (next: Self)
        requires
            i < len,
        ensures
            next.expected() == self.expected(),
            next.waits_for() == after_insert(i as int, len as int, store_outcome(inserted)),
    {
        let action = match inserted {
            Ok(()) => {
                if i + 1 < len {
                    AppendAction::Insert(i + 1)
                } else {
                    AppendAction::Commit
                }
            },
            Err(StoreError::Backend(message)) => AppendAction::Rollback(
                AfterRollback::Recheck(StoreError::Backend(message)),
            ),
            Err(error) => AppendAction::Rollback(AfterRollback::Return(Err(error))),
        };
        AppendFlow { expected_seq: self.expected_seq, action }
    }

    /// What the append returns, once there is nothing left to do.
    pub fn into_outcome(self) -> (outcome: Option<Result<(), StoreError>>)
        ensures
            match self.waits_for() {
                AppendActionView::Done(view) => outcome matches Some(o) && store_outcome(o) == view,
                _ => outcome is None,
            },
    {
        match self.action {
            AppendAction::Done(outcome) => Some(outcome),
            _ => None,
        }
    }

    /// The transaction was committed, or the commit failed with the given text.
    pub fn on_commit(self, committed: Result<(), String>) -> (next: Self)
        ensures
            next.expected() == self.expected(),
            next.waits_for() == after_commit(
                match committed {
                    Ok(()) => Ok(()),
                    Err(message) => Err(message@),
                },
            ),
    {
        let action = match committed {
            Ok(()) => AppendAction::Done(Ok(())),
            Err(message) => AppendAction::RecheckHead(0, StoreError::Backend(message)),
        };
        AppendFlow { expected_seq: self.expected_seq, action }
    }

    /// The transaction was rolled back; a failure of the rollback ends the append.
    pub fn on_rollback(self, rolled_back: Result<(), StoreError>) -> (next: Self)
        ensures
            next.expected() == self.expected(),
            self.waits_for() matches AppendActionView::Rollback(then) ==> next.waits_for()
                == after_rollback(then, store_outcome(rolled_back)),
            !(self.waits_for() is Rollback) ==> next.waits_for() == self.waits_for(),
    {
        let expected_seq = self.expected_seq;
        let action = match self.action {
            AppendAction::Rollback(next) => match rolled_back {
                Err(error) => AppendAction::Done(Err(error)),
                Ok(()) => match next {
                    AfterRollback::Return(outcome) => AppendAction::Done(outcome),
                    AfterRollback::Recheck(failure) => AppendAction::RecheckHead(0, failure),
                },
            },
            action => action,
        };
        AppendFlow { expected_seq, action }
    }

    /// The head was read outside the transaction.
    pub fn on_recheck(self, row: Result<Option<i64>, StoreError>) -> (next: Self)
        ensures
            next.expected() == self.expected(),
            self.waits_for() matches AppendActionView::RecheckHead(reads, failure)
                ==> next.waits_for() == after_recheck(
                reads,
                failure,
                self.expected(),
                match row {
                    Ok(row) => decoded_head(row),
                    Err(error) => Err(error@),
                },
            ),
            !(self.waits_for() is RecheckHead) ==> next.waits_for() == self.waits_for(),
    {
        let expected_seq = self.expected_seq;
        let action = match self.action {
            AppendAction::RecheckHead(reads, failure) => {
                let head = match row {
                    Ok(row) => current_head(row),
                    Err(error) => Err(error),
                };
                match head {
                    Err(error) => AppendAction::Done(Err(error)),
                    Ok(found) => {
                        if found != expected_seq {
                            AppendAction::Done(
                                Err(
                                    StoreError::SequenceConflict { expected: expected_seq, found },
                                ),
                            )
                        } else if reads < RECHECKS - 1 {
                            AppendAction::RecheckHead(reads + 1, failure)
                        } else {
                            AppendAction::Done(Err(failure))
                        }
                    },
                }
            },
            action => action,
        };
        AppendFlow { expected_seq, action }
    }
}

/// An undisturbed transaction decides by the same rule as every store: the batch is written exactly
/// when the rule accepts it and it is not empty, and otherwise the transaction is rolled back and
/// returns what the rule says.
pub proof fn transaction_follows_append_rule(
    history: Seq<EventView>,
    events: Seq<EventView>,
    expected_seq: u64,
)
    ensures
        after_head(Ok(head_of(history)), events, expected_seq) == (if append_rule(
            history,
            events,
            expected_seq,
        ) is Ok && events.len() > 0 {
            AppendActionView::Insert(0)
        } else {
            AppendActionView::Rollback(
                AfterRollbackView::Return(append_rule(history, events, expected_seq)),
            )
        }),
{
}

/// A failed write is reported as a sequence conflict exactly when one of the reads behind it finds
/// that the head moved before a read fails; the conflict names the head that was found.
pub proof fn recheck_reports_moved_head(
    failure: StoreErrorView,
    expected_seq: u64,
    heads: (u64, u64, u64),
)
    ensures
        ({
            let first = after_recheck(0, failure, expected_seq, Ok(heads.0));
            let second = after_recheck(1, failure, expected_seq, Ok(heads.1));
            let third = after_recheck(2, failure, expected_seq, Ok(heads.2));
            let conflict = |found: u64|
                AppendActionView::Done(
                    Err(StoreErrorView::SequenceConflict { expected: expected_seq, found }),
                );
            &&& heads.0 != expected_seq ==> first == conflict(heads.0)
            &&& heads.0 == expected_seq ==> first == AppendActionView::RecheckHead(1, failure)
            &&& heads.1 != expected_seq ==> second == conflict(heads.1)
            &&& heads.1 == expected_seq ==> second == AppendActionView::RecheckHead(2, failure)
            &&& heads.2 != expected_seq ==> third == conflict(heads.2)
            &&& heads.2 == expected_seq ==> third == AppendActionView::Done(Err(failure))
        }),
{
}

/// A head row is read as the number in it. Only a missing row and a negative number are refused, as
/// failures of the backend.
pub proof fn head_rows_are_read_as_numbers(row: Option<i64>)
    ensures
        decoded_head(row) is Ok <==> row is Some && row->Some_0 >= 0,
        decoded_head(row) matches Ok(found) ==> found as int == row->Some_0 as int,
        decoded_head(row) matches Err(error) ==> error is Backend,
{
}

/// Inside the transaction a batch is written exactly when it is not empty, the head is the expected
/// one, and the batch is numbered on from it; its first event goes first. Everything else rolls
/// back and then ends the append, well only for an empty batch under the expected head.
pub proof fn only_fitting_batches_are_written(
    head: Result<u64, StoreErrorView>,
    events: Seq<EventView>,
    expected_seq: u64,
)
    ensures
        ({
            let next = after_head(head, events, expected_seq);
            let fits = head == Ok::<u64, StoreErrorView>(expected_seq) && events.len() > 0
                && forall|i: int|
                0 <= i < events.len() ==> (#[trigger] events[i]).envelope.seq == expected_seq + 1
                    + i;
            &&& fits ==> next == AppendActionView::Insert(0)
            &&& !fits ==> (next matches AppendActionView::Rollback(then) && then is Return)
            &&& next == AppendActionView::Rollback(AfterRollbackView::Return(Ok(()))) <==> head
                == Ok::<u64, StoreErrorView>(expected_seq) && events.len() == 0
            &&& head matches Err(error) ==> next == AppendActionView::Rollback(
                AfterRollbackView::Return(Err(error)),
            )
            &&& (head is Ok && head->Ok_0 != expected_seq) ==> next
                == AppendActionView::Rollback(
                AfterRollbackView::Return(
                    Err(
                        StoreErrorView::SequenceConflict {
                            expected: expected_seq,
                            found: head->Ok_0,
                        },
                    ),
                ),
            )
        }),
{
}

/// Events are inserted one behind the other, and the commit comes behind the last. A failed insert
/// rolls back with its own failure; the head is read again exactly where the backend failed.
pub proof fn inserts_lead_to_the_commit(
    i: int,
    len: int,
    inserted: Result<(), StoreErrorView>,
)
    requires
        0 <= i < len,
    ensures
        ({
            let next = after_insert(i, len, inserted);
            &&& inserted is Ok && i < len - 1 ==> next == AppendActionView::Insert(i + 1)
            &&& inserted is Ok && i == len - 1 ==> next == AppendActionView::Commit
            &&& inserted matches Err(error) ==> (next matches AppendActionView::Rollback(then)
                && if error is Backend {
                then == AfterRollbackView::Recheck(error)
            } else {
                then == AfterRollbackView::Return(Err(error))
            })
        }),
{
}

/// Reading the head again never turns a failed append into a successful one: it ends it with a
/// failure, or reads once more with the failure kept, and it reads at most [`RECHECKS`] times.
pub proof fn rechecks_never_succeed(
    reads: u8,
    failure: StoreErrorView,
    expected_seq: u64,
    head: Result<u64, StoreErrorView>,
)
    requires
        reads < RECHECKS,
    ensures
        ({
            let next = after_recheck(reads, failure, expected_seq, head);
            &&& next matches AppendActionView::Done(outcome) ==> outcome is Err
            &&& next is Done || next is RecheckHead
            &&& next matches AppendActionView::RecheckHead(more, kept) ==> more == reads + 1
                && more < RECHECKS && kept == failure
            &&& head matches Err(error) ==> next == AppendActionView::Done(Err(error))
        }),
{
}

/// An append succeeds only behind its commit, or behind the rollback of an empty batch under the expected
/// head. A begin or a commit that fails is told only once the head was read again, and a rollback ends
/// the append with its own failure, or with what was decided before it.
pub proof fn appends_succeed_only_when_committed(
    begun: Result<(), StoreErrorView>,
    committed: Result<(), Seq<char>>,
    then: AfterRollbackView,
    rolled_back: Result<(), StoreErrorView>,
)
    ensures
        begun is Ok ==> after_begin(begun) == AppendActionView::ReadHead,
        begun matches Err(failure) ==> after_begin(begun) == AppendActionView::RecheckHead(
            0,
            failure,
        ),
        after_commit(committed) == AppendActionView::Done(Ok(())) <==> committed is Ok,
        committed matches Err(message) ==> after_commit(committed)
            == AppendActionView::RecheckHead(0, StoreErrorView::Backend(message)),
        after_rollback(then, rolled_back) == AppendActionView::Done(Ok(())) <==> rolled_back is Ok
            && then == AfterRollbackView::Return(Ok(())),
        rolled_back matches Err(error) ==> after_rollback(then, rolled_back)
            == AppendActionView::Done(Err(error)),
        rolled_back is Ok ==> (then matches AfterRollbackView::Return(outcome) ==> after_rollback(
            then,
            rolled_back,
        ) == AppendActionView::Done(outcome)),
        rolled_back is Ok ==> (then matches AfterRollbackView::Recheck(failure) ==> after_rollback(
            then,
            rolled_back,
        ) == AppendActionView::RecheckHead(0, failure)),
{
    if let Ok(unit) = begun {
        assert(unit == ());
    }
    if let Ok(unit) = committed {
        assert(unit == ());
    }
    if let Ok(unit) = rolled_back {
        assert(unit == ());
    }
}

} // verus!
