//! Visibility rows behind changes of a workflow's state.

use vstd::prelude::*;
use vstd::string::*;

use crate::error::{EngineError, EngineErrorView};
use crate::event::{event_views, Event};
use crate::ids::{RunId, WorkflowId};
use crate::projection::{
    find_started, first_started, search_attributes_from_history, status_from_events,
};
use crate::recorder::{close_time_from_events, events_of_run, no_started_event, projected_row};
use crate::store::{failing, history_in, EventStore, StoreCall};
use crate::timestamp::Timestamp;
use crate::visibility::{VisibilityCall, VisibilityRecord, VisibilityStore};

verus! {

/// Workflow, type and start time of a history; a history without a `WorkflowStarted` is refused.
pub fn started_projection(history: &[Event]) -> (started: Result<
    (WorkflowId, String, Timestamp),
    EngineError,
>)
    ensures
        match first_started(event_views(history@)) {
            Some(event) => started matches Ok(s) && s.0 == event.envelope.workflow_id && s.1@
                == event.body->WorkflowStarted_workflow_type && s.2 == event.envelope.recorded_at,
            None => started matches Err(e) && e@ == (EngineErrorView::Load {
                reason: no_started_event(),
            }),
        },
{
    match find_started(history) {
        Some(Event::WorkflowStarted { envelope, workflow_type, .. }) => Ok(
            (envelope.workflow_id, workflow_type.clone(), envelope.recorded_at),
        ),
        _ => Err(
            EngineError::Load {
                reason: "workflow history has no WorkflowStarted event for visibility projection".to_owned(),
            },
        ),
    }
}

/// The visibility row that a history projects for a run.
pub fn visibility_record_from_history(history: &[Event], run_id: &RunId) -> (row: Result<
    VisibilityRecord,
    EngineError,
>)
    ensures
        match projected_row(event_views(history@), *run_id) {
            Some(view) => row matches Ok(record) && record@ == view,
            None => row matches Err(e) && e@ == (EngineErrorView::Load {
                reason: no_started_event(),
            }),
        },
{
    let own = events_of_run(history, run_id);
    match started_projection(own) {
        Ok((workflow_id, workflow_type, start_time)) => Ok(
            VisibilityRecord {
                workflow_id,
                run_id: *run_id,
                workflow_type,
                status: status_from_events(own),
                start_time,
                close_time: close_time_from_events(own),
                search_attributes: search_attributes_from_history(history),
            },
        ),
        Err(error) => Err(error),
    }
}

/// What rebuilding a visibility row returns.
pub open spec fn upsert_result<S: EventStore, W: VisibilityStore>(
    store: S,
    rows: W,
    workflow_id: WorkflowId,
    run_id: RunId,
) -> Result<(), EngineErrorView> {
    match failing(store.failures(), StoreCall::ReadHistory { workflow_id }) {
        Some(error) => Err(EngineErrorView::Store(error)),
        None => match projected_row(history_in(store.histories(), workflow_id), run_id) {
            None => Err(EngineErrorView::Load { reason: no_started_event() }),
            Some(row) => match failing(
                rows.visibility_failures(),
                VisibilityCall::Record { record: row },
            ) {
                Some(error) => Err(EngineErrorView::Store(error)),
                None => Ok(()),
            },
        },
    }
}

/// Rebuilds the visibility row of a run from the history of its workflow, and stores it.
pub fn upsert_workflow_visibility<S: EventStore, W: VisibilityStore>(
    event_store: &S,
    visibility_store: &mut W,
    workflow_id: &WorkflowId,
    run_id: &RunId,
) -> (outcome: Result<(), EngineError>)
    ensures
        match upsert_result(*event_store, *old(visibility_store), *workflow_id, *run_id) {
            Ok(()) => {
                let row = projected_row(
                    history_in(event_store.histories(), *workflow_id),
                    *run_id,
                )->Some_0;
                &&& outcome is Ok
                &&& final(visibility_store).rows() == old(visibility_store).rows().insert(
                    (row.workflow_id, *run_id),
                    row,
                )
            },
            Err(error) => {
                &&& outcome matches Err(e) && e@ == error
                &&& final(visibility_store).rows() == old(visibility_store).rows()
            },
        },
        final(visibility_store).visibility_failures() == old(
            visibility_store,
        ).visibility_failures(),
{
    let history = match event_store.read_history(workflow_id) {
        Ok(history) => history,
        Err(error) => {
            return Err(EngineError::Store(error));
        },
    };
    let record = match visibility_record_from_history(history.as_slice(), run_id) {
        Ok(record) => record,
        Err(error) => {
            return Err(error);
        },
    };
    match visibility_store.record_visibility(record) {
        Ok(()) => Ok(()),
        Err(error) => Err(EngineError::Store(error)),
    }
}

/// A row is rebuilt exactly when the history can be read, holds the start of the run, and the row that
/// it projects can be stored. Otherwise the failure of the store is passed on, or the missing start
/// is told.
pub proof fn rows_are_rebuilt_from_the_history<S: EventStore, W: VisibilityStore>(
    store: S,
    rows: W,
    workflow_id: WorkflowId,
    run_id: RunId,
)
    ensures
        ({
            let result = upsert_result(store, rows, workflow_id, run_id);
            let unread = failing(store.failures(), StoreCall::ReadHistory { workflow_id });
            let row = projected_row(history_in(store.histories(), workflow_id), run_id);
            let unkept = failing(
                rows.visibility_failures(),
                VisibilityCall::Record { record: row->Some_0 },
            );
            &&& result is Ok <==> unread is None && row is Some && unkept is None
            &&& unread is Some ==> result == Err::<(), EngineErrorView>(
                EngineErrorView::Store(unread->Some_0),
            )
            &&& unread is None && row is None ==> result == Err::<(), EngineErrorView>(
                EngineErrorView::Load {
                    reason: "workflow history has no WorkflowStarted event for visibility projection"@,
                },
            )
            &&& unread is None && row is Some && unkept is Some ==> result == Err::<
                (),
                EngineErrorView,
            >(EngineErrorView::Store(unkept->Some_0))
        }),
{
}

} // verus!
