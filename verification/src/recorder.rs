//! Recorder: the single writer of one workflow history.

use vstd::prelude::*;
use vstd::string::*;

use crate::attributes::{accepted, refusal, SearchAttributeSchema, SearchAttributes};
use crate::error::{durable_outcome, DurabilityError, DurabilityErrorView, StoreErrorView};
use crate::event::{event_views, Event, EventBody, EventEnvelope, EventView};
use crate::ids::{ActivityId, RunId, ScheduleId, TimerId, WorkflowId};
use crate::payload::{ActivityError, Payload, WorkflowError};
use crate::projection::{
    attributes_of, closed_at, find_started, first_start_is_found, first_started, is_terminal, lifecycle_status,
    search_attributes_from_history, status_follows_the_last_turn, status_from_events, status_of,
    terminal_recorded_at, turns_status, WorkflowStatus,
};
use crate::schedule::ScheduleConfig;
use crate::store::{
    accepted_appends_keep_histories_numbered, append_rule, appended, appended_events_are_read_back,
    batches_are_accepted_behind_the_expected_head, contiguous, failing, head_of, history_in,
    numbered_history_head, only_one_writer_wins, EventStore,
    StoreCall,
};
use crate::text::{decimal, decimal_text, joined, optional_text};
use crate::timestamp::Timestamp;
use crate::visibility::{VisibilityCall, VisibilityRecord, VisibilityStore, VisibilityView};

verus! {

/// Single append authority for one workflow history.
///
/// A recorder tracks the head of the history and computes every expected head from that tracker.
/// It never reads the head of the store after construction: a sequence conflict shows that there
/// is a second writer, and is surfaced.
#[derive(Debug)]
pub struct Recorder {
    workflow_id: WorkflowId,
    head: u64,
    visibility: Option<RunId>,
}

/// Mathematical value of a [`Recorder`].
pub struct RecorderView {
    /// Workflow that the recorder writes for.
    pub workflow_id: WorkflowId,
    /// Tracked head of the history.
    pub head: u64,
    /// The run whose visibility row is kept up to date, if any.
    pub run: Option<RunId>,
}

impl View for Recorder {
    type V = RecorderView;

    closed spec fn view(&self) -> RecorderView {
        RecorderView { workflow_id: self.workflow_id, head: self.head, run: self.visibility }
    }
}

/// The event that a recorder writes next.
pub open spec fn next_event(
    recorder: RecorderView,
    recorded_at: Timestamp,
    body: EventBody,
) -> EventView {
    EventView {
        envelope: EventEnvelope {
            seq: (recorder.head + 1) as u64,
            recorded_at,
            workflow_id: recorder.workflow_id,
        },
        body,
    }
}

/// The request that records an event.
pub open spec fn record_call(
    recorder: RecorderView,
    recorded_at: Timestamp,
    body: EventBody,
) -> StoreCall {
    StoreCall::Append {
        workflow_id: recorder.workflow_id,
        events: seq![next_event(recorder, recorded_at, body)],
        expected_seq: recorder.head,
    }
}

/// What comes of recording an event: nothing can be recorded behind the last sequence number, and
/// otherwise the store decides by the tracked head.
pub open spec fn record_decision(
    recorder: RecorderView,
    histories: Map<WorkflowId, Seq<EventView>>,
    failures: Map<StoreCall, StoreErrorView>,
    recorded_at: Timestamp,
    body: EventBody,
) -> Result<(), DurabilityErrorView> {
    if recorder.head == u64::MAX {
        Err(
            DurabilityErrorView::HistoryShape {
                reason: "sequence head overflow advancing "@ + decimal(recorder.head as nat)
                    + " by 1"@,
            },
        )
    } else {
        let refused = match failing(failures, record_call(recorder, recorded_at, body)) {
            Some(error) => Err(error),
            None => append_rule(
                history_in(histories, recorder.workflow_id),
                seq![next_event(recorder, recorded_at, body)],
                recorder.head,
            ),
        };
        match refused {
            Ok(()) => Ok(()),
            Err(error) => Err(DurabilityErrorView::Store(error)),
        }
    }
}

/// What comes of recording an event in a store.
pub open spec fn record_outcome<S: EventStore>(
    recorder: RecorderView,
    store: S,
    recorded_at: Timestamp,
    body: EventBody,
) -> Result<(), DurabilityErrorView> {
    record_decision(recorder, store.histories(), store.failures(), recorded_at, body)
}

/// The recorder after an attempt to record one event.
pub open spec fn advanced(
    recorder: RecorderView,
    decided: Result<(), DurabilityErrorView>,
) -> RecorderView {
    RecorderView {
        head: if decided is Ok {
            (recorder.head + 1) as u64
        } else {
            recorder.head
        },
        ..recorder
    }
}

/// The histories after an attempt to record one event.
pub open spec fn grown(
    recorder: RecorderView,
    histories: Map<WorkflowId, Seq<EventView>>,
    recorded_at: Timestamp,
    body: EventBody,
    decided: Result<(), DurabilityErrorView>,
) -> Map<WorkflowId, Seq<EventView>> {
    if decided is Ok {
        appended(histories, recorder.workflow_id, seq![next_event(recorder, recorded_at, body)])
    } else {
        histories
    }
}

/// The effect of recording an event: the tracked head and the history grow together, or neither
/// changes.
pub open spec fn record_effect<S: EventStore>(
    before: RecorderView,
    after: RecorderView,
    store_before: S,
    store_after: S,
    recorded_at: Timestamp,
    body: EventBody,
) -> bool {
    let decided = record_outcome(before, store_before, recorded_at, body);
    &&& after == advanced(before, decided)
    &&& store_after.histories() == grown(
        before,
        store_before.histories(),
        recorded_at,
        body,
        decided,
    )
    &&& store_after.timers() == store_before.timers()
    &&& store_after.failures() == store_before.failures()
}

/// An event was recorded: the outcome and the effect are those that the store decided on.
pub open spec fn recorded<S: EventStore>(
    before: RecorderView,
    after: RecorderView,
    store_before: S,
    store_after: S,
    recorded_at: Timestamp,
    body: EventBody,
    outcome: Result<(), DurabilityError>,
) -> bool {
    &&& durable_outcome(outcome) == record_outcome(before, store_before, recorded_at, body)
    &&& record_effect(before, after, store_before, store_after, recorded_at, body)
}

/// The recorder is in step with its history: the history is numbered from one, and the tracked head
/// is its length.
pub open spec fn in_step(
    recorder: RecorderView,
    histories: Map<WorkflowId, Seq<EventView>>,
) -> bool {
    &&& contiguous(history_in(histories, recorder.workflow_id), 0)
    &&& recorder.head == history_in(histories, recorder.workflow_id).len()
}

/// A recorder that is in step succeeds on a healthy store until the sequence numbers are exhausted,
/// and stays in step.
pub proof fn recorder_stays_in_step(
    recorder: RecorderView,
    histories: Map<WorkflowId, Seq<EventView>>,
    recorded_at: Timestamp,
    body: EventBody,
)
    requires
        in_step(recorder, histories),
        recorder.head < u64::MAX,
    ensures
        record_decision(recorder, histories, Map::empty(), recorded_at, body) is Ok,
        in_step(
            advanced(recorder, Ok(())),
            grown(recorder, histories, recorded_at, body, Ok(())),
        ),
        history_in(
            grown(recorder, histories, recorded_at, body, Ok(())),
            recorder.workflow_id,
        ) == history_in(histories, recorder.workflow_id).push(
            next_event(recorder, recorded_at, body),
        ),
{
    let history = history_in(histories, recorder.workflow_id);
    let events = seq![next_event(recorder, recorded_at, body)];
    numbered_history_head(history);
    assert(contiguous(events, recorder.head as int));
    assert(append_rule(history, events, recorder.head) is Ok);
    accepted_appends_keep_histories_numbered(history, events, recorder.head);
    appended_events_are_read_back(
        histories,
        recorder.workflow_id,
        recorder.workflow_id,
        events,
    );
    assert(history + events =~= history.push(next_event(recorder, recorded_at, body)));
}

/// Where recording fails nothing changes: neither the tracked head nor a history.
pub proof fn failed_recording_changes_nothing(
    recorder: RecorderView,
    histories: Map<WorkflowId, Seq<EventView>>,
    recorded_at: Timestamp,
    body: EventBody,
    error: DurabilityErrorView,
)
    ensures
        advanced(recorder, Err(error)) == recorder,
        grown(recorder, histories, recorded_at, body, Err(error)) == histories,
{
}

/// A second writer is found out: behind an event that another recorder wrote at the same head, a
/// recorder is answered with a sequence conflict.
pub proof fn second_writer_is_found_out(
    writer: RecorderView,
    stale: RecorderView,
    histories: Map<WorkflowId, Seq<EventView>>,
    at: Timestamp,
    body: EventBody,
    stale_at: Timestamp,
    stale_body: EventBody,
)
    requires
        in_step(writer, histories),
        writer.head < u64::MAX,
        stale.workflow_id == writer.workflow_id,
        stale.head == writer.head,
    ensures
        record_decision(
            stale,
            grown(writer, histories, at, body, Ok(())),
            Map::empty(),
            stale_at,
            stale_body,
        ) == Err::<(), DurabilityErrorView>(
            DurabilityErrorView::Store(
                StoreErrorView::SequenceConflict {
                    expected: stale.head,
                    found: (stale.head + 1) as u64,
                },
            ),
        ),
{
    let history = history_in(histories, writer.workflow_id);
    let events = seq![next_event(writer, at, body)];
    numbered_history_head(history);
    assert(contiguous(events, writer.head as int));
    appended_events_are_read_back(histories, writer.workflow_id, writer.workflow_id, events);
    only_one_writer_wins(
        history,
        events,
        seq![next_event(stale, stale_at, stale_body)],
        stale.head,
    );
}

/// Place from which on a history first starts the run; behind the end if it does not.
pub open spec fn own_start(history: Seq<EventView>, run_id: RunId, from: int) -> int
    decreases history.len() - from,
{
    if from < 0 || from >= history.len() {
        history.len() as int
    } else if history[from].body matches EventBody::WorkflowStarted { run_id: started, .. }
        && started == run_id {
        from
    } else {
        own_start(history, run_id, from + 1)
    }
}

/// Place from which on a history next starts any run; behind the end if it does not.
pub open spec fn next_start(history: Seq<EventView>, from: int) -> int
    decreases history.len() - from,
{
    if from < 0 || from >= history.len() {
        history.len() as int
    } else if history[from].body is WorkflowStarted {
        from
    } else {
        next_start(history, from + 1)
    }
}

/// The events of one run: from its start up to the start of the next run. A history that does not
/// start the run is taken as a whole.
pub open spec fn own_events(history: Seq<EventView>, run_id: RunId) -> Seq<EventView> {
    let start = own_start(history, run_id, 0);
    if start < history.len() {
        history.subrange(start, next_start(history, start + 1))
    } else {
        history
    }
}

/// When a run closed, if it is terminal.
pub open spec fn close_of(events: Seq<EventView>) -> Option<Timestamp> {
    if status_of(events) == WorkflowStatus::Running {
        None
    } else {
        closed_at(events)
    }
}

/// The visibility row that a history projects for a run: type, start, status and end are those of
/// the run. There is none without a `WorkflowStarted`.
pub open spec fn projected_row(history: Seq<EventView>, run_id: RunId) -> Option<VisibilityView> {
    let own = own_events(history, run_id);
    match first_started(own) {
        Some(started) => Some(
            VisibilityView {
                workflow_id: started.envelope.workflow_id,
                run_id,
                workflow_type: started.body->WorkflowStarted_workflow_type,
                status: status_of(own),
                start_time: started.envelope.recorded_at,
                close_time: close_of(own),
                search_attributes: attributes_of(history),
            },
        ),
        None => None,
    }
}

/// A run that a history started and that was neither ended nor followed by another run is listed as
/// running since its own start, without a close time, whatever runs came before it.
pub proof fn latest_run_is_listed_by_its_own_start(
    earlier: Seq<EventView>,
    start: EventView,
    run_id: RunId,
)
    requires
        start.body matches EventBody::WorkflowStarted { run_id: started, .. } && started == run_id,
        forall|i: int|
            0 <= i < earlier.len() ==> !((#[trigger] earlier[i]).body matches
                EventBody::WorkflowStarted { run_id: started, .. } && started == run_id),
    ensures
        projected_row(earlier.push(start), run_id) == Some(
            VisibilityView {
                workflow_id: start.envelope.workflow_id,
                run_id,
                workflow_type: start.body->WorkflowStarted_workflow_type,
                status: WorkflowStatus::Running,
                start_time: start.envelope.recorded_at,
                close_time: None,
                search_attributes: attributes_of(earlier.push(start)),
            },
        ),
{
    let history = earlier.push(start);
    own_start_is(history, run_id, 0, earlier.len() as int);
    let own = own_events(history, run_id);
    assert(own =~= seq![start]);
    assert(own[0] == start);
    assert(own.last() == start);
}

/// A run whose history is its start and its end is listed with both.
pub proof fn ended_run_is_listed_with_its_end(start: EventView, end: EventView, run_id: RunId)
    requires
        start.body matches EventBody::WorkflowStarted { run_id: started, .. } && started == run_id,
        is_terminal(end.body),
    ensures
        projected_row(seq![start, end], run_id) == Some(
            VisibilityView {
                workflow_id: start.envelope.workflow_id,
                run_id,
                workflow_type: start.body->WorkflowStarted_workflow_type,
                status: lifecycle_status(end.body)->Some_0,
                start_time: start.envelope.recorded_at,
                close_time: Some(end.envelope.recorded_at),
                search_attributes: attributes_of(seq![start, end]),
            },
        ),
{
    let history = seq![start, end];
    own_start_is(history, run_id, 0, 0);
    next_start_is(history, 1, 2);
    let own = own_events(history, run_id);
    assert(own =~= history);
    assert(history[0] == start);
    assert(history.last() == end);
}

proof fn own_start_is(history: Seq<EventView>, run_id: RunId, from: int, place: int)
    requires
        0 <= from <= place <= history.len(),
        forall|i: int|
            from <= i < place ==> !((#[trigger] history[i]).body matches
                EventBody::WorkflowStarted { run_id: started, .. } && started == run_id),
        place < history.len() ==> (history[place].body matches EventBody::WorkflowStarted {
            run_id: started,
            ..
        } && started == run_id),
    ensures
        own_start(history, run_id, from) == place,
    decreases place - from,
{
    if from < place {
        own_start_is(history, run_id, from + 1, place);
    }
}

proof fn next_start_is(history: Seq<EventView>, from: int, place: int)
    requires
        0 <= from <= place <= history.len(),
        forall|i: int| from <= i < place ==> !((#[trigger] history[i]).body is WorkflowStarted),
        place < history.len() ==> history[place].body is WorkflowStarted,
    ensures
        next_start(history, from) == place,
    decreases place - from,
{
    if from < place {
        next_start_is(history, from + 1, place);
    }
}

/// The events of one run of a history.
pub fn events_of_run<'a>(history: &'a [Event], run_id: &RunId) -> (own: &'a [Event])
    ensures
        event_views(own@) == own_events(event_views(history@), *run_id),
{
    let ghost views = event_views(history@);
    let mut start: usize = 0;
    while start < history.len()
        invariant
            start <= history.len(),
            views == event_views(history@),
            forall|i: int|
                0 <= i < start ==> !((#[trigger] views[i]).body matches
                    EventBody::WorkflowStarted { run_id: started, .. } && started == *run_id),
        ensures
            start <= history.len(),
            start < history.len() ==> (views[start as int].body matches
                EventBody::WorkflowStarted { run_id: started, .. } && started == *run_id),
        decreases history.len() - start,
    {
        assert(views[start as int] == history@[start as int]@);
        let found = match &history[start] {
            Event::WorkflowStarted { run_id: started, .. } => *started == *run_id,
            _ => false,
        };
        if found {
            break;
        }
        start += 1;
    }
    proof {
        own_start_is(views, *run_id, 0, start as int);
    }
    if start == history.len() {
        return history;
    }
    let mut end: usize = start + 1;
    while end < history.len()
        invariant
            start < end <= history.len(),
            views == event_views(history@),
            forall|i: int| start < i < end ==> !((#[trigger] views[i]).body is WorkflowStarted),
        ensures
            start < end <= history.len(),
            end < history.len() ==> views[end as int].body is WorkflowStarted,
        decreases history.len() - end,
    {
        assert(views[end as int] == history@[end as int]@);
        let found = match &history[end] {
            Event::WorkflowStarted { .. } => true,
            _ => false,
        };
        if found {
            break;
        }
        end += 1;
    }
    proof {
        next_start_is(views, start + 1, end as int);
    }
    let own = vstd::slice::slice_subrange(history, start, end);
    assert(event_views(own@) =~= views.subrange(start as int, end as int));
    own
}

/// When a run closed, if it is terminal.
pub fn close_time_from_events(events: &[Event]) -> (close: Option<Timestamp>)
    ensures
        close == close_of(event_views(events@)),
{
    if status_from_events(events) == WorkflowStatus::Running {
        None
    } else {
        terminal_recorded_at(events)
    }
}

/// The reason given where a history projects no visibility row.
pub open spec fn no_started_event() -> Seq<char> {
    "workflow history has no WorkflowStarted event for visibility projection"@
}

/// The row that a history projects for a run, if it has a `WorkflowStarted`.
pub fn project_row(history: &[Event], run_id: RunId) -> (row: Option<VisibilityRecord>)
    ensures
        match projected_row(event_views(history@), run_id) {
            Some(view) => row matches Some(record) && record@ == view,
            None => row is None,
        },
{
    let own = events_of_run(history, &run_id);
    match find_started(own) {
        Some(Event::WorkflowStarted { envelope, workflow_type, .. }) => Some(
            VisibilityRecord {
                workflow_id: envelope.workflow_id,
                run_id,
                workflow_type: workflow_type.clone(),
                status: status_from_events(own),
                start_time: envelope.recorded_at,
                close_time: close_time_from_events(own),
                search_attributes: search_attributes_from_history(history),
            },
        ),
        _ => None,
    }
}

/// The row that a history projects for a run; a history without a `WorkflowStarted` is refused.
pub fn visibility_record_from_history(history: &[Event], run_id: &RunId) -> (row: Result<
    VisibilityRecord,
    DurabilityError,
>)
    ensures
        match projected_row(event_views(history@), *run_id) {
            Some(view) => row matches Ok(record) && record@ == view,
            None => row matches Err(error) && error@ == (DurabilityErrorView::HistoryShape {
                reason: no_started_event(),
            }),
        },
{
    match project_row(history, *run_id) {
        Some(row) => Ok(row),
        None => Err(
            DurabilityError::HistoryShape {
                reason: "workflow history has no WorkflowStarted event for visibility projection".to_owned(),
            },
        ),
    }
}

/// What comes of bringing the visibility row of a run up to date.
pub open spec fn upsert_outcome<S: EventStore, W: VisibilityStore>(
    recorder: RecorderView,
    store: S,
    rows: W,
) -> Result<(), DurabilityErrorView> {
    match recorder.run {
        None => Ok(()),
        Some(run) => match failing(
            store.failures(),
            StoreCall::ReadHistory { workflow_id: recorder.workflow_id },
        ) {
            Some(error) => Err(DurabilityErrorView::Store(error)),
            None => match projected_row(
                history_in(store.histories(), recorder.workflow_id),
                run,
            ) {
                None => Err(DurabilityErrorView::HistoryShape { reason: no_started_event() }),
                Some(row) => match failing(
                    rows.visibility_failures(),
                    VisibilityCall::Record { record: row },
                ) {
                    Some(error) => Err(DurabilityErrorView::Store(error)),
                    None => Ok(()),
                },
            },
        },
    }
}

/// The effect of bringing the visibility row of a run up to date.
pub open spec fn upserted<S: EventStore, W: VisibilityStore>(
    recorder: RecorderView,
    store: S,
    before: W,
    after: W,
) -> bool {
    &&& after.visibility_failures() == before.visibility_failures()
    &&& after.rows() == (match recorder.run {
        Some(run) if upsert_outcome(recorder, store, before) is Ok => {
            let row = projected_row(
                history_in(store.histories(), recorder.workflow_id),
                run,
            )->Some_0;
            before.rows().insert((row.workflow_id, run), row)
        },
        _ => before.rows(),
    })
}

impl Recorder {
    /// A recorder for a workflow without history.
    pub fn new(workflow_id: WorkflowId) -> (recorder: Self)
        ensures
            recorder@ == (RecorderView { workflow_id, head: 0, run: None }),
    {
        Recorder::resume_at(workflow_id, 0)
    }

    /// A recorder for a workflow whose history has the given head.
    pub fn resume_at(workflow_id: WorkflowId, head: u64) -> (recorder: Self)
        ensures
            recorder@ == (RecorderView { workflow_id, head, run: None }),
    {
        Recorder { workflow_id, head, visibility: None }
    }

    /// Keeps the visibility row of `run_id` up to date behind events that change it.
    pub fn with_visibility(self, run_id: RunId) -> (recorder: Self)
        ensures
            recorder@ == (RecorderView { run: Some(run_id), ..self@ }),
    {
        Recorder { workflow_id: self.workflow_id, head: self.head, visibility: Some(run_id) }
    }

    /// Workflow that the recorder writes for.
    pub fn workflow_id(&self) -> (workflow_id: &WorkflowId)
        ensures
            *workflow_id == self@.workflow_id,
    {
        &self.workflow_id
    }

    /// Tracked head of the history.
    pub fn current_head(&self) -> (head: u64)
        ensures
            head == self@.head,
    {
        self.head
    }

    /// Reads the history of the workflow.
    pub fn read_history<S: EventStore>(&self, store: &S) -> (history: Result<
        Vec<Event>,
        DurabilityError,
    >)
        ensures
            match failing(
                store.failures(),
                StoreCall::ReadHistory { workflow_id: self@.workflow_id },
            ) {
                Some(error) => history matches Err(e) && e@ == DurabilityErrorView::Store(error),
                None => history matches Ok(events) && event_views(events@) == history_in(
                    store.histories(),
                    self@.workflow_id,
                ),
            },
    {
        match store.read_history(&self.workflow_id) {
            Ok(events) => Ok(events),
            Err(error) => Err(DurabilityError::Store(error)),
        }
    }

    fn next_envelope(&self, recorded_at: Timestamp) -> (envelope: Result<
        EventEnvelope,
        DurabilityError,
    >)
        ensures
            envelope is Ok <==> self@.head < u64::MAX,
            envelope matches Ok(e) ==> e == (EventEnvelope {
                seq: (self@.head + 1) as u64,
                recorded_at,
                workflow_id: self@.workflow_id,
            }),
            envelope matches Err(error) ==> error@ == (DurabilityErrorView::HistoryShape {
                reason: "sequence head overflow advancing "@ + decimal(self@.head as nat)
                    + " by 1"@,
            }),
    {
        if self.head == u64::MAX {
            let mut reason = joined(
                "sequence head overflow advancing ",
                decimal_text(self.head as u128).as_str(),
            );
            reason.append(" by 1");
            return Err(DurabilityError::HistoryShape { reason });
        }
        Ok(EventEnvelope { seq: self.head + 1, recorded_at, workflow_id: self.workflow_id })
    }

    fn append_one<S: EventStore>(&mut self, store: &mut S, event: Event) -> (outcome: Result<
        (),
        DurabilityError,
    >)
        requires
            old(self)@.head < u64::MAX,
            event@.envelope == (EventEnvelope {
                seq: (old(self)@.head + 1) as u64,
                recorded_at: event@.envelope.recorded_at,
                workflow_id: old(self)@.workflow_id,
            }),
        ensures
            recorded(
                old(self)@,
                final(self)@,
                *old(store),
                *final(store),
                event@.envelope.recorded_at,
                event@.body,
                outcome,
            ),
    {
        let ghost written = event@;
        let mut batch: Vec<Event> = Vec::new();
        batch.push(event);
        proof {
            assert(event_views(batch@) =~= seq![written]);
            assert(written == next_event(
                old(self)@,
                written.envelope.recorded_at,
                written.body,
            ));
        }
        match store.append(&self.workflow_id, batch.as_slice(), self.head) {
            Ok(()) => {
                self.head = self.head + 1;
                Ok(())
            },
            Err(error) => Err(DurabilityError::Store(error)),
        }
    }

    /// Brings the visibility row of the tracked run up to date.
    pub fn upsert_visibility_projection<S: EventStore, W: VisibilityStore>(
        &self,
        store: &S,
        rows: &mut W,
    ) -> (outcome: Result<(), DurabilityError>)
        ensures
            durable_outcome(outcome) == upsert_outcome(self@, *store, *old(rows)),
            upserted(self@, *store, *old(rows), *final(rows)),
    {
        let run_id = match &self.visibility {
            Some(run_id) => run_id,
            None => {
                return Ok(());
            },
        };
        let history = match store.read_history(&self.workflow_id) {
            Ok(history) => history,
            Err(error) => {
                return Err(DurabilityError::Store(error));
            },
        };
        let row = match visibility_record_from_history(history.as_slice(), run_id) {
            Ok(row) => row,
            Err(error) => {
                return Err(error);
            },
        };
        match rows.record_visibility(row) {
            Ok(()) => Ok(()),
            Err(error) => Err(DurabilityError::Store(error)),
        }
    }

    /// Records the start of a run, and leaves its visibility row to the caller.
    pub(crate) fn append_workflow_started<S: EventStore>(
        &mut self,
        store: &mut S,
        recorded_at: Timestamp,
        workflow_type: String,
        input: Payload,
        run_id: RunId,
        parent_run_id: Option<RunId>,
    ) -> (outcome: Result<(), DurabilityError>)
        ensures
            recorded(
                old(self)@,
                final(self)@,
                *old(store),
                *final(store),
                recorded_at,
                EventBody::WorkflowStarted {
                    workflow_type: workflow_type@,
                    input: input@,
                    run_id,
                    parent_run_id,
                },
                outcome,
            ),
    {
        let envelope = self.next_envelope(recorded_at)?;
        self.append_one(
            store,
            Event::WorkflowStarted { envelope, workflow_type, input, run_id, parent_run_id },
        )
    }

    /// Records the start of a run, and brings the visibility row up to date.
    pub fn record_workflow_started<S: EventStore, W: VisibilityStore>(
        &mut self,
        store: &mut S,
        rows: &mut W,
        recorded_at: Timestamp,
        workflow_type: String,
        input: Payload,
        run_id: RunId,
    ) -> (outcome: Result<(), DurabilityError>)
        ensures
            recorded_and_projected(
                old(self)@,
                final(self)@,
                (*old(store), *final(store)),
                (*old(rows), *final(rows)),
                recorded_at,
                EventBody::WorkflowStarted {
                    workflow_type: workflow_type@,
                    input: input@,
                    run_id,
                    parent_run_id: None,
                },
                outcome,
            ),
    {
        self.record_workflow_started_with_parent(
            store,
            rows,
            recorded_at,
            workflow_type,
            input,
            run_id,
            None,
        )
    }

    /// Records the start of a run that may continue an earlier one, and brings the visibility row up
    /// to date.
    pub fn record_workflow_started_with_parent<S: EventStore, W: VisibilityStore>(
        &mut self,
        store: &mut S,
        rows: &mut W,
        recorded_at: Timestamp,
        workflow_type: String,
        input: Payload,
        run_id: RunId,
        parent_run_id: Option<RunId>,
    ) -> (outcome: Result<(), DurabilityError>)
        ensures
            recorded_and_projected(
                old(self)@,
                final(self)@,
                (*old(store), *final(store)),
                (*old(rows), *final(rows)),
                recorded_at,
                EventBody::WorkflowStarted {
                    workflow_type: workflow_type@,
                    input: input@,
                    run_id,
                    parent_run_id,
                },
                outcome,
            ),
    {
        self.append_workflow_started(
            store,
            recorded_at,
            workflow_type,
            input,
            run_id,
            parent_run_id,
        )?;
        self.upsert_visibility_projection(&*store, rows)
    }

    /// Records that the run ends so that another continues it, and brings the visibility row up to
    /// date.
    pub fn record_workflow_continued_as_new<S: EventStore, W: VisibilityStore>(
        &mut self,
        store: &mut S,
        rows: &mut W,
        recorded_at: Timestamp,
        input: Payload,
        workflow_type: Option<String>,
        parent_run_id: RunId,
    ) -> (outcome: Result<(), DurabilityError>)
        ensures
            recorded_and_projected(
                old(self)@,
                final(self)@,
                (*old(store), *final(store)),
                (*old(rows), *final(rows)),
                recorded_at,
                EventBody::WorkflowContinuedAsNew {
                    input: input@,
                    workflow_type: optional_text(workflow_type),
                    parent_run_id,
                },
                outcome,
            ),
    {
        let envelope = self.next_envelope(recorded_at)?;
        self.append_one(store, Event::WorkflowContinuedAsNew { envelope, input, workflow_type, parent_run_id })?;
        self.upsert_visibility_projection(&*store, rows)
    }

    /// Records an update of search attributes that fits `schema`, and brings the visibility row up
    /// to date. Attributes that do not fit are refused before anything is written.
    pub fn record_search_attributes_updated<S: EventStore, W: VisibilityStore>(
        &mut self,
        store: &mut S,
        rows: &mut W,
        recorded_at: Timestamp,
        attributes: SearchAttributes,
        schema: &SearchAttributeSchema,
    ) -> (outcome: Result<(), DurabilityError>)
        ensures
            accepted(attributes@, schema@) ==> recorded_and_projected(
                old(self)@,
                final(self)@,
                (*old(store), *final(store)),
                (*old(rows), *final(rows)),
                recorded_at,
                EventBody::SearchAttributesUpdated {
                    workflow_id: old(self)@.workflow_id,
                    attributes: attributes@,
                },
                outcome,
            ),
            !accepted(attributes@, schema@) ==> {
                &&& outcome matches Err(DurabilityError::SearchAttribute(error)) && exists|
                    name: Seq<char>,
                | #[trigger]
                    attributes@.contains_key(name) && refusal(schema@, name, attributes@[name])
                        == Some(error@)
                &&& final(self)@ == old(self)@
                &&& *final(store) == *old(store)
                &&& *final(rows) == *old(rows)
            },
    {
        match attributes.check(schema) {
            Ok(()) => {},
            Err(error) => {
                return Err(DurabilityError::SearchAttribute(error));
            },
        }
        let workflow_id = self.workflow_id;
        let envelope = self.next_envelope(recorded_at)?;
        self.append_one(store, Event::SearchAttributesUpdated { envelope, workflow_id, attributes })?;
        self.upsert_visibility_projection(&*store, rows)
    }

    /// Records the creation of a schedule.
    pub fn record_schedule_created<S: EventStore>(
        &mut self,
        store: &mut S,
        recorded_at: Timestamp,
        schedule_id: ScheduleId,
        config: ScheduleConfig,
    ) -> (outcome: Result<(), DurabilityError>)
        ensures
            recorded(
                old(self)@,
                final(self)@,
                *old(store),
                *final(store),
                recorded_at,
                EventBody::ScheduleCreated { schedule_id, config: config@ },
                outcome,
            ),
    {
        let envelope = self.next_envelope(recorded_at)?;
        self.append_one(store, Event::ScheduleCreated { envelope, schedule_id, config })
    }

    /// Records a new configuration of a schedule.
    pub fn record_schedule_updated<S: EventStore>(
        &mut self,
        store: &mut S,
        recorded_at: Timestamp,
        schedule_id: ScheduleId,
        config: ScheduleConfig,
    ) -> (outcome: Result<(), DurabilityError>)
        ensures
            recorded(
                old(self)@,
                final(self)@,
                *old(store),
                *final(store),
                recorded_at,
                EventBody::ScheduleUpdated { schedule_id, config: config@ },
                outcome,
            ),
    {
        let envelope = self.next_envelope(recorded_at)?;
        self.append_one(store, Event::ScheduleUpdated { envelope, schedule_id, config })
    }

    /// Records that a schedule was paused.
    pub fn record_schedule_paused<S: EventStore>(
        &mut self,
        store: &mut S,
        recorded_at: Timestamp,
        schedule_id: ScheduleId,
    ) -> (outcome: Result<(), DurabilityError>)
        ensures
            recorded(
                old(self)@,
                final(self)@,
                *old(store),
                *final(store),
                recorded_at,
                EventBody::SchedulePaused { schedule_id },
                outcome,
            ),
    {
        let envelope = self.next_envelope(recorded_at)?;
        self.append_one(store, Event::SchedulePaused { envelope, schedule_id })
    }

    /// Records that a schedule was resumed.
    pub fn record_schedule_resumed<S: EventStore>(
        &mut self,
        store: &mut S,
        recorded_at: Timestamp,
        schedule_id: ScheduleId,
    ) -> (outcome: Result<(), DurabilityError>)
        ensures
            recorded(
                old(self)@,
                final(self)@,
                *old(store),
                *final(store),
                recorded_at,
                EventBody::ScheduleResumed { schedule_id },
                outcome,
            ),
    {
        let envelope = self.next_envelope(recorded_at)?;
        self.append_one(store, Event::ScheduleResumed { envelope, schedule_id })
    }

    /// Records that a schedule was deleted.
    pub fn record_schedule_deleted<S: EventStore>(
        &mut self,
        store: &mut S,
        recorded_at: Timestamp,
        schedule_id: ScheduleId,
    ) -> (outcome: Result<(), DurabilityError>)
        ensures
            recorded(
                old(self)@,
                final(self)@,
                *old(store),
                *final(store),
                recorded_at,
                EventBody::ScheduleDeleted { schedule_id },
                outcome,
            ),
    {
        let envelope = self.next_envelope(recorded_at)?;
        self.append_one(store, Event::ScheduleDeleted { envelope, schedule_id })
    }

    /// Records a workflow execution that a schedule started.
    pub fn record_schedule_triggered<S: EventStore>(
        &mut self,
        store: &mut S,
        recorded_at: Timestamp,
        schedule_id: ScheduleId,
        workflow_id: WorkflowId,
        run_id: RunId,
    ) -> (outcome: Result<(), DurabilityError>)
        ensures
            recorded(
                old(self)@,
                final(self)@,
                *old(store),
                *final(store),
                recorded_at,
                EventBody::ScheduleTriggered { schedule_id, workflow_id, run_id },
                outcome,
            ),
    {
        let envelope = self.next_envelope(recorded_at)?;
        self.append_one(store, Event::ScheduleTriggered { envelope, schedule_id, workflow_id, run_id })
    }

    /// Records that the workflow completed, and brings the visibility row up to date.
    pub fn record_workflow_completed<S: EventStore, W: VisibilityStore>(
        &mut self,
        store: &mut S,
        rows: &mut W,
        recorded_at: Timestamp,
        result: Payload,
    ) -> (outcome: Result<(), DurabilityError>)
        ensures
            recorded_and_projected(
                old(self)@,
                final(self)@,
                (*old(store), *final(store)),
                (*old(rows), *final(rows)),
                recorded_at,
                EventBody::WorkflowCompleted { result: result@ },
                outcome,
            ),
    {
        let envelope = self.next_envelope(recorded_at)?;
        self.append_one(store, Event::WorkflowCompleted { envelope, result })?;
        self.upsert_visibility_projection(&*store, rows)
    }

    /// Records that the workflow failed, and brings the visibility row up to date.
    pub fn record_workflow_failed<S: EventStore, W: VisibilityStore>(
        &mut self,
        store: &mut S,
        rows: &mut W,
        recorded_at: Timestamp,
        error: WorkflowError,
    ) -> (outcome: Result<(), DurabilityError>)
        ensures
            recorded_and_projected(
                old(self)@,
                final(self)@,
                (*old(store), *final(store)),
                (*old(rows), *final(rows)),
                recorded_at,
                EventBody::WorkflowFailed { error: error@ },
                outcome,
            ),
    {
        let envelope = self.next_envelope(recorded_at)?;
        self.append_one(store, Event::WorkflowFailed { envelope, error })?;
        self.upsert_visibility_projection(&*store, rows)
    }

    /// Records that the workflow was cancelled, and brings the visibility row up to date.
    pub fn record_workflow_cancelled<S: EventStore, W: VisibilityStore>(
        &mut self,
        store: &mut S,
        rows: &mut W,
        recorded_at: Timestamp,
        reason: String,
    ) -> (outcome: Result<(), DurabilityError>)
        ensures
            recorded_and_projected(
                old(self)@,
                final(self)@,
                (*old(store), *final(store)),
                (*old(rows), *final(rows)),
                recorded_at,
                EventBody::WorkflowCancelled { reason: reason@ },
                outcome,
            ),
    {
        let envelope = self.next_envelope(recorded_at)?;
        self.append_one(store, Event::WorkflowCancelled { envelope, reason })?;
        self.upsert_visibility_projection(&*store, rows)
    }

    /// Records that an activity was scheduled.
    pub fn record_activity_scheduled<S: EventStore>(
        &mut self,
        store: &mut S,
        recorded_at: Timestamp,
        activity_id: ActivityId,
        activity_type: String,
        input: Payload,
    ) -> (outcome: Result<(), DurabilityError>)
        ensures
            recorded(
                old(self)@,
                final(self)@,
                *old(store),
                *final(store),
                recorded_at,
                EventBody::ActivityScheduled { activity_id, activity_type: activity_type@, input: input@ },
                outcome,
            ),
    {
        let envelope = self.next_envelope(recorded_at)?;
        self.append_one(store, Event::ActivityScheduled { envelope, activity_id, activity_type, input })
    }

    /// Records that an activity started.
    pub fn record_activity_started<S: EventStore>(
        &mut self,
        store: &mut S,
        recorded_at: Timestamp,
        activity_id: ActivityId,
    ) -> (outcome: Result<(), DurabilityError>)
        ensures
            recorded(
                old(self)@,
                final(self)@,
                *old(store),
                *final(store),
                recorded_at,
                EventBody::ActivityStarted { activity_id },
                outcome,
            ),
    {
        let envelope = self.next_envelope(recorded_at)?;
        self.append_one(store, Event::ActivityStarted { envelope, activity_id })
    }

    /// Records the result of an activity.
    pub fn record_activity_completed<S: EventStore>(
        &mut self,
        store: &mut S,
        recorded_at: Timestamp,
        activity_id: ActivityId,
        result: Payload,
    ) -> (outcome: Result<(), DurabilityError>)
        ensures
            recorded(
                old(self)@,
                final(self)@,
                *old(store),
                *final(store),
                recorded_at,
                EventBody::ActivityCompleted { activity_id, result: result@ },
                outcome,
            ),
    {
        let envelope = self.next_envelope(recorded_at)?;
        self.append_one(store, Event::ActivityCompleted { envelope, activity_id, result })
    }

    /// Records a failed attempt of an activity.
    pub fn record_activity_failed<S: EventStore>(
        &mut self,
        store: &mut S,
        recorded_at: Timestamp,
        activity_id: ActivityId,
        error: ActivityError,
        attempt: u32,
    ) -> (outcome: Result<(), DurabilityError>)
        ensures
            recorded(
                old(self)@,
                final(self)@,
                *old(store),
                *final(store),
                recorded_at,
                EventBody::ActivityFailed { activity_id, error: error@, attempt },
                outcome,
            ),
    {
        let envelope = self.next_envelope(recorded_at)?;
        self.append_one(store, Event::ActivityFailed { envelope, activity_id, error, attempt })
    }

    /// Records that an activity was cancelled.
    pub fn record_activity_cancelled<S: EventStore>(
        &mut self,
        store: &mut S,
        recorded_at: Timestamp,
        activity_id: ActivityId,
    ) -> (outcome: Result<(), DurabilityError>)
        ensures
            recorded(
                old(self)@,
                final(self)@,
                *old(store),
                *final(store),
                recorded_at,
                EventBody::ActivityCancelled { activity_id },
                outcome,
            ),
    {
        let envelope = self.next_envelope(recorded_at)?;
        self.append_one(store, Event::ActivityCancelled { envelope, activity_id })
    }

    /// Records that a timer was scheduled.
    pub fn record_timer_started<S: EventStore>(
        &mut self,
        store: &mut S,
        recorded_at: Timestamp,
        timer_id: TimerId,
        fire_at: Timestamp,
    ) -> (outcome: Result<(), DurabilityError>)
        ensures
            recorded(
                old(self)@,
                final(self)@,
                *old(store),
                *final(store),
                recorded_at,
                EventBody::TimerStarted { timer_id: timer_id@, fire_at },
                outcome,
            ),
    {
        let envelope = self.next_envelope(recorded_at)?;
        self.append_one(store, Event::TimerStarted { envelope, timer_id, fire_at })
    }

    /// Records that a timer fired.
    pub fn record_timer_fired<S: EventStore>(
        &mut self,
        store: &mut S,
        recorded_at: Timestamp,
        timer_id: TimerId,
    ) -> (outcome: Result<(), DurabilityError>)
        ensures
            recorded(
                old(self)@,
                final(self)@,
                *old(store),
                *final(store),
                recorded_at,
                EventBody::TimerFired { timer_id: timer_id@ },
                outcome,
            ),
    {
        let envelope = self.next_envelope(recorded_at)?;
        self.append_one(store, Event::TimerFired { envelope, timer_id })
    }

    /// Records that a timer was cancelled.
    pub fn record_timer_cancelled<S: EventStore>(
        &mut self,
        store: &mut S,
        recorded_at: Timestamp,
        timer_id: TimerId,
    ) -> (outcome: Result<(), DurabilityError>)
        ensures
            recorded(
                old(self)@,
                final(self)@,
                *old(store),
                *final(store),
                recorded_at,
                EventBody::TimerCancelled { timer_id: timer_id@ },
                outcome,
            ),
    {
        let envelope = self.next_envelope(recorded_at)?;
        self.append_one(store, Event::TimerCancelled { envelope, timer_id })
    }

    /// Records the delivery of a signal.
    pub fn record_signal_received<S: EventStore>(
        &mut self,
        store: &mut S,
        recorded_at: Timestamp,
        name: String,
        payload: Payload,
    ) -> (outcome: Result<(), DurabilityError>)
        ensures
            recorded(
                old(self)@,
                final(self)@,
                *old(store),
                *final(store),
                recorded_at,
                EventBody::SignalReceived { name: name@, payload: payload@ },
                outcome,
            ),
    {
        let envelope = self.next_envelope(recorded_at)?;
        self.append_one(store, Event::SignalReceived { envelope, name, payload })
    }

    /// Records a signal that the workflow sent.
    pub fn record_signal_sent<S: EventStore>(
        &mut self,
        store: &mut S,
        recorded_at: Timestamp,
        target_workflow_id: WorkflowId,
        name: String,
        payload: Payload,
    ) -> (outcome: Result<(), DurabilityError>)
        ensures
            recorded(
                old(self)@,
                final(self)@,
                *old(store),
                *final(store),
                recorded_at,
                EventBody::SignalSent { target_workflow_id, name: name@, payload: payload@ },
                outcome,
            ),
    {
        let envelope = self.next_envelope(recorded_at)?;
        self.append_one(store, Event::SignalSent { envelope, target_workflow_id, name, payload })
    }

    /// Records that a child workflow started.
    pub fn record_child_workflow_started<S: EventStore>(
        &mut self,
        store: &mut S,
        recorded_at: Timestamp,
        child_workflow_id: WorkflowId,
        workflow_type: String,
        input: Payload,
    ) -> (outcome: Result<(), DurabilityError>)
        ensures
            recorded(
                old(self)@,
                final(self)@,
                *old(store),
                *final(store),
                recorded_at,
                EventBody::ChildWorkflowStarted { child_workflow_id, workflow_type: workflow_type@, input: input@ },
                outcome,
            ),
    {
        let envelope = self.next_envelope(recorded_at)?;
        self.append_one(store, Event::ChildWorkflowStarted { envelope, child_workflow_id, workflow_type, input })
    }

    /// Records the result of a child workflow.
    pub fn record_child_workflow_completed<S: EventStore>(
        &mut self,
        store: &mut S,
        recorded_at: Timestamp,
        child_workflow_id: WorkflowId,
        result: Payload,
    ) -> (outcome: Result<(), DurabilityError>)
        ensures
            recorded(
                old(self)@,
                final(self)@,
                *old(store),
                *final(store),
                recorded_at,
                EventBody::ChildWorkflowCompleted { child_workflow_id, result: result@ },
                outcome,
            ),
    {
        let envelope = self.next_envelope(recorded_at)?;
        self.append_one(store, Event::ChildWorkflowCompleted { envelope, child_workflow_id, result })
    }

    /// Records the failure of a child workflow.
    pub fn record_child_workflow_failed<S: EventStore>(
        &mut self,
        store: &mut S,
        recorded_at: Timestamp,
        child_workflow_id: WorkflowId,
        error: WorkflowError,
    ) -> (outcome: Result<(), DurabilityError>)
        ensures
            recorded(
                old(self)@,
                final(self)@,
                *old(store),
                *final(store),
                recorded_at,
                EventBody::ChildWorkflowFailed { child_workflow_id, error: error@ },
                outcome,
            ),
    {
        let envelope = self.next_envelope(recorded_at)?;
        self.append_one(store, Event::ChildWorkflowFailed { envelope, child_workflow_id, error })
    }
}

/// The effect of recording an event and bringing the visibility row up to date behind it. A
/// failure of the second step leaves the event recorded.
pub open spec fn recorded_and_projected<S: EventStore, W: VisibilityStore>(
    before: RecorderView,
    after: RecorderView,
    stores: (S, S),
    rows: (W, W),
    recorded_at: Timestamp,
    body: EventBody,
    outcome: Result<(), DurabilityError>,
) -> bool {
    let decided = record_outcome(before, stores.0, recorded_at, body);
    if decided is Ok {
        &&& recorded(before, after, stores.0, stores.1, recorded_at, body, Ok(()))
        &&& durable_outcome(outcome) == upsert_outcome(after, stores.1, rows.0)
        &&& upserted(after, stores.1, rows.0, rows.1)
    } else {
        &&& recorded(before, after, stores.0, stores.1, recorded_at, body, outcome)
        &&& rows.1 == rows.0
    }
}

/// The row of a run tells of that run alone: of the type, the workflow and the time of its own start,
/// and of where it stands by the last event that started or ended a run before the next one starts. It
/// closed when that event was recorded, unless it is running. The search attributes are those of the
/// whole history.
pub proof fn rows_tell_of_their_own_run(
    history: Seq<EventView>,
    run_id: RunId,
    from: int,
    to: int,
    last: int,
)
    requires
        0 <= from <= last < to <= history.len(),
        history[from].body matches EventBody::WorkflowStarted { run_id: started, .. } && started
            == run_id,
        forall|i: int|
            0 <= i < from ==> !((#[trigger] history[i]).body matches EventBody::WorkflowStarted {
                run_id: started,
                ..
            } && started == run_id),
        forall|i: int| from < i < to ==> !((#[trigger] history[i]).body is WorkflowStarted),
        to < history.len() ==> history[to].body is WorkflowStarted,
        turns_status(history[last]),
        forall|i: int| last < i < to ==> !turns_status(#[trigger] history[i]),
    ensures
        projected_row(history, run_id) matches Some(row) && {
            &&& row.workflow_id == history[from].envelope.workflow_id
            &&& row.run_id == run_id
            &&& history[from].body matches EventBody::WorkflowStarted { workflow_type, .. }
                && row.workflow_type == workflow_type
            &&& row.start_time == history[from].envelope.recorded_at
            &&& row.search_attributes == attributes_of(history)
            &&& history[last].body is WorkflowStarted <==> row.status == WorkflowStatus::Running
            &&& history[last].body is WorkflowCompleted <==> row.status
                == WorkflowStatus::Completed
            &&& history[last].body is WorkflowFailed <==> row.status == WorkflowStatus::Failed
            &&& history[last].body is WorkflowCancelled <==> row.status
                == WorkflowStatus::Cancelled
            &&& history[last].body is WorkflowTimedOut <==> row.status == WorkflowStatus::TimedOut
            &&& history[last].body is WorkflowContinuedAsNew <==> row.status
                == WorkflowStatus::ContinuedAsNew
            &&& row.close_time == (if row.status == WorkflowStatus::Running {
                None
            } else {
                Some(history[last].envelope.recorded_at)
            })
        },
{
    own_start_is(history, run_id, 0, from);
    next_start_is(history, from + 1, to);
    let own = own_events(history, run_id);
    assert(own =~= history.subrange(from, to));
    assert(own[0] == history[from]);
    assert(own[last - from] == history[last]);
    assert forall|i: int| last - from < i < own.len() implies !turns_status(#[trigger] own[i]) by {
        assert(own[i] == history[from + i]);
    }
    status_follows_the_last_turn(own, last - from);
}

/// Recording an event appends it, and only it, to the history of the recorder's own workflow, at the
/// recorded time that was given and under the next number; where it fails, no history changes.
pub proof fn recorded_events_are_appended<S: EventStore>(
    before: RecorderView,
    after: RecorderView,
    store_before: S,
    store_after: S,
    recorded_at: Timestamp,
    body: EventBody,
    outcome: Result<(), DurabilityError>,
    other: WorkflowId,
)
    requires
        recorded(before, after, store_before, store_after, recorded_at, body, outcome),
    ensures
        after.workflow_id == before.workflow_id,
        after.run == before.run,
        store_after.timers() == store_before.timers(),
        outcome is Err ==> after == before && store_after.histories() == store_before.histories(),
        outcome is Ok ==> {
            let history = history_in(store_before.histories(), before.workflow_id);
            let grown = history_in(store_after.histories(), before.workflow_id);
            &&& before.head < u64::MAX
            &&& after.head == before.head + 1
            &&& grown.len() == history.len() + 1
            &&& grown.drop_last() == history
            &&& grown.last().body == body
            &&& grown.last().envelope.recorded_at == recorded_at
            &&& grown.last().envelope.seq == after.head
            &&& grown.last().envelope.workflow_id == before.workflow_id
            &&& other != before.workflow_id ==> history_in(store_after.histories(), other)
                == history_in(store_before.histories(), other)
        },
{
    let event = next_event(before, recorded_at, body);
    let history = history_in(store_before.histories(), before.workflow_id);
    appended_events_are_read_back(
        store_before.histories(),
        before.workflow_id,
        other,
        seq![event],
    );
    assert((history + seq![event]).drop_last() =~= history);
    assert((history + seq![event]).last() == event);
}

/// Behind a recording that is projected too, the row of the recorder's run is the one that the grown
/// history projects, and no other row changed.
pub proof fn recorded_runs_are_listed_as_they_stand<S: EventStore, W: VisibilityStore>(
    before: RecorderView,
    after: RecorderView,
    stores: (S, S),
    rows: (W, W),
    recorded_at: Timestamp,
    body: EventBody,
    run: RunId,
    other: (WorkflowId, RunId),
)
    requires
        recorded_and_projected(before, after, stores, rows, recorded_at, body, Ok(())),
        before.run == Some(run),
    ensures
        ({
            let history = history_in(stores.1.histories(), before.workflow_id);
            &&& history.last().body == body
            &&& projected_row(history, run) matches Some(row) && rows.1.rows().contains_key(
                (row.workflow_id, run),
            ) && rows.1.rows()[(row.workflow_id, run)] == row && (other != (row.workflow_id, run)
                ==> rows.1.rows().contains_key(other) == rows.0.rows().contains_key(other) && (
            rows.0.rows().contains_key(other) ==> rows.1.rows()[other] == rows.0.rows()[other]))
        }),
{
    recorded_events_are_appended(
        before,
        after,
        stores.0,
        stores.1,
        recorded_at,
        body,
        Ok(()),
        before.workflow_id,
    );
}

/// An event is recorded exactly when there is a number left for it, the store does not fail, and the
/// recorder's head is that of the history. A recorder that fell behind is told of both heads.
pub proof fn events_are_recorded_at_the_head(
    recorder: RecorderView,
    histories: Map<WorkflowId, Seq<EventView>>,
    failures: Map<StoreCall, StoreErrorView>,
    recorded_at: Timestamp,
    body: EventBody,
)
    ensures
        ({
            let decided = record_decision(recorder, histories, failures, recorded_at, body);
            let found = head_of(history_in(histories, recorder.workflow_id));
            let failure = failing(failures, record_call(recorder, recorded_at, body));
            &&& decided is Ok <==> recorder.head < u64::MAX && failure is None && found
                == recorder.head
            &&& recorder.head == u64::MAX ==> (decided matches Err(error) && error is HistoryShape)
            &&& recorder.head < u64::MAX && failure is Some ==> decided == Err::<
                (),
                DurabilityErrorView,
            >(DurabilityErrorView::Store(failure->Some_0))
            &&& recorder.head < u64::MAX && failure is None && found != recorder.head ==> decided
                == Err::<(), DurabilityErrorView>(
                DurabilityErrorView::Store(
                    StoreErrorView::SequenceConflict { expected: recorder.head, found },
                ),
            )
        }),
{
    let event = next_event(recorder, recorded_at, body);
    assert(seq![event][0] == event);
    batches_are_accepted_behind_the_expected_head(
        history_in(histories, recorder.workflow_id),
        seq![event],
        recorder.head,
    );
}

/// The row of a run is rebuilt exactly when the recorder writes for a run, the history can be read and
/// holds the run's start, and the row can be stored; without a run there is nothing to do.
pub proof fn rows_are_rebuilt_for_runs<S: EventStore, W: VisibilityStore>(
    recorder: RecorderView,
    store: S,
    before: W,
    after: W,
)
    requires
        upserted(recorder, store, before, after),
    ensures
        ({
            let outcome = upsert_outcome(recorder, store, before);
            let unread = failing(
                store.failures(),
                StoreCall::ReadHistory { workflow_id: recorder.workflow_id },
            );
            let row = projected_row(
                history_in(store.histories(), recorder.workflow_id),
                recorder.run->Some_0,
            );
            let unkept = failing(
                before.visibility_failures(),
                VisibilityCall::Record { record: row->Some_0 },
            );
            &&& recorder.run is None ==> outcome is Ok && after.rows() == before.rows()
            &&& recorder.run is Some ==> (outcome is Ok <==> unread is None && row is Some
                && unkept is None)
            &&& recorder.run is Some && unread is Some ==> outcome == Err::<
                (),
                DurabilityErrorView,
            >(DurabilityErrorView::Store(unread->Some_0))
            &&& recorder.run is Some && unread is None && row is None ==> outcome == Err::<
                (),
                DurabilityErrorView,
            >(
                DurabilityErrorView::HistoryShape {
                    reason: "workflow history has no WorkflowStarted event for visibility projection"@,
                },
            )
            &&& recorder.run is Some && unread is None && row is Some && unkept is Some ==> outcome
                == Err::<(), DurabilityErrorView>(DurabilityErrorView::Store(unkept->Some_0))
            &&& outcome is Err ==> after.rows() == before.rows()
            &&& recorder.run is Some && outcome is Ok ==> after.rows() == before.rows().insert(
                (row->Some_0.workflow_id, recorder.run->Some_0),
                row->Some_0,
            )
        }),
{
}

/// A history without a start projects no row, of whatever run.
pub proof fn rows_need_a_start(history: Seq<EventView>, run_id: RunId)
    requires
        forall|i: int|
            0 <= i < history.len() ==> !((#[trigger] history[i]).body is WorkflowStarted),
    ensures
        projected_row(history, run_id) is None,
{
    own_start_is(history, run_id, 0, history.len() as int);
    assert(own_events(history, run_id) == history);
    first_start_is_found(history, history.len() as int);
}

} // verus!
