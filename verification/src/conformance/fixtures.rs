//! Identifiers, times and events that the suite works with.

use vstd::prelude::*;
use vstd::string::*;

use crate::conformance::expect::{contract_error, contract_failure};
use crate::error::{StoreError, StoreErrorView};
use crate::event::{Event, EventBody, EventEnvelope, EventView};
use crate::ids::{ActivityId, RunId, TimerId, TimerIdView, WorkflowId};
use crate::payload::{
    field_texts, json_object_bytes, ContentType, Payload, PayloadView, WorkflowError,
    WorkflowErrorView,
};
use crate::timestamp::{
    representable, timestamp_by_parts, whole_second, whole_second_parts, Timestamp,
};

verus! {

/// Source of workflow identifiers.
#[derive(Debug)]
pub struct IdSource {
    /// Value of the next identifier.
    pub next: u64,
}

/// The value behind another.
pub open spec fn following(value: u64) -> u64 {
    if value < u64::MAX {
        (value + 1) as u64
    } else {
        0
    }
}

/// The workflow whose identifier has the given value.
pub open spec fn numbered(value: u64) -> WorkflowId {
    WorkflowId { value: value as u128 }
}

impl IdSource {
    /// Identifiers from one.
    pub fn new() -> (ids: Self)
        ensures
            ids.next == 1,
    {
        IdSource { next: 1 }
    }

    /// The next identifier.
    pub fn workflow_id(&mut self) -> (id: WorkflowId)
        ensures
            id == numbered(old(self).next),
            final(self).next == following(old(self).next),
    {
        let value = self.next;
        self.next = if value < u64::MAX {
            value + 1
        } else {
            0
        };
        WorkflowId::new(value as u128)
    }
}

/// The run with the given value.
pub fn run_id(value: u128) -> (id: RunId)
    ensures
        id == (RunId { value }),
{
    RunId::new(value)
}

/// The instant a number of seconds into the suite's time.
pub open spec fn instant(offset: int) -> Timestamp {
    whole_second((1_700_000_000 + offset) as i64)
}

/// The offset denotes an instant.
pub open spec fn offset_fits(offset: int) -> bool {
    representable(1_700_000_000 + offset, 0)
}

/// A fixture that is dated by an offset: an offset that denotes no instant is refused.
pub open spec fn dated<T>(offset: int, value: T) -> Result<T, StoreErrorView> {
    if offset_fits(offset) {
        Ok(value)
    } else {
        Err(contract_failure("test timestamp should be representable"@))
    }
}

/// A fixture that is dated by its sequence number: a number that is no offset is refused.
pub open spec fn dated_by_sequence<T>(seq: u64, value: T) -> Result<T, StoreErrorView> {
    if seq > i64::MAX {
        Err(
            StoreErrorView::Backend(
                "event sequence out of timestamp range: out of range integral type conversion attempted"@,
            ),
        )
    } else {
        dated(seq as int, value)
    }
}

/// The sequence number can be added to the start of the suite's time.
pub open spec fn sequence_adds_up(seq: u64) -> bool {
    seq <= i64::MAX ==> 1_700_000_000 + seq <= i64::MAX
}

/// Mathematical value of an event that was made.
pub open spec fn event_reply(event: Result<Event, StoreError>) -> Result<EventView, StoreErrorView> {
    match event {
        Ok(event) => Ok(event@),
        Err(error) => Err(error@),
    }
}

/// Mathematical value of an instant that was made.
pub open spec fn instant_reply(at: Result<Timestamp, StoreError>) -> Result<
    Timestamp,
    StoreErrorView,
> {
    match at {
        Ok(at) => Ok(at),
        Err(error) => Err(error@),
    }
}

/// Mathematical value of an envelope that was made.
pub open spec fn envelope_reply(envelope: Result<EventEnvelope, StoreError>) -> Result<
    EventEnvelope,
    StoreErrorView,
> {
    match envelope {
        Ok(envelope) => Ok(envelope),
        Err(error) => Err(error@),
    }
}

/// Instants of the suite are ordered by their offsets.
pub proof fn instants_are_ordered(a: int, b: int)
    requires
        offset_fits(a),
        offset_fits(b),
    ensures
        instant(a).at_most(instant(b)) <==> a <= b,
        instant(a) == instant(b) <==> a == b,
{
    whole_second_parts((1_700_000_000 + a) as i64);
    whole_second_parts((1_700_000_000 + b) as i64);
}

/// The instant a number of seconds into the suite's time.
pub fn recorded_at(offset_seconds: i64) -> (at: Result<Timestamp, StoreError>)
    requires
        1_700_000_000 + offset_seconds <= i64::MAX,
    ensures
        instant_reply(at) == dated(offset_seconds as int, instant(offset_seconds as int)),
{
    match Timestamp::from_timestamp(1_700_000_000 + offset_seconds, 0) {
        Some(at) => {
            proof {
                whole_second_parts((1_700_000_000 + offset_seconds) as i64);
                timestamp_by_parts(at, instant(offset_seconds as int));
            }
            Ok(at)
        },
        None => Err(contract_error("test timestamp should be representable")),
    }
}

fn sequence_offset(seq: u64) -> (offset: Result<i64, StoreError>)
    ensures
        match offset {
            Ok(value) => seq <= i64::MAX && value == seq,
            Err(error) => seq > i64::MAX && Err::<(), StoreErrorView>(error@)
                == dated_by_sequence(seq, ()),
        },
{
    if seq > i64::MAX as u64 {
        Err(
            StoreError::Backend(
                "event sequence out of timestamp range: out of range integral type conversion attempted".to_owned(),
            ),
        )
    } else {
        Ok(seq as i64)
    }
}

/// The payload with a label.
pub open spec fn labelled(label: Seq<char>) -> PayloadView {
    PayloadView {
        content_type: ContentType::Json,
        bytes: json_object_bytes(seq![("label"@, label)]),
    }
}

/// The payload with a label.
pub fn payload(label: &str) -> (payload: Result<Payload, StoreError>)
    ensures
        payload matches Ok(p) && p@ == labelled(label@),
{
    let mut fields: Vec<(String, String)> = Vec::new();
    fields.push(("label".to_owned(), label.to_owned()));
    assert(field_texts(fields@) =~= seq![("label"@, label@)]);
    match Payload::from_json(&fields) {
        Ok(payload) => Ok(payload),
        Err(error) => Err(StoreError::Serialization(error)),
    }
}

/// Envelope of an event of the suite.
pub open spec fn envelope_view(seq: u64, workflow_id: WorkflowId, offset: int) -> EventEnvelope {
    EventEnvelope { seq, recorded_at: instant(offset), workflow_id }
}

fn envelope_at(seq: u64, workflow_id: &WorkflowId, offset_seconds: i64) -> (envelope: Result<
    EventEnvelope,
    StoreError,
>)
    requires
        1_700_000_000 + offset_seconds <= i64::MAX,
    ensures
        envelope_reply(envelope) == dated(
            offset_seconds as int,
            envelope_view(seq, *workflow_id, offset_seconds as int),
        ),
{
    Ok(
        EventEnvelope {
            seq,
            recorded_at: recorded_at(offset_seconds)?,
            workflow_id: *workflow_id,
        },
    )
}

fn envelope(seq: u64, workflow_id: &WorkflowId) -> (envelope: Result<EventEnvelope, StoreError>)
    requires
        sequence_adds_up(seq),
    ensures
        envelope_reply(envelope) == dated_by_sequence(
            seq,
            envelope_view(seq, *workflow_id, seq as int),
        ),
{
    let offset = sequence_offset(seq)?;
    envelope_at(seq, workflow_id, offset)
}

/// A start of a run, recorded at an offset.
pub open spec fn started(
    seq: u64,
    workflow_id: WorkflowId,
    workflow_type: Seq<char>,
    run: RunId,
    parent: Option<RunId>,
    offset: int,
) -> EventView {
    EventView {
        envelope: envelope_view(seq, workflow_id, offset),
        body: EventBody::WorkflowStarted {
            workflow_type,
            input: labelled("input"@),
            run_id: run,
            parent_run_id: parent,
        },
    }
}

/// A start of a run.
pub fn workflow_started_with_run(
    seq: u64,
    workflow_id: &WorkflowId,
    workflow_type: &str,
    run_id: &RunId,
    parent_run_id: Option<RunId>,
) -> (event: Result<Event, StoreError>)
    requires
        sequence_adds_up(seq),
    ensures
        event_reply(event) == dated_by_sequence(
            seq,
            started(
                seq,
                *workflow_id,
                workflow_type@,
                *run_id,
                parent_run_id,
                seq as int,
            ),
        ),
{
    Ok(
        Event::WorkflowStarted {
            envelope: envelope(seq, workflow_id)?,
            workflow_type: workflow_type.to_owned(),
            input: payload("input")?,
            run_id: *run_id,
            parent_run_id,
        },
    )
}

/// A start of a run that is named by its position.
pub fn workflow_started(seq: u64, workflow_id: &WorkflowId, workflow_type: &str) -> (event: Result<
    Event,
    StoreError,
>)
    requires
        sequence_adds_up(seq),
    ensures
        event_reply(event) == dated_by_sequence(
            seq,
            started(
                seq,
                *workflow_id,
                workflow_type@,
                RunId { value: seq as u128 },
                None,
                seq as int,
            ),
        ),
{
    workflow_started_with_run(seq, workflow_id, workflow_type, &run_id(seq as u128), None)
}

/// A start of a run that is named by its position, recorded at an offset.
pub fn workflow_started_at(
    seq: u64,
    workflow_id: &WorkflowId,
    workflow_type: &str,
    offset_seconds: i64,
) -> (event: Result<Event, StoreError>)
    requires
        1_700_000_000 + offset_seconds <= i64::MAX,
    ensures
        event_reply(event) == dated(
            offset_seconds as int,
            started(
                seq,
                *workflow_id,
                workflow_type@,
                RunId { value: seq as u128 },
                None,
                offset_seconds as int,
            ),
        ),
{
    Ok(
        Event::WorkflowStarted {
            envelope: envelope_at(seq, workflow_id, offset_seconds)?,
            workflow_type: workflow_type.to_owned(),
            input: payload("input")?,
            run_id: run_id(seq as u128),
            parent_run_id: None,
        },
    )
}

/// A completion, recorded at an offset.
pub open spec fn completed(seq: u64, workflow_id: WorkflowId, offset: int) -> EventView {
    EventView {
        envelope: envelope_view(seq, workflow_id, offset),
        body: EventBody::WorkflowCompleted { result: labelled("result"@) },
    }
}

/// A completion, recorded at an offset.
pub fn workflow_completed_at(seq: u64, workflow_id: &WorkflowId, offset_seconds: i64) -> (event:
    Result<Event, StoreError>)
    requires
        1_700_000_000 + offset_seconds <= i64::MAX,
    ensures
        event_reply(event) == dated(
            offset_seconds as int,
            completed(seq, *workflow_id, offset_seconds as int),
        ),
{
    Ok(
        Event::WorkflowCompleted {
            envelope: envelope_at(seq, workflow_id, offset_seconds)?,
            result: payload("result")?,
        },
    )
}

/// A completion.
pub fn workflow_completed(seq: u64, workflow_id: &WorkflowId) -> (event: Result<Event, StoreError>)
    requires
        sequence_adds_up(seq),
    ensures
        event_reply(event) == dated_by_sequence(
            seq,
            completed(seq, *workflow_id, seq as int),
        ),
{
    let offset = sequence_offset(seq)?;
    workflow_completed_at(seq, workflow_id, offset)
}

/// A failure, recorded at an offset.
pub open spec fn failed(seq: u64, workflow_id: WorkflowId, offset: int) -> EventView {
    EventView {
        envelope: envelope_view(seq, workflow_id, offset),
        body: EventBody::WorkflowFailed {
            error: WorkflowErrorView { message: "failed"@, details: None },
        },
    }
}

/// A failure, recorded at an offset.
pub fn workflow_failed_at(seq: u64, workflow_id: &WorkflowId, offset_seconds: i64) -> (event: Result<
    Event,
    StoreError,
>)
    requires
        1_700_000_000 + offset_seconds <= i64::MAX,
    ensures
        event_reply(event) == dated(
            offset_seconds as int,
            failed(seq, *workflow_id, offset_seconds as int),
        ),
{
    Ok(
        Event::WorkflowFailed {
            envelope: envelope_at(seq, workflow_id, offset_seconds)?,
            error: WorkflowError { message: "failed".to_owned(), details: None },
        },
    )
}

/// A continuation as a new run, recorded at an offset.
pub open spec fn continued(
    seq: u64,
    workflow_id: WorkflowId,
    parent: RunId,
    offset: int,
) -> EventView {
    EventView {
        envelope: envelope_view(seq, workflow_id, offset),
        body: EventBody::WorkflowContinuedAsNew {
            input: labelled("continued-input"@),
            workflow_type: Some("continued-workflow"@),
            parent_run_id: parent,
        },
    }
}

fn workflow_continued_as_new_with_parent_at(
    seq: u64,
    workflow_id: &WorkflowId,
    parent_run_id: &RunId,
    offset_seconds: i64,
) -> (event: Result<Event, StoreError>)
    requires
        1_700_000_000 + offset_seconds <= i64::MAX,
    ensures
        event_reply(event) == dated(
            offset_seconds as int,
            continued(
                seq,
                *workflow_id,
                *parent_run_id,
                offset_seconds as int,
            ),
        ),
{
    Ok(
        Event::WorkflowContinuedAsNew {
            envelope: envelope_at(seq, workflow_id, offset_seconds)?,
            input: payload("continued-input")?,
            workflow_type: Some("continued-workflow".to_owned()),
            parent_run_id: *parent_run_id,
        },
    )
}

/// A continuation of a run as a new run.
pub fn workflow_continued_as_new_with_parent(
    seq: u64,
    workflow_id: &WorkflowId,
    parent_run_id: &RunId,
) -> (event: Result<Event, StoreError>)
    requires
        sequence_adds_up(seq),
    ensures
        event_reply(event) == dated_by_sequence(
            seq,
            continued(seq, *workflow_id, *parent_run_id, seq as int),
        ),
{
    let offset = sequence_offset(seq)?;
    workflow_continued_as_new_with_parent_at(seq, workflow_id, parent_run_id, offset)
}

/// A continuation of some run as a new run.
pub fn workflow_continued_as_new(seq: u64, workflow_id: &WorkflowId) -> (event: Result<
    Event,
    StoreError,
>)
    requires
        sequence_adds_up(seq),
    ensures
        event_reply(event) == dated_by_sequence(
            seq,
            continued(
                seq,
                *workflow_id,
                RunId { value: 42 },
                seq as int,
            ),
        ),
{
    workflow_continued_as_new_with_parent(seq, workflow_id, &run_id(42))
}

/// A continuation of some run as a new run, recorded at an offset.
pub fn workflow_continued_as_new_at(
    seq: u64,
    workflow_id: &WorkflowId,
    offset_seconds: i64,
) -> (event: Result<Event, StoreError>)
    requires
        1_700_000_000 + offset_seconds <= i64::MAX,
    ensures
        event_reply(event) == dated(
            offset_seconds as int,
            continued(
                seq,
                *workflow_id,
                RunId { value: 42 },
                offset_seconds as int,
            ),
        ),
{
    workflow_continued_as_new_with_parent_at(seq, workflow_id, &run_id(42), offset_seconds)
}

/// An activity that was scheduled.
pub open spec fn scheduled(
    seq: u64,
    workflow_id: WorkflowId,
    activity_type: Seq<char>,
) -> EventView {
    EventView {
        envelope: envelope_view(seq, workflow_id, seq as int),
        body: EventBody::ActivityScheduled {
            activity_id: ActivityId { position: seq },
            activity_type,
            input: labelled("activity-input"@),
        },
    }
}

/// An activity that was scheduled.
pub fn activity_scheduled(seq: u64, workflow_id: &WorkflowId, activity_type: &str) -> (event: Result<
    Event,
    StoreError,
>)
    requires
        sequence_adds_up(seq),
    ensures
        event_reply(event) == dated_by_sequence(
            seq,
            scheduled(seq, *workflow_id, activity_type@),
        ),
{
    Ok(
        Event::ActivityScheduled {
            envelope: envelope(seq, workflow_id)?,
            activity_id: ActivityId::from_sequence_position(seq),
            activity_type: activity_type.to_owned(),
            input: payload("activity-input")?,
        },
    )
}

/// A timer that was started.
pub open spec fn timed(
    seq: u64,
    workflow_id: WorkflowId,
    timer_id: TimerIdView,
    fire_at: Timestamp,
) -> EventView {
    EventView {
        envelope: envelope_view(seq, workflow_id, seq as int),
        body: EventBody::TimerStarted { timer_id, fire_at },
    }
}

/// A timer that was started.
pub fn timer_started(
    seq: u64,
    workflow_id: &WorkflowId,
    timer_id: TimerId,
    fire_at: Timestamp,
) -> (event: Result<Event, StoreError>)
    requires
        sequence_adds_up(seq),
    ensures
        event_reply(event) == dated_by_sequence(
            seq,
            timed(seq, *workflow_id, timer_id@, fire_at),
        ),
{
    Ok(Event::TimerStarted { envelope: envelope(seq, workflow_id)?, timer_id, fire_at })
}

/// A signal that was received.
pub open spec fn signalled(seq: u64, workflow_id: WorkflowId, name: Seq<char>) -> EventView {
    EventView {
        envelope: envelope_view(seq, workflow_id, seq as int),
        body: EventBody::SignalReceived { name, payload: labelled("signal"@) },
    }
}

/// A signal that was received.
pub fn signal_received(seq: u64, workflow_id: &WorkflowId, name: &str) -> (event: Result<
    Event,
    StoreError,
>)
    requires
        sequence_adds_up(seq),
    ensures
        event_reply(event) == dated_by_sequence(
            seq,
            signalled(seq, *workflow_id, name@),
        ),
{
    Ok(
        Event::SignalReceived {
            envelope: envelope(seq, workflow_id)?,
            name: name.to_owned(),
            payload: payload("signal")?,
        },
    )
}

/// The events of the suite are what their names say, with the given number, workflow and time, and carry
/// what they were given.
pub proof fn fixture_events_hold_what_they_are_given(
    seq: u64,
    workflow_id: WorkflowId,
    text: Seq<char>,
    run: RunId,
    parent: Option<RunId>,
    timer_id: TimerIdView,
    fire_at: Timestamp,
    offset: int,
)
    ensures
        started(seq, workflow_id, text, run, parent, offset).body matches EventBody::WorkflowStarted {
            workflow_type,
            run_id,
            parent_run_id,
            ..
        } && workflow_type == text && run_id == run && parent_run_id == parent,
        completed(seq, workflow_id, offset).body is WorkflowCompleted,
        failed(seq, workflow_id, offset).body is WorkflowFailed,
        continued(seq, workflow_id, run, offset).body matches EventBody::WorkflowContinuedAsNew {
            parent_run_id,
            ..
        } && parent_run_id == run,
        scheduled(seq, workflow_id, text).body matches EventBody::ActivityScheduled {
            activity_type,
            ..
        } && activity_type == text,
        timed(seq, workflow_id, timer_id, fire_at).body == (EventBody::TimerStarted {
            timer_id,
            fire_at,
        }),
        signalled(seq, workflow_id, text).body matches EventBody::SignalReceived { name, .. } && name
            == text,
        envelope_view(seq, workflow_id, offset).seq == seq,
        envelope_view(seq, workflow_id, offset).workflow_id == workflow_id,
        -9_000_000_000_000_000_000 <= offset <= 9_000_000_000_000_000_000 ==> envelope_view(
            seq,
            workflow_id,
            offset,
        ).recorded_at.seconds() == 1_700_000_000 + offset,
        started(seq, workflow_id, text, run, parent, offset).envelope == envelope_view(
            seq,
            workflow_id,
            offset,
        ),
        completed(seq, workflow_id, offset).envelope == envelope_view(seq, workflow_id, offset),
        failed(seq, workflow_id, offset).envelope == envelope_view(seq, workflow_id, offset),
        continued(seq, workflow_id, run, offset).envelope == envelope_view(seq, workflow_id, offset),
{
    whole_second_parts((1_700_000_000 + offset) as i64);
}

/// An instant of the suite exists exactly where it can be represented, and a sequence number that is no
/// offset has none.
pub proof fn dated_values_are_representable<T>(offset: int, seq: u64, value: T)
    ensures
        dated(offset, value) is Ok <==> representable(1_700_000_000 + offset, 0),
        dated(offset, value) matches Ok(kept) ==> kept == value,
        dated_by_sequence(seq, value) is Ok <==> seq <= i64::MAX && representable(
            1_700_000_000 + seq,
            0,
        ),
        dated_by_sequence(seq, value) matches Ok(kept) ==> kept == value,
{
}

/// The payloads of the suite are JSON objects with their label.
pub proof fn fixture_payloads_hold_their_label(label: Seq<char>)
    ensures
        labelled(label).content_type == ContentType::Json,
        labelled(label).bytes == json_object_bytes(seq![("label"@, label)]),
{
}

/// Workflows are numbered one behind the other, and start anew behind the greatest number.
pub proof fn workflows_are_numbered_in_turn(value: u64)
    ensures
        value < u64::MAX ==> following(value) == value + 1,
        following(u64::MAX) == 0,
        numbered(value).value == value,
        numbered(following(value)) != numbered(value),
{
}

} // verus!
