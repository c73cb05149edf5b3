use std::error::Error;

use aion::attributes::{
    SearchAttributeError, SearchAttributeSchema, SearchAttributeType, SearchAttributeValue,
    SearchAttributes,
};
use aion::error::{DurabilityError, StoreError};
use aion::event::{Event, EventEnvelope};
use aion::ids::{ActivityId, RunId, ScheduleId, TimerId, WorkflowId};
use aion::memory::InMemoryStore;
use aion::payload::{ActivityError, ActivityErrorKind, Payload, WorkflowError};
use aion::projection::WorkflowStatus;
use aion::recorder::Recorder;
use aion::schedule::{CatchUpPolicy, OverlapPolicy, ScheduleConfig, TriggerSpec};
use aion::store::EventStore;
use aion::timestamp::{Span, Timestamp};
use aion::visibility::{ListWorkflowsFilter, VisibilityStore};

fn workflow_id(value: u128) -> WorkflowId {
    WorkflowId::new(value)
}

fn recorded_at(offset_seconds: i64) -> Timestamp {
    Timestamp::from_timestamp(1_700_000_000 + offset_seconds, 0).unwrap()
}

fn payload(label: &str) -> Result<Payload, Box<dyn Error>> {
    Ok(Payload::from_json(&vec![(
        String::from("label"),
        String::from(label),
    )])?)
}

fn ok(outcome: Result<(), DurabilityError>) -> Result<(), Box<dyn Error>> {
    outcome.map_err(|error| error.to_string().into())
}

fn stored<T>(outcome: Result<T, StoreError>) -> Result<T, Box<dyn Error>> {
    outcome.map_err(|error| error.to_string().into())
}

fn workflow_started(seq: u64, workflow_id: &WorkflowId) -> Result<Event, Box<dyn Error>> {
    Ok(Event::WorkflowStarted {
        envelope: EventEnvelope {
            seq,
            recorded_at: recorded_at(i64::try_from(seq)?),
            workflow_id: workflow_id.clone(),
        },
        workflow_type: String::from("checkout"),
        input: payload("workflow-input")?,
        run_id: RunId::new(1),
        parent_run_id: None,
    })
}

#[test]
fn recorder_advances_expected_sequence_between_appends() -> Result<(), Box<dyn Error>> {
    let workflow_id = workflow_id(1);
    let mut store = InMemoryStore::default();
    let mut rows = InMemoryStore::new();
    let mut recorder = Recorder::new(workflow_id.clone());

    ok(recorder.record_workflow_started(
        &mut store,
        &mut rows,
        recorded_at(1),
        String::from("checkout"),
        payload("input")?,
        RunId::new(1),
    ))?;
    ok(recorder.record_workflow_completed(&mut store, &mut rows, recorded_at(2), payload("result")?))?;

    let history = stored(store.read_history(&workflow_id))?;
    assert_eq!(history[0].seq(), 1);
    assert_eq!(history[1].seq(), 2);
    assert_eq!(recorder.current_head(), 2);
    Ok(())
}

#[test]
fn records_workflow_continued_as_new_terminal_event() -> Result<(), Box<dyn Error>> {
    let workflow_id = workflow_id(2);
    let parent_run_id = RunId::new(20);
    let mut store = InMemoryStore::default();
    let mut rows = InMemoryStore::default();
    let mut recorder = Recorder::new(workflow_id.clone());
    let continued_at = recorded_at(2);
    let continued_input = payload("continued-input")?;
    let workflow_type = Some(String::from("checkout-v2"));

    ok(recorder.record_workflow_started(
        &mut store,
        &mut rows,
        recorded_at(1),
        String::from("checkout"),
        payload("input")?,
        RunId::new(1),
    ))?;
    ok(recorder.record_workflow_continued_as_new(
        &mut store,
        &mut rows,
        continued_at,
        continued_input.clone(),
        workflow_type.clone(),
        parent_run_id.clone(),
    ))?;

    let history = stored(store.read_history(&workflow_id))?;
    assert_eq!(history.len(), 2);
    assert_eq!(history[0].seq(), 1);
    assert_eq!(history[1].seq(), 2);
    match &history[1] {
        Event::WorkflowContinuedAsNew {
            envelope,
            input,
            workflow_type: recorded_workflow_type,
            parent_run_id: recorded_parent_run_id,
        } => {
            assert_eq!(envelope.recorded_at, continued_at);
            assert_eq!(input, &continued_input);
            assert_eq!(recorded_workflow_type, &workflow_type);
            assert_eq!(recorded_parent_run_id, &parent_run_id);
        }
        other => return Err(format!("expected WorkflowContinuedAsNew, got {other:?}").into()),
    }
    assert_eq!(recorder.current_head(), 2);
    Ok(())
}

#[test]
fn records_validated_search_attributes_updated_event() -> Result<(), Box<dyn Error>> {
    let workflow_id = workflow_id(7);
    let mut store = InMemoryStore::default();
    let mut rows = InMemoryStore::default();
    let mut recorder = Recorder::new(workflow_id.clone());
    let mut schema = SearchAttributeSchema::new();
    schema.register("customer_id", SearchAttributeType::String);
    schema.register("attempt", SearchAttributeType::Int);
    let mut attributes = SearchAttributes::new();
    attributes.insert(
        String::from("customer_id"),
        SearchAttributeValue::String(String::from("customer-123")),
    );
    attributes.insert(String::from("attempt"), SearchAttributeValue::Int(2));

    ok(recorder.record_workflow_started(
        &mut store,
        &mut rows,
        recorded_at(1),
        String::from("checkout"),
        payload("input")?,
        RunId::new(1),
    ))?;
    ok(recorder.record_search_attributes_updated(
        &mut store,
        &mut rows,
        recorded_at(2),
        attributes.clone(),
        &schema,
    ))?;

    let history = stored(store.read_history(&workflow_id))?;
    match history.as_slice() {
        [Event::WorkflowStarted { .. }, Event::SearchAttributesUpdated {
            envelope,
            workflow_id: recorded_workflow_id,
            attributes: stored_attributes,
        }] => {
            assert_eq!(envelope.seq, 2);
            assert_eq!(recorded_workflow_id, &workflow_id);
            assert!(stored_attributes.same(&attributes));
        }
        other => {
            return Err(format!("expected started then search attributes, found {other:?}").into());
        }
    }
    assert_eq!(recorder.current_head(), 2);
    Ok(())
}

#[test]
fn invalid_search_attributes_return_error_without_appending() -> Result<(), Box<dyn Error>> {
    let workflow_id = workflow_id(8);
    let mut store = InMemoryStore::default();
    let mut rows = InMemoryStore::default();
    let mut recorder = Recorder::new(workflow_id.clone());
    let mut schema = SearchAttributeSchema::new();
    schema.register("attempt", SearchAttributeType::Int);

    ok(recorder.record_workflow_started(
        &mut store,
        &mut rows,
        recorded_at(1),
        String::from("checkout"),
        payload("input")?,
        RunId::new(1),
    ))?;
    let mut attributes = SearchAttributes::new();
    attributes.insert(
        String::from("attempt"),
        SearchAttributeValue::String(String::from("two")),
    );
    let error = recorder.record_search_attributes_updated(
        &mut store,
        &mut rows,
        recorded_at(2),
        attributes,
        &schema,
    );

    match error {
        Err(DurabilityError::SearchAttribute(SearchAttributeError::TypeMismatch {
            name,
            expected,
            actual,
        })) => {
            assert_eq!(name, "attempt");
            assert_eq!(expected, SearchAttributeType::Int);
            assert_eq!(actual, SearchAttributeType::String);
        }
        Err(other) => {
            return Err(format!("expected search attribute error, got {other:?}").into());
        }
        Ok(()) => return Err("expected search attribute validation error".into()),
    }
    assert_eq!(recorder.current_head(), 1);
    assert_eq!(stored(store.read_history(&workflow_id))?.len(), 1);
    Ok(())
}

#[test]
fn recorder_visibility_updates_after_search_attributes() -> Result<(), Box<dyn Error>> {
    let workflow_id = workflow_id(9);
    let run_id = RunId::new(90);
    let mut store = InMemoryStore::default();
    let mut rows = InMemoryStore::default();
    let mut recorder = Recorder::new(workflow_id.clone()).with_visibility(run_id.clone());
    let mut schema = SearchAttributeSchema::new();
    schema.register("customer_id", SearchAttributeType::String);
    let mut attributes = SearchAttributes::new();
    attributes.insert(
        String::from("customer_id"),
        SearchAttributeValue::String(String::from("customer-123")),
    );

    ok(recorder.record_workflow_started(
        &mut store,
        &mut rows,
        recorded_at(1),
        String::from("checkout"),
        payload("input")?,
        RunId::new(1),
    ))?;
    ok(recorder.record_search_attributes_updated(
        &mut store,
        &mut rows,
        recorded_at(2),
        attributes.clone(),
        &schema,
    ))?;

    let summaries = stored(rows.list_workflows(&ListWorkflowsFilter::default()))?;
    assert_eq!(summaries.len(), 1);
    assert_eq!(summaries[0].workflow_id, workflow_id);
    assert_eq!(summaries[0].run_id, run_id);
    assert!(summaries[0].search_attributes.same(&attributes));
    Ok(())
}

#[test]
fn records_activity_events_in_sequence_order() -> Result<(), Box<dyn Error>> {
    let workflow_id = workflow_id(6);
    let mut store = InMemoryStore::default();
    let mut recorder = Recorder::new(workflow_id.clone());
    let activity_id = ActivityId::from_sequence_position(1);

    ok(recorder.record_activity_scheduled(
        &mut store,
        recorded_at(1),
        activity_id.clone(),
        String::from("charge-card"),
        payload("input")?,
    ))?;
    ok(recorder.record_activity_completed(
        &mut store,
        recorded_at(2),
        activity_id.clone(),
        payload("result")?,
    ))?;

    let history = stored(store.read_history(&workflow_id))?;
    assert_eq!(history.len(), 2);
    assert_eq!(history[0].seq(), 1);
    assert_eq!(history[1].seq(), 2);
    match &history[0] {
        Event::ActivityScheduled {
            activity_id: recorded_activity_id,
            ..
        } => assert_eq!(recorded_activity_id, &activity_id),
        other => return Err(format!("expected ActivityScheduled, got {other:?}").into()),
    }
    match &history[1] {
        Event::ActivityCompleted {
            activity_id: recorded_activity_id,
            ..
        } => assert_eq!(recorded_activity_id, &activity_id),
        other => return Err(format!("expected ActivityCompleted, got {other:?}").into()),
    }
    Ok(())
}

#[test]
fn resume_at_continues_from_existing_history_head() -> Result<(), Box<dyn Error>> {
    let workflow_id = workflow_id(3);
    let mut store = InMemoryStore::default();
    let seeded = [
        workflow_started(1, &workflow_id)?,
        workflow_started(2, &workflow_id)?,
    ];
    stored(store.append(&workflow_id, &seeded, 0))?;

    let mut recorder = Recorder::resume_at(workflow_id.clone(), 2);
    ok(recorder.record_signal_received(
        &mut store,
        recorded_at(3),
        String::from("approve"),
        payload("signal")?,
    ))?;

    let history = stored(store.read_history(&workflow_id))?;
    assert_eq!(history.len(), 3);
    assert_eq!(history[2].seq(), 3);
    assert_eq!(recorder.current_head(), 3);
    Ok(())
}

#[test]
fn sequence_conflict_surfaces_without_advancing_or_retrying() -> Result<(), Box<dyn Error>> {
    let workflow_id = workflow_id(4);
    let mut store = InMemoryStore::default();
    let mut recorder = Recorder::new(workflow_id.clone());
    let rogue_event = workflow_started(1, &workflow_id)?;
    stored(store.append(&workflow_id, &[rogue_event], 0))?;

    let error = recorder.record_timer_fired(&mut store, recorded_at(2), TimerId::anonymous(2));

    match error {
        Err(DurabilityError::Store(StoreError::SequenceConflict { expected, found })) => {
            assert_eq!(expected, 0);
            assert_eq!(found, 1);
        }
        Err(other) => return Err(format!("expected sequence conflict, got {other:?}").into()),
        Ok(()) => return Err("expected sequence conflict".into()),
    }
    assert_eq!(recorder.current_head(), 0);
    let history = stored(store.read_history(&workflow_id))?;
    assert_eq!(history.len(), 1);
    assert_eq!(history[0].seq(), 1);
    Ok(())
}

#[test]
fn sequence_overflow_returns_error_without_appending() -> Result<(), Box<dyn Error>> {
    let workflow_id = workflow_id(5);
    let mut store = InMemoryStore::default();
    let mut rows = InMemoryStore::new();
    let mut recorder = Recorder::resume_at(workflow_id.clone(), u64::MAX);

    let error = recorder.record_workflow_completed(&mut store, &mut rows, recorded_at(1), payload("result")?);

    match error {
        Err(DurabilityError::HistoryShape { reason }) => {
            assert!(reason.contains("sequence head overflow"));
        }
        Err(other) => return Err(format!("expected sequence overflow, got {other:?}").into()),
        Ok(()) => return Err("expected sequence overflow".into()),
    }
    assert_eq!(recorder.current_head(), u64::MAX);
    assert!(stored(store.read_history(&workflow_id))?.is_empty());
    Ok(())
}

#[test]
fn overflow_names_the_head_that_cannot_grow() -> Result<(), Box<dyn Error>> {
    let mut store = InMemoryStore::new();
    let mut rows = InMemoryStore::new();
    let mut recorder = Recorder::resume_at(workflow_id(5), u64::MAX);
    assert_eq!(
        recorder.record_workflow_completed(&mut store, &mut rows, recorded_at(1), payload("result")?),
        Err(DurabilityError::HistoryShape {
            reason: String::from("sequence head overflow advancing 18446744073709551615 by 1")
        })
    );
    Ok(())
}

#[test]
fn unregistered_attribute_is_refused() -> Result<(), Box<dyn Error>> {
    let mut store = InMemoryStore::new();
    let mut rows = InMemoryStore::new();
    let mut recorder = Recorder::new(workflow_id(5));
    let schema = SearchAttributeSchema::new();
    let mut attributes = SearchAttributes::new();
    attributes.insert(String::from("color"), SearchAttributeValue::Int(1));
    assert_eq!(
        recorder.record_search_attributes_updated(
            &mut store,
            &mut rows,
            recorded_at(1),
            attributes,
            &schema
        ),
        Err(DurabilityError::SearchAttribute(
            SearchAttributeError::Unregistered {
                name: String::from("color")
            }
        ))
    );
    Ok(())
}

#[test]
fn a_projection_needs_a_started_event() -> Result<(), Box<dyn Error>> {
    let store = InMemoryStore::new();
    let mut rows = InMemoryStore::new();
    let recorder = Recorder::new(workflow_id(1)).with_visibility(RunId::new(2));
    assert_eq!(
        recorder.upsert_visibility_projection(&store, &mut rows),
        Err(DurabilityError::HistoryShape {
            reason: String::from(
                "workflow history has no WorkflowStarted event for visibility projection"
            )
        })
    );
    // Without a run there is nothing to project.
    assert_eq!(
        Recorder::new(workflow_id(1)).upsert_visibility_projection(&store, &mut rows),
        Ok(())
    );
    Ok(())
}

#[test]
fn every_recording_appends_its_own_event() -> Result<(), Box<dyn Error>> {
    let id = workflow_id(30);
    let child = workflow_id(31);
    let mut store = InMemoryStore::new();
    let mut rows = InMemoryStore::new();
    let mut recorder = Recorder::new(id);
    let at = recorded_at(1);
    let config = || -> Result<ScheduleConfig, Box<dyn Error>> {
        Ok(ScheduleConfig {
            trigger: TriggerSpec::Interval {
                period: Span::from_secs(60),
            },
            overlap_policy: OverlapPolicy::Skip,
            catch_up_policy: CatchUpPolicy::Skip,
            workflow_type: String::from("report"),
            input: payload("scheduled")?,
        })
    };
    let schedule = ScheduleId::new(9);
    let activity = ActivityId::from_sequence_position(4);
    let timer = || TimerId::named("deadline").unwrap();
    let failed = || WorkflowError {
        message: String::from("boom"),
        details: None,
    };

    ok(recorder.record_workflow_started_with_parent(
        &mut store,
        &mut rows,
        at,
        String::from("checkout"),
        payload("in")?,
        RunId::new(2),
        Some(RunId::new(1)),
    ))?;
    ok(recorder.record_schedule_created(&mut store, at, schedule, config()?))?;
    ok(recorder.record_schedule_updated(&mut store, at, schedule, config()?))?;
    ok(recorder.record_schedule_paused(&mut store, at, schedule))?;
    ok(recorder.record_schedule_resumed(&mut store, at, schedule))?;
    ok(recorder.record_schedule_triggered(&mut store, at, schedule, child, RunId::new(3)))?;
    ok(recorder.record_schedule_deleted(&mut store, at, schedule))?;
    ok(recorder.record_activity_started(&mut store, at, activity))?;
    ok(recorder.record_activity_failed(
        &mut store,
        at,
        activity,
        ActivityError {
            kind: ActivityErrorKind::Terminal,
            message: String::from("no"),
            details: None,
        },
        3,
    ))?;
    ok(recorder.record_activity_cancelled(&mut store, at, activity))?;
    ok(recorder.record_timer_started(&mut store, at, timer(), recorded_at(9)))?;
    ok(recorder.record_timer_cancelled(&mut store, at, timer()))?;
    ok(recorder.record_signal_sent(&mut store, at, child, String::from("go"), payload("s")?))?;
    ok(recorder.record_child_workflow_started(
        &mut store,
        at,
        child,
        String::from("child"),
        payload("c")?,
    ))?;
    ok(recorder.record_child_workflow_completed(&mut store, at, child, payload("d")?))?;
    ok(recorder.record_child_workflow_failed(&mut store, at, child, failed()))?;
    ok(recorder.record_workflow_failed(&mut store, &mut rows, at, failed()))?;
    ok(recorder.record_workflow_cancelled(&mut store, &mut rows, at, String::from("stop")))?;

    let history = stored(store.read_history(&id))?;
    assert_eq!(history.len(), 18);
    assert_eq!(recorder.current_head(), 18);
    for (index, event) in history.iter().enumerate() {
        assert_eq!(event.seq(), index as u64 + 1);
        assert_eq!(event.recorded_at(), at);
        assert_eq!(event.envelope().workflow_id, id);
    }
    assert!(matches!(
        &history[0],
        Event::WorkflowStarted { parent_run_id: Some(parent), run_id, .. }
            if *parent == RunId::new(1) && *run_id == RunId::new(2)
    ));
    assert!(matches!(&history[1], Event::ScheduleCreated { schedule_id, config, .. }
        if *schedule_id == schedule && config.workflow_type == "report"));
    assert!(matches!(&history[2], Event::ScheduleUpdated { .. }));
    assert!(matches!(&history[3], Event::SchedulePaused { .. }));
    assert!(matches!(&history[4], Event::ScheduleResumed { .. }));
    assert!(matches!(&history[5], Event::ScheduleTriggered { workflow_id, run_id, .. }
        if *workflow_id == child && *run_id == RunId::new(3)));
    assert!(matches!(&history[6], Event::ScheduleDeleted { .. }));
    assert!(matches!(&history[7], Event::ActivityStarted { .. }));
    assert!(matches!(&history[8], Event::ActivityFailed { attempt: 3, error, .. }
        if error.message == "no"));
    assert!(matches!(&history[9], Event::ActivityCancelled { .. }));
    assert!(matches!(&history[10], Event::TimerStarted { fire_at, .. }
        if *fire_at == recorded_at(9)));
    assert!(matches!(&history[11], Event::TimerCancelled { .. }));
    assert!(matches!(&history[12], Event::SignalSent { target_workflow_id, name, .. }
        if *target_workflow_id == child && name == "go"));
    assert!(matches!(&history[13], Event::ChildWorkflowStarted { workflow_type, .. }
        if workflow_type == "child"));
    assert!(matches!(&history[14], Event::ChildWorkflowCompleted { .. }));
    assert!(matches!(&history[15], Event::ChildWorkflowFailed { error, .. }
        if error.message == "boom"));
    assert!(matches!(&history[16], Event::WorkflowFailed { .. }));
    assert!(matches!(&history[17], Event::WorkflowCancelled { reason, .. } if reason == "stop"));
    Ok(())
}

#[test]
fn a_second_writer_is_found_out() -> Result<(), Box<dyn Error>> {
    let id = workflow_id(40);
    let mut store = InMemoryStore::new();
    let mut rows = InMemoryStore::new();
    let mut first = Recorder::new(id);
    let mut second = Recorder::new(id);
    ok(first.record_workflow_completed(&mut store, &mut rows, recorded_at(1), payload("a")?))?;
    assert_eq!(
        second.record_workflow_completed(&mut store, &mut rows, recorded_at(2), payload("b")?),
        Err(DurabilityError::Store(StoreError::SequenceConflict {
            expected: 0,
            found: 1
        }))
    );
    assert_eq!(stored(store.read_history(&id))?.len(), 1);
    Ok(())
}

fn row_of(
    rows: &InMemoryStore,
) -> Result<(RunId, WorkflowStatus, Timestamp, Option<Timestamp>), Box<dyn Error>> {
    let summaries = stored(rows.list_workflows(&ListWorkflowsFilter::default()))?;
    assert_eq!(summaries.len(), 1);
    let row = &summaries[0];
    Ok((row.run_id, row.status, row.start_time, row.close_time))
}

#[test]
fn every_workflow_level_event_brings_the_row_up_to_date() -> Result<(), Box<dyn Error>> {
    let id = workflow_id(50);
    let run = RunId::new(500);
    for end in 0..3 {
        let mut store = InMemoryStore::new();
        let mut rows = InMemoryStore::new();
        let mut recorder = Recorder::new(id).with_visibility(run);
        ok(recorder.record_workflow_started(
            &mut store,
            &mut rows,
            recorded_at(1),
            String::from("checkout"),
            payload("in")?,
            run,
        ))?;
        assert_eq!(
            row_of(&rows)?,
            (run, WorkflowStatus::Running, recorded_at(1), None)
        );
        let status = match end {
            0 => {
                ok(recorder.record_workflow_completed(
                    &mut store,
                    &mut rows,
                    recorded_at(2),
                    payload("out")?,
                ))?;
                WorkflowStatus::Completed
            }
            1 => {
                let error = WorkflowError {
                    message: String::from("boom"),
                    details: None,
                };
                ok(recorder.record_workflow_failed(&mut store, &mut rows, recorded_at(2), error))?;
                WorkflowStatus::Failed
            }
            _ => {
                ok(recorder.record_workflow_cancelled(
                    &mut store,
                    &mut rows,
                    recorded_at(2),
                    String::from("stop"),
                ))?;
                WorkflowStatus::Cancelled
            }
        };
        assert_eq!(
            row_of(&rows)?,
            (run, status, recorded_at(1), Some(recorded_at(2)))
        );
    }
    Ok(())
}

#[test]
fn a_continued_run_has_a_row_of_its_own() -> Result<(), Box<dyn Error>> {
    let id = workflow_id(51);
    let (first, second) = (RunId::new(1), RunId::new(2));
    let mut store = InMemoryStore::new();
    let mut rows = InMemoryStore::new();
    let mut recorder = Recorder::new(id).with_visibility(first);
    ok(recorder.record_workflow_started(
        &mut store,
        &mut rows,
        recorded_at(1),
        String::from("checkout"),
        payload("in")?,
        first,
    ))?;
    ok(recorder.record_workflow_continued_as_new(
        &mut store,
        &mut rows,
        recorded_at(2),
        payload("next")?,
        None,
        first,
    ))?;
    let mut next = Recorder::resume_at(id, 2).with_visibility(second);
    ok(next.record_workflow_started_with_parent(
        &mut store,
        &mut rows,
        recorded_at(3),
        String::from("checkout-v2"),
        payload("in")?,
        second,
        Some(first),
    ))?;
    let summaries = stored(rows.list_workflows(&ListWorkflowsFilter::default()))?;
    assert_eq!(summaries.len(), 2);
    assert_eq!(summaries[0].run_id, first);
    assert_eq!(summaries[0].status, WorkflowStatus::ContinuedAsNew);
    assert_eq!(summaries[0].start_time, recorded_at(1));
    assert_eq!(summaries[0].close_time, Some(recorded_at(2)));
    assert_eq!(summaries[1].run_id, second);
    assert_eq!(summaries[1].workflow_type, "checkout-v2");
    assert_eq!(summaries[1].status, WorkflowStatus::Running);
    assert_eq!(summaries[1].start_time, recorded_at(3));
    assert_eq!(summaries[1].close_time, None);
    Ok(())
}
