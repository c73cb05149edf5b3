use aion::attributes::{SearchAttributeValue, SearchAttributes};
use aion::error::EngineError;
use aion::event::{Event, EventEnvelope};
use aion::ids::{RunId, TimerId, WorkflowId};
use aion::lifecycle::visibility::{
    started_projection, upsert_workflow_visibility, visibility_record_from_history,
};
use aion::memory::InMemoryStore;
use aion::payload::{Payload, WorkflowError};
use aion::projection::{
    search_attributes_from_history, status_from_events, terminal_recorded_at, WorkflowStatus,
    WorkflowSummary,
};
use aion::store::EventStore;
use aion::timestamp::{Span, Timestamp};
use aion::visibility::{ListWorkflowsFilter, VisibilityStore};

/// Midnight of the first day of 2026.
const NEW_YEAR_2026: i64 = 1_767_225_600;

fn fresh_workflow() -> WorkflowId {
    WorkflowId::new(uuid::Uuid::new_v4().as_u128())
}

fn fresh_run() -> RunId {
    RunId::new(uuid::Uuid::new_v4().as_u128())
}

fn envelope(workflow_id: &WorkflowId, seq: u64) -> EventEnvelope {
    EventEnvelope {
        seq,
        recorded_at: Timestamp::from_timestamp(NEW_YEAR_2026, 0)
            .expect("test timestamp")
            .after(Span::from_secs(u64::from(seq as u32)))
            .expect("test timestamp"),
        workflow_id: workflow_id.clone(),
    }
}

fn payload() -> Payload {
    Payload::from_json(&vec![]).expect("empty payload")
}

fn workflow_started(workflow_id: &WorkflowId, run_id: &RunId) -> Event {
    Event::WorkflowStarted {
        envelope: envelope(workflow_id, 1),
        workflow_type: String::from("order_processing"),
        input: payload(),
        run_id: run_id.clone(),
        parent_run_id: None,
    }
}

#[test]
fn started_projection_extracts_fields_from_workflow_started() {
    let wf_id = fresh_workflow();
    let run_id = fresh_run();
    let history = vec![workflow_started(&wf_id, &run_id)];

    let (projected_id, projected_type, projected_time) =
        started_projection(&history).expect("should project");
    assert_eq!(projected_id, wf_id);
    assert_eq!(projected_type, "order_processing");
    assert_eq!(projected_time, envelope(&wf_id, 1).recorded_at);
}

#[test]
fn started_projection_returns_load_error_for_empty_history() {
    let result = started_projection(&[]);
    assert!(
        matches!(result, Err(EngineError::Load { .. })),
        "expected Load error, got {result:?}"
    );
}

#[test]
fn started_projection_returns_load_error_when_no_started_event() {
    let wf_id = fresh_workflow();
    let history = vec![Event::WorkflowCompleted {
        envelope: envelope(&wf_id, 1),
        result: payload(),
    }];
    let result = started_projection(&history);
    assert!(matches!(result, Err(EngineError::Load { .. })));
}

#[test]
fn terminal_recorded_at_returns_completed_timestamp() {
    let wf_id = fresh_workflow();
    let env = envelope(&wf_id, 2);
    let expected = env.recorded_at;
    let history = vec![Event::WorkflowCompleted {
        envelope: env,
        result: payload(),
    }];
    assert_eq!(terminal_recorded_at(&history), Some(expected));
}

#[test]
fn terminal_recorded_at_returns_failed_timestamp() {
    let wf_id = fresh_workflow();
    let env = envelope(&wf_id, 2);
    let expected = env.recorded_at;
    let history = vec![Event::WorkflowFailed {
        envelope: env,
        error: WorkflowError {
            message: String::from("boom"),
            details: None,
        },
    }];
    assert_eq!(terminal_recorded_at(&history), Some(expected));
}

#[test]
fn terminal_recorded_at_returns_cancelled_timestamp() {
    let wf_id = fresh_workflow();
    let env = envelope(&wf_id, 2);
    let expected = env.recorded_at;
    let history = vec![Event::WorkflowCancelled {
        envelope: env,
        reason: String::from("user request"),
    }];
    assert_eq!(terminal_recorded_at(&history), Some(expected));
}

#[test]
fn terminal_recorded_at_returns_timed_out_timestamp() {
    let wf_id = fresh_workflow();
    let env = envelope(&wf_id, 2);
    let expected = env.recorded_at;
    let history = vec![Event::WorkflowTimedOut {
        envelope: env,
        timeout: String::from("workflow_execution"),
    }];
    assert_eq!(terminal_recorded_at(&history), Some(expected));
}

#[test]
fn terminal_recorded_at_returns_continued_as_new_timestamp() {
    let wf_id = fresh_workflow();
    let parent_run = fresh_run();
    let env = envelope(&wf_id, 2);
    let expected = env.recorded_at;
    let history = vec![Event::WorkflowContinuedAsNew {
        envelope: env,
        input: payload(),
        workflow_type: None,
        parent_run_id: parent_run,
    }];
    assert_eq!(terminal_recorded_at(&history), Some(expected));
}

#[test]
fn terminal_recorded_at_returns_none_for_non_terminal_history() {
    let wf_id = fresh_workflow();
    let run_id = fresh_run();
    let history = vec![workflow_started(&wf_id, &run_id)];
    assert_eq!(terminal_recorded_at(&history), None);
}

#[test]
fn terminal_recorded_at_finds_terminal_after_interleaved_non_terminal_events() {
    let wf_id = fresh_workflow();
    let run_id = fresh_run();
    let terminal_env = envelope(&wf_id, 4);
    let expected = terminal_env.recorded_at;
    let history = vec![
        workflow_started(&wf_id, &run_id),
        Event::SignalReceived {
            envelope: envelope(&wf_id, 2),
            name: String::from("wake"),
            payload: payload(),
        },
        Event::TimerFired {
            envelope: envelope(&wf_id, 3),
            timer_id: TimerId::named("t1").expect("test timer id"),
        },
        Event::WorkflowCompleted {
            envelope: terminal_env,
            result: payload(),
        },
    ];
    assert_eq!(terminal_recorded_at(&history), Some(expected));
}

#[test]
fn search_attributes_collects_from_multiple_updates() {
    let wf_id = fresh_workflow();
    let mut first_attrs = SearchAttributes::new();
    first_attrs.insert(
        String::from("customer"),
        SearchAttributeValue::String(String::from("acme")),
    );
    let mut second_attrs = SearchAttributes::new();
    second_attrs.insert(String::from("priority"), SearchAttributeValue::Int(5));
    second_attrs.insert(
        String::from("customer"),
        SearchAttributeValue::String(String::from("globex")),
    );

    let history = vec![
        Event::SearchAttributesUpdated {
            envelope: envelope(&wf_id, 2),
            workflow_id: wf_id.clone(),
            attributes: first_attrs,
        },
        Event::SearchAttributesUpdated {
            envelope: envelope(&wf_id, 3),
            workflow_id: wf_id.clone(),
            attributes: second_attrs,
        },
    ];

    let result = search_attributes_from_history(&history);
    assert_eq!(result.len(), 2);
    assert_eq!(
        result.get("customer"),
        Some(&SearchAttributeValue::String(String::from("globex")))
    );
    assert_eq!(result.get("priority"), Some(&SearchAttributeValue::Int(5)));
}

#[test]
fn search_attributes_returns_empty_when_no_updates() {
    let wf_id = fresh_workflow();
    let run_id = fresh_run();
    let history = vec![workflow_started(&wf_id, &run_id)];
    assert!(search_attributes_from_history(&history).is_empty());
}

#[test]
fn visibility_record_from_history_projects_running_workflow() {
    let wf_id = fresh_workflow();
    let run_id = fresh_run();
    let history = vec![workflow_started(&wf_id, &run_id)];

    let record = visibility_record_from_history(&history, &run_id).expect("should project");
    assert_eq!(record.workflow_id, wf_id);
    assert_eq!(record.run_id, run_id);
    assert_eq!(record.workflow_type, "order_processing");
    assert_eq!(record.status, WorkflowStatus::Running);
    assert!(record.close_time.is_none());
    assert!(record.search_attributes.is_empty());
}

#[test]
fn visibility_record_from_history_projects_completed_workflow_with_attributes() {
    let wf_id = fresh_workflow();
    let run_id = fresh_run();
    let mut attrs = SearchAttributes::new();
    attrs.insert(
        String::from("region"),
        SearchAttributeValue::String(String::from("eu-west-1")),
    );
    let terminal_env = envelope(&wf_id, 3);
    let expected_close = terminal_env.recorded_at;

    let history = vec![
        workflow_started(&wf_id, &run_id),
        Event::SearchAttributesUpdated {
            envelope: envelope(&wf_id, 2),
            workflow_id: wf_id.clone(),
            attributes: attrs,
        },
        Event::WorkflowCompleted {
            envelope: terminal_env,
            result: payload(),
        },
    ];

    let record = visibility_record_from_history(&history, &run_id).expect("should project");
    assert_eq!(record.status, WorkflowStatus::Completed);
    assert_eq!(record.close_time, Some(expected_close));
    assert_eq!(
        record.search_attributes.get("region"),
        Some(&SearchAttributeValue::String(String::from("eu-west-1")))
    );
}

#[test]
fn upsert_writes_the_projected_row_or_the_error() {
    let wf_id = WorkflowId::new(21);
    let run_id = RunId::new(22);
    let mut store = InMemoryStore::new();
    let mut rows = InMemoryStore::new();
    assert_eq!(
        upsert_workflow_visibility(&store, &mut rows, &wf_id, &run_id),
        Err(EngineError::Load {
            reason: String::from(
                "workflow history has no WorkflowStarted event for visibility projection"
            )
        })
    );
    assert_eq!(rows.count_workflows(&ListWorkflowsFilter::default()), Ok(0));

    store
        .append(&wf_id, &[workflow_started(&wf_id, &run_id)], 0)
        .unwrap();
    assert_eq!(
        upsert_workflow_visibility(&store, &mut rows, &wf_id, &run_id),
        Ok(())
    );
    let listed = rows.list_workflows(&ListWorkflowsFilter::default()).unwrap();
    assert_eq!(listed.len(), 1);
    assert_eq!(listed[0].run_id, run_id);
    assert_eq!(listed[0].status, WorkflowStatus::Running);
}

#[test]
fn the_last_lifecycle_event_decides_the_status() {
    let wf_id = WorkflowId::new(1);
    let run_id = RunId::new(2);
    assert_eq!(status_from_events(&[]), WorkflowStatus::Running);
    let mut history = vec![workflow_started(&wf_id, &run_id)];
    assert_eq!(status_from_events(&history), WorkflowStatus::Running);
    history.push(Event::WorkflowContinuedAsNew {
        envelope: envelope(&wf_id, 2),
        input: payload(),
        workflow_type: None,
        parent_run_id: run_id,
    });
    assert_eq!(status_from_events(&history), WorkflowStatus::ContinuedAsNew);
    history.push(Event::WorkflowStarted {
        envelope: envelope(&wf_id, 3),
        workflow_type: String::from("order_processing"),
        input: payload(),
        run_id: RunId::new(3),
        parent_run_id: Some(run_id),
    });
    assert_eq!(status_from_events(&history), WorkflowStatus::Running);
    history.push(Event::WorkflowTimedOut {
        envelope: envelope(&wf_id, 4),
        timeout: String::from("execution"),
    });
    assert_eq!(status_from_events(&history), WorkflowStatus::TimedOut);
    assert!(WorkflowSummary::from_history(&[]).is_none());
    let summary = WorkflowSummary::from_history(&history).unwrap();
    assert_eq!(summary.status, WorkflowStatus::TimedOut);
    assert_eq!(summary.workflow_type, "order_processing");
}
