use aion::error::StoreError;
use aion::event::{Event, EventEnvelope};
use aion::ids::{RunId, TimerId, WorkflowId};
use aion::memory::InMemoryStore;
use aion::payload::{ContentType, Payload, WorkflowError};
use aion::projection::{WorkflowFilter, WorkflowStatus};
use aion::store::{EventStore, TimerEntry};
use aion::timestamp::Timestamp;

fn recorded_at(offset_seconds: i64) -> Timestamp {
    Timestamp::from_timestamp(1_700_000_000 + offset_seconds, 0).unwrap()
}

fn workflow_id(value: u128) -> WorkflowId {
    WorkflowId::new(value)
}

fn envelope(seq: u64, workflow_id: &WorkflowId) -> EventEnvelope {
    EventEnvelope {
        seq,
        recorded_at: recorded_at(i64::try_from(seq).unwrap_or_default()),
        workflow_id: workflow_id.clone(),
    }
}

fn run_id(value: u128) -> RunId {
    RunId::new(value)
}

fn payload(label: &str) -> Payload {
    Payload::from_json(&vec![(String::from("label"), String::from(label))]).unwrap_or_else(|error| {
        Payload::new(
            ContentType::Json,
            format!("{{\"payload_error\":\"{error}\"}}").into_bytes(),
        )
    })
}

fn workflow_started(seq: u64, workflow_id: &WorkflowId, workflow_type: &str) -> Event {
    Event::WorkflowStarted {
        envelope: envelope(seq, workflow_id),
        workflow_type: workflow_type.to_owned(),
        input: payload("input"),
        run_id: RunId::new(1),
        parent_run_id: None,
    }
}

fn workflow_completed(seq: u64, workflow_id: &WorkflowId) -> Event {
    Event::WorkflowCompleted {
        envelope: envelope(seq, workflow_id),
        result: payload("result"),
    }
}

fn workflow_failed(seq: u64, workflow_id: &WorkflowId) -> Event {
    Event::WorkflowFailed {
        envelope: envelope(seq, workflow_id),
        error: WorkflowError {
            message: String::from("failed"),
            details: None,
        },
    }
}

#[test]
fn memory_read_history_returns_empty_for_unknown_workflow() -> Result<(), StoreError> {
    let store = InMemoryStore::default();

    assert_eq!(store.read_history(&workflow_id(1))?, Vec::new());
    Ok(())
}

#[test]
fn append_preserves_sequence_order() -> Result<(), StoreError> {
    let mut store = InMemoryStore::default();
    let workflow_id = workflow_id(1);
    let first = workflow_started(1, &workflow_id, "checkout");
    let second = workflow_completed(2, &workflow_id);

    store.append(&workflow_id, std::slice::from_ref(&first), 0)?;
    store.append(&workflow_id, std::slice::from_ref(&second), 1)?;

    assert_eq!(store.read_history(&workflow_id)?, vec![first, second]);
    Ok(())
}

#[test]
fn memory_list_active_returns_only_running_workflows() -> Result<(), StoreError> {
    let mut store = InMemoryStore::default();
    let running = workflow_id(1);
    let completed = workflow_id(2);

    store.append(&running, &[workflow_started(1, &running, "checkout")], 0)?;
    store.append(
        &completed,
        &[
            workflow_started(1, &completed, "checkout"),
            workflow_completed(2, &completed),
        ],
        0,
    )?;

    assert_eq!(store.list_active()?, vec![running]);
    Ok(())
}

#[test]
fn read_run_chain_projects_run_id_from_started_event() -> Result<(), StoreError> {
    let mut store = InMemoryStore::default();
    let workflow_id = workflow_id(1);

    store.append(
        &workflow_id,
        &[
            workflow_started(1, &workflow_id, "checkout"),
            workflow_completed(2, &workflow_id),
        ],
        0,
    )?;

    let chain = store.read_run_chain(&workflow_id)?;

    assert_eq!(chain.len(), 1);
    // The run id comes from the WorkflowStarted event.
    assert_eq!(chain[0].run_id, run_id(1));
    assert_eq!(chain[0].status, WorkflowStatus::Completed);
    assert_eq!(chain[0].closed_at, Some(recorded_at(2)));
    Ok(())
}

#[test]
fn query_uses_core_filter_semantics() -> Result<(), StoreError> {
    let mut store = InMemoryStore::default();
    let running_checkout = workflow_id(1);
    let completed_checkout = workflow_id(2);
    let failed_billing = workflow_id(3);

    store.append(
        &running_checkout,
        &[workflow_started(1, &running_checkout, "checkout")],
        0,
    )?;
    store.append(
        &completed_checkout,
        &[
            workflow_started(1, &completed_checkout, "checkout"),
            workflow_completed(2, &completed_checkout),
        ],
        0,
    )?;
    store.append(
        &failed_billing,
        &[
            workflow_started(1, &failed_billing, "billing"),
            workflow_failed(2, &failed_billing),
        ],
        0,
    )?;

    let filter = WorkflowFilter {
        workflow_type: Some(String::from("checkout")),
        status: Some(WorkflowStatus::Completed),
        started_after: Some(recorded_at(1)),
        started_before: Some(recorded_at(1)),
        parent: None,
    };
    let summaries = store.query(&filter)?;

    assert_eq!(summaries.len(), 1);
    assert_eq!(summaries[0].workflow_id, completed_checkout);
    assert_eq!(summaries[0].status, WorkflowStatus::Completed);
    Ok(())
}

#[test]
fn stale_expected_sequence_writes_nothing() -> Result<(), StoreError> {
    let mut store = InMemoryStore::default();
    let workflow_id = workflow_id(1);
    let first = workflow_started(1, &workflow_id, "checkout");

    store.append(&workflow_id, std::slice::from_ref(&first), 0)?;
    let conflict = store.append(&workflow_id, &[workflow_completed(2, &workflow_id)], 0);

    assert_eq!(
        conflict,
        Err(StoreError::SequenceConflict {
            expected: 0,
            found: 1,
        })
    );
    assert_eq!(store.read_history(&workflow_id)?, vec![first]);
    Ok(())
}

#[test]
fn append_rejects_non_contiguous_event_sequences() -> Result<(), StoreError> {
    let mut store = InMemoryStore::default();
    let wf = workflow_id(1);

    let result = store.append(
        &wf,
        &[
            workflow_started(1, &wf, "checkout"),
            workflow_completed(5, &wf),
        ],
        0,
    );

    assert!(result.is_err());
    assert!(matches!(result, Err(StoreError::Backend(_))));
    assert_eq!(store.read_history(&wf)?, Vec::new());
    Ok(())
}

#[test]
fn concurrent_appends_on_same_expected_sequence_conflict_once() -> Result<(), StoreError> {
    let mut store = InMemoryStore::default();
    let workflow_id = workflow_id(1);

    let results = [
        store.append(
            &workflow_id,
            &[workflow_started(1, &workflow_id, "checkout")],
            0,
        ),
        store.append(&workflow_id, &[workflow_completed(1, &workflow_id)], 0),
    ];

    assert_eq!(results.iter().filter(|result| result.is_ok()).count(), 1);
    assert_eq!(
        results
            .iter()
            .filter(|result| matches!(
                result,
                Err(StoreError::SequenceConflict {
                    expected: 0,
                    found: 1
                })
            ))
            .count(),
        1
    );
    assert_eq!(store.read_history(&workflow_id)?.len(), 1);
    Ok(())
}

#[test]
fn rescheduling_same_timer_replaces_prior_fire_at() -> Result<(), StoreError> {
    let mut store = InMemoryStore::default();
    let workflow_id = workflow_id(1);
    let timer_id = TimerId::anonymous(1);
    let first_fire_at = recorded_at(10);
    let replacement_fire_at = recorded_at(30);

    store.schedule_timer(&workflow_id, &timer_id, first_fire_at)?;
    store.schedule_timer(&workflow_id, &timer_id, replacement_fire_at)?;

    assert_eq!(store.expired_timers(first_fire_at)?, Vec::new());
    assert_eq!(
        store.expired_timers(replacement_fire_at)?,
        vec![TimerEntry {
            workflow_id,
            timer_id,
            fire_at: replacement_fire_at,
        }]
    );
    Ok(())
}

#[test]
fn expired_timers_include_boundary_and_exclude_future() -> Result<(), StoreError> {
    let mut store = InMemoryStore::default();
    let workflow_id = workflow_id(1);
    let past_timer = TimerId::anonymous(1);
    let boundary_timer = TimerId::anonymous(2);
    let future_timer = TimerId::anonymous(3);
    let as_of = recorded_at(20);

    store.schedule_timer(&workflow_id, &future_timer, recorded_at(30))?;
    store.schedule_timer(&workflow_id, &boundary_timer, as_of)?;
    store.schedule_timer(&workflow_id, &past_timer, recorded_at(10))?;

    assert_eq!(
        store.expired_timers(as_of)?,
        vec![
            TimerEntry {
                workflow_id: workflow_id.clone(),
                timer_id: past_timer,
                fire_at: recorded_at(10),
            },
            TimerEntry {
                workflow_id,
                timer_id: boundary_timer,
                fire_at: as_of,
            },
        ]
    );
    Ok(())
}

#[test]
fn listings_are_ordered_by_text() -> Result<(), StoreError> {
    let mut store = InMemoryStore::new();
    for value in [3u128, 1, 2] {
        let id = workflow_id(value);
        store.append(&id, &[workflow_started(1, &id, "checkout")], 0)?;
    }
    assert_eq!(
        store.list_active()?,
        vec![workflow_id(1), workflow_id(2), workflow_id(3)]
    );
    let queried: Vec<WorkflowId> = store
        .query(&WorkflowFilter::default())?
        .iter()
        .map(|summary| summary.workflow_id)
        .collect();
    assert_eq!(queried, vec![workflow_id(1), workflow_id(2), workflow_id(3)]);

    // Timers that are due together come out in the order of their texts, in which
    // `timer:anonymous:10` stands before `timer:anonymous:9`.
    let id = workflow_id(1);
    for timer in [TimerId::anonymous(9), TimerId::anonymous(10)] {
        store.schedule_timer(&id, &timer, recorded_at(5))?;
    }
    store.schedule_timer(&id, &TimerId::named("early").unwrap(), recorded_at(4))?;
    let due: Vec<String> = store
        .expired_timers(recorded_at(5))?
        .iter()
        .map(|entry| entry.timer_id.to_string())
        .collect();
    assert_eq!(
        due,
        vec!["timer:named:early", "timer:anonymous:10", "timer:anonymous:9"]
    );
    Ok(())
}

#[test]
fn an_empty_batch_only_checks_the_head() -> Result<(), StoreError> {
    let mut store = InMemoryStore::new();
    let id = workflow_id(7);
    store.append(&id, &[], 0)?;
    assert_eq!(
        store.append(&id, &[], 1),
        Err(StoreError::SequenceConflict {
            expected: 1,
            found: 0
        })
    );
    assert_eq!(store.read_history(&id)?, Vec::new());
    assert_eq!(store.list_active()?, Vec::<WorkflowId>::new());
    Ok(())
}

#[test]
fn contiguity_failure_names_the_first_gap() {
    let mut store = InMemoryStore::new();
    let id = workflow_id(1);
    let refused = store.append(
        &id,
        &[workflow_started(1, &id, "checkout"), workflow_completed(5, &id)],
        0,
    );
    assert_eq!(
        refused,
        Err(StoreError::Backend(String::from(
            "event sequence must be contiguous: expected 2, got 5"
        )))
    );
}

#[test]
fn store_error_texts() {
    assert_eq!(
        StoreError::SequenceConflict {
            expected: 3,
            found: 12
        }
        .to_string(),
        "sequence conflict: expected 3, found 12"
    );
    assert_eq!(
        StoreError::Backend(String::from("disk")).to_string(),
        "store backend error: disk"
    );
    assert_eq!(
        StoreError::Serialization(String::from("bad")).to_string(),
        "store serialization error: bad"
    );
}
