use aion::append::{current_head, event_row, AfterRollback, AppendAction, AppendFlow};
use aion::error::StoreError;
use aion::event::{Event, EventEnvelope};
use aion::ids::{RunId, WorkflowId};
use aion::payload::{ContentType, Payload};
use aion::timestamp::Timestamp;

/// A table of rows that a flow runs against, in place of a database.
#[derive(Default)]
struct Rows {
    committed: Vec<(String, u64)>,
    staged: Vec<(String, u64)>,
}

impl Rows {
    fn head(&self, workflow_id: &WorkflowId) -> Result<Option<i64>, StoreError> {
        let id = workflow_id.to_string();
        let head = self
            .committed
            .iter()
            .filter(|row| row.0 == id)
            .map(|row| row.1)
            .max()
            .unwrap_or(0);
        Ok(Some(head as i64))
    }

    fn run(
        &mut self,
        workflow_id: &WorkflowId,
        events: &[Event],
        expected_seq: u64,
    ) -> Result<(), StoreError> {
        let mut flow = AppendFlow::begin(expected_seq);
        for _ in 0..100 {
            let position = match flow.action() {
                AppendAction::Insert(position) => *position,
                _ => 0,
            };
            flow = match flow.action() {
                AppendAction::Begin => flow.on_begin(Ok(())),
                AppendAction::ReadHead => {
                    let head = self.head(workflow_id);
                    flow.on_head(head, events)
                }
                AppendAction::Insert(_) => {
                    let row = event_row(workflow_id, &events[position]);
                    self.staged.push((row.workflow_id, row.seq));
                    flow.on_insert(position, events.len(), Ok(()))
                }
                AppendAction::Commit => {
                    self.committed.append(&mut self.staged);
                    flow.on_commit(Ok(()))
                }
                AppendAction::Rollback(_) => {
                    self.staged.clear();
                    flow.on_rollback(Ok(()))
                }
                AppendAction::RecheckHead(_, _) => {
                    let head = self.head(workflow_id);
                    flow.on_recheck(head)
                }
                AppendAction::Done(_) => return flow.into_outcome().unwrap(),
            };
        }
        panic!("the flow does not end")
    }

    fn sequences(&self, workflow_id: &WorkflowId) -> Vec<u64> {
        let id = workflow_id.to_string();
        self.committed
            .iter()
            .filter(|row| row.0 == id)
            .map(|row| row.1)
            .collect()
    }

    fn stats(&self, workflow_id: &WorkflowId) -> EventStats {
        let sequences = self.sequences(workflow_id);
        EventStats {
            count: sequences.len() as i64,
            head: sequences.iter().max().copied().unwrap_or(0) as i64,
        }
    }
}

#[derive(Debug, PartialEq, Eq)]
struct EventStats {
    count: i64,
    head: i64,
}

fn fresh_workflow() -> WorkflowId {
    WorkflowId::new(uuid::Uuid::new_v4().as_u128())
}

fn envelope(workflow_id: &WorkflowId, seq: u64) -> EventEnvelope {
    EventEnvelope {
        seq,
        recorded_at: Timestamp::unix_epoch(),
        workflow_id: workflow_id.clone(),
    }
}

fn payload(label: &str) -> Payload {
    Payload::new(
        ContentType::Json,
        format!("{{\"label\":\"{label}\"}}").into_bytes(),
    )
}

fn workflow_started(workflow_id: &WorkflowId, seq: u64, label: &str) -> Event {
    Event::WorkflowStarted {
        envelope: envelope(workflow_id, seq),
        workflow_type: format!("test-{label}"),
        input: payload(label),
        run_id: RunId::new(seq.into()),
        parent_run_id: None,
    }
}

fn signal_received(workflow_id: &WorkflowId, seq: u64, label: &str) -> Event {
    Event::SignalReceived {
        envelope: envelope(workflow_id, seq),
        name: String::from(label),
        payload: payload(label),
    }
}

fn assert_sequence_conflict(result: &Result<(), StoreError>, expected: u64, found: u64) {
    assert_eq!(
        result,
        &Err(StoreError::SequenceConflict { expected, found })
    );
}

#[test]
fn appends_first_batch_from_empty_history() -> Result<(), StoreError> {
    let mut store = Rows::default();
    let workflow_id = fresh_workflow();
    let events = vec![workflow_started(&workflow_id, 1, "first")];

    store.run(&workflow_id, &events, 0)?;

    assert_eq!(
        store.stats(&workflow_id),
        EventStats { count: 1, head: 1 }
    );
    Ok(())
}

#[test]
fn appends_multi_event_batch_with_contiguous_sequences() -> Result<(), StoreError> {
    let mut store = Rows::default();
    let workflow_id = fresh_workflow();
    let events = vec![
        workflow_started(&workflow_id, 1, "multi"),
        signal_received(&workflow_id, 2, "wake"),
        signal_received(&workflow_id, 3, "done"),
    ];

    store.run(&workflow_id, &events, 0)?;

    assert_eq!(store.sequences(&workflow_id), vec![1, 2, 3]);
    assert_eq!(
        store.stats(&workflow_id),
        EventStats { count: 3, head: 3 }
    );
    Ok(())
}

#[test]
fn empty_batch_checks_guard_and_leaves_head_unchanged() -> Result<(), StoreError> {
    let mut store = Rows::default();
    let workflow_id = fresh_workflow();

    store.run(&workflow_id, &[], 0)?;

    assert_eq!(
        store.stats(&workflow_id),
        EventStats { count: 0, head: 0 }
    );
    Ok(())
}

#[test]
fn stale_expected_sequence_rolls_back_without_writes() -> Result<(), StoreError> {
    let mut store = Rows::default();
    let workflow_id = fresh_workflow();
    let first = vec![workflow_started(&workflow_id, 1, "stale")];
    let stale = vec![signal_received(&workflow_id, 2, "loser")];

    store.run(&workflow_id, &first, 0)?;
    let result = store.run(&workflow_id, &stale, 0);

    assert_sequence_conflict(&result, 0, 1);
    assert_eq!(
        store.stats(&workflow_id),
        EventStats { count: 1, head: 1 }
    );
    assert_eq!(store.sequences(&workflow_id), vec![1]);
    Ok(())
}

#[test]
fn ahead_expected_sequence_rolls_back_without_writes() -> Result<(), StoreError> {
    let mut store = Rows::default();
    let workflow_id = fresh_workflow();
    let events = vec![workflow_started(&workflow_id, 1, "ahead")];

    let result = store.run(&workflow_id, &events, 2);

    assert_sequence_conflict(&result, 2, 0);
    assert_eq!(
        store.stats(&workflow_id),
        EventStats { count: 0, head: 0 }
    );
    Ok(())
}

#[test]
fn non_contiguous_batch_rolls_back_without_writes() -> Result<(), StoreError> {
    let mut store = Rows::default();
    let workflow_id = fresh_workflow();
    let events = vec![
        workflow_started(&workflow_id, 1, "non-contiguous"),
        signal_received(&workflow_id, 3, "gap"),
    ];

    match store.run(&workflow_id, &events, 0) {
        Err(StoreError::Backend(message)) => {
            assert!(message.contains("event sequence must be contiguous"));
        }
        Err(other) => {
            return Err(StoreError::Backend(format!(
                "expected backend error, got {other:?}"
            )));
        }
        Ok(()) => {
            return Err(StoreError::Backend(String::from(
                "expected non-contiguous batch to fail",
            )));
        }
    }

    assert_eq!(
        store.stats(&workflow_id),
        EventStats { count: 0, head: 0 }
    );
    Ok(())
}

#[test]
fn concurrent_same_expected_sequence_has_one_winner() -> Result<(), StoreError> {
    let mut store = Rows::default();
    let workflow_id = fresh_workflow();

    let first = store.run(
        &workflow_id,
        &[workflow_started(&workflow_id, 1, "first")],
        0,
    );
    let second = store.run(
        &workflow_id,
        &[workflow_started(&workflow_id, 1, "second")],
        0,
    );
    let conflict = Err(StoreError::SequenceConflict {
        expected: 0,
        found: 1,
    });
    let ok_count = usize::from(first.is_ok()) + usize::from(second.is_ok());
    let conflict_count = usize::from(first == conflict) + usize::from(second == conflict);

    assert_eq!(ok_count, 1);
    assert_eq!(conflict_count, 1);
    assert_eq!(
        store.stats(&workflow_id),
        EventStats { count: 1, head: 1 }
    );
    assert_eq!(store.sequences(&workflow_id), vec![1]);
    Ok(())
}

#[test]
fn a_row_holds_the_texts_of_its_event() {
    let id = WorkflowId::new(0x0102_0304_0506_0708_090a_0b0c_0d0e_0f10);
    let mut event = signal_received(&id, 7, "wake");
    if let Event::SignalReceived { envelope, .. } = &mut event {
        envelope.recorded_at = Timestamp::from_timestamp(1_700_000_000, 120_000_000).unwrap();
    }
    let row = event_row(&id, &event);
    assert_eq!(row.workflow_id, "01020304-0506-0708-090a-0b0c0d0e0f10");
    assert_eq!(row.seq, 7);
    assert_eq!(row.recorded_at, "2023-11-14T22:13:20.120+00:00");
}

#[test]
fn a_head_row_is_decoded() {
    assert_eq!(current_head(Some(4)), Ok(4));
    assert_eq!(
        current_head(Some(-3)),
        Err(StoreError::Backend(String::from(
            "event head was negative: -3"
        )))
    );
    assert_eq!(
        current_head(None),
        Err(StoreError::Backend(String::from(
            "event head query returned no rows"
        )))
    );
}

fn backend(message: &str) -> StoreError {
    StoreError::Backend(String::from(message))
}

#[test]
fn a_failed_commit_is_a_conflict_when_the_head_moved() {
    let flow = AppendFlow::begin(0).on_commit(Err(String::from("busy")));
    assert_eq!(
        flow.action(),
        &AppendAction::RecheckHead(0, backend("busy"))
    );
    let moved = flow.on_recheck(Ok(Some(1)));
    assert_eq!(
        moved.action(),
        &AppendAction::Done(Err(StoreError::SequenceConflict {
            expected: 0,
            found: 1
        }))
    );

    let still = AppendFlow::begin(0)
        .on_commit(Err(String::from("busy")))
        .on_recheck(Ok(Some(0)))
        .on_recheck(Ok(Some(0)))
        .on_recheck(Ok(Some(0)));
    assert_eq!(still.action(), &AppendAction::Done(Err(backend("busy"))));

    let unreadable = AppendFlow::begin(0)
        .on_commit(Err(String::from("busy")))
        .on_recheck(Err(backend("gone")));
    assert_eq!(
        unreadable.action(),
        &AppendAction::Done(Err(backend("gone")))
    );
}

#[test]
fn a_failed_insert_rolls_back_first() {
    let failed = AppendFlow::begin(0).on_insert(0, 2, Err(backend("full")));
    assert_eq!(
        failed.action(),
        &AppendAction::Rollback(AfterRollback::Recheck(backend("full")))
    );
    assert_eq!(
        failed.on_rollback(Ok(())).action(),
        &AppendAction::RecheckHead(0, backend("full"))
    );

    let unencodable =
        AppendFlow::begin(0).on_insert(0, 2, Err(StoreError::Serialization(String::from("bad"))));
    assert_eq!(
        unencodable.action(),
        &AppendAction::Rollback(AfterRollback::Return(Err(StoreError::Serialization(
            String::from("bad")
        ))))
    );

    let lost = AppendFlow::begin(0)
        .on_insert(0, 2, Err(backend("full")))
        .on_rollback(Err(backend("rollback")));
    assert_eq!(lost.action(), &AppendAction::Done(Err(backend("rollback"))));
}
