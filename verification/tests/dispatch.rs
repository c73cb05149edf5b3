use std::error::Error;

use aion::ids::{ActivityId, WorkflowId};
use aion::payload::{ActivityError, ActivityErrorKind, ContentType, Payload};
use aion::timestamp::Span;
use aion::worker::bridge::{
    activity_task, dispatch, ActivityDispatch, BlockingMode, CallingThread, DispatchFlow,
    DispatchStep, DrainState, HeartbeatTracker, InFlightActivity, WorkerActivityDispatcher,
};
use aion::worker::dispatch::{
    handle_activity_result, lost_worker_error, ActivityCompletion, ActivityCompletionOutcome,
    ActivityCompletionSink, ActivityResult, ServerError, WireActivityError, WireOutcome,
    WirePayload,
};
use aion::worker::pending::{duration_ms, PendingActivities};
use aion::worker::registry::{ConnectedWorkerRegistry, WorkerId};

fn test_tracker() -> HeartbeatTracker {
    HeartbeatTracker::new()
}

fn fresh_workflow() -> WorkflowId {
    WorkflowId::new(uuid::Uuid::new_v4().as_u128())
}

fn greet_request() -> ActivityDispatch {
    ActivityDispatch {
        namespace: "default".to_owned(),
        workflow_id: fresh_workflow(),
        activity_id: ActivityId::from_sequence_position(0),
        name: "greet".to_owned(),
        input: "{}".to_owned(),
        attempt: 1,
        labels: Vec::new(),
    }
}

fn greet_types() -> Vec<String> {
    vec![String::from("greet")]
}

fn json(bytes: &[u8]) -> Payload {
    Payload::new(ContentType::Json, bytes.to_vec())
}

/// Workers that answer every task at once, and the tasks each of them received.
struct EchoWorkers {
    open: Vec<u64>,
    received: Vec<(u64, usize)>,
}

impl EchoWorkers {
    fn new(open: &[u64]) -> Self {
        EchoWorkers {
            open: open.to_vec(),
            received: open.iter().map(|channel| (*channel, 0)).collect(),
        }
    }

    fn count(&self, channel: u64) -> usize {
        self.received
            .iter()
            .filter(|entry| entry.0 == channel)
            .map(|entry| entry.1)
            .sum()
    }

    fn take(&mut self, channel: u64) -> bool {
        if !self.open.contains(&channel) {
            return false;
        }
        for entry in self.received.iter_mut() {
            if entry.0 == channel {
                entry.1 += 1;
            }
        }
        true
    }
}

/// Runs a flow to its end: sends to `workers`, lets the receiver answer with `output` and hands the
/// answer back.
fn run_flow(
    dispatcher: &mut WorkerActivityDispatcher,
    request: &ActivityDispatch,
    workers: &mut EchoWorkers,
    output: &str,
) -> Result<String, String> {
    let mut flow = dispatcher.dispatch_blocking(request);
    loop {
        flow = match flow.step() {
            DispatchStep::Send { channel, .. } => {
                let sent = workers.take(*channel);
                if sent {
                    dispatcher
                        .pending
                        .complete_activity(ActivityCompletion {
                            workflow_id: request.workflow_id,
                            activity_id: request.activity_id,
                            outcome: ActivityCompletionOutcome::Succeeded(json(output.as_bytes())),
                        })
                        .expect("the output is text");
                }
                dispatcher.on_sent(flow, sent)
            }
            DispatchStep::Await { .. } | DispatchStep::Poll { .. } => {
                let ticket = flow.ticket();
                let reply = dispatcher
                    .pending
                    .take_deliveries()
                    .into_iter()
                    .find(|delivery| delivery.ticket == ticket)
                    .map(|delivery| delivery.result);
                dispatcher.await_activity_result(flow, reply)
            }
            DispatchStep::WaitForWorker => panic!("no worker is connected"),
            DispatchStep::Finished { .. } => return flow.into_result().expect("finished"),
        };
    }
}

fn finished(flow: DispatchFlow) -> Result<String, String> {
    flow.into_result().expect("finished")
}

#[test]
fn dispatcher_fails_immediately_when_draining_without_workers() {
    let registry = ConnectedWorkerRegistry::new();
    let mut drain = DrainState::new();
    let _ = drain.begin();
    let mut dispatcher = WorkerActivityDispatcher::new(registry, "default", test_tracker())
        .with_drain_state(drain.clone());

    let result = finished(dispatcher.dispatch_blocking(&greet_request()));

    assert!(result.is_err());
    let err = result.err().unwrap_or_default();
    assert!(
        err.contains("drain"),
        "expected drain rejection, got: {err}"
    );
}

#[test]
fn dispatch_inside_runtime_task_delivers_promptly_and_round_trips() {
    let mut registry = ConnectedWorkerRegistry::new();
    registry.register("default", &greet_types(), 1);
    assert_eq!(
        dispatch(&CallingThread::MultiThreadRuntime),
        Ok(BlockingMode::InPlace)
    );
    let mut dispatcher = WorkerActivityDispatcher::new(registry, "default", test_tracker())
        .with_pending(PendingActivities::new());
    let mut workers = EchoWorkers::new(&[1]);
    let result = run_flow(
        &mut dispatcher,
        &greet_request(),
        &mut workers,
        r#"{"greeting":"hello"}"#,
    );
    assert_eq!(result, Ok(r#"{"greeting":"hello"}"#.to_owned()));
}

#[test]
fn dispatch_on_current_thread_runtime_fails_fast() {
    let refused = dispatch(&CallingThread::OtherRuntime {
        flavor: "CurrentThread".to_owned(),
    });
    let err = refused.err().expect("expected dispatch to fail");
    assert!(
        err.contains("multi-thread tokio runtime"),
        "unexpected error: {err}"
    );
    assert!(err.contains("a CurrentThread tokio runtime"));
    assert_eq!(dispatch(&CallingThread::Plain), Ok(BlockingMode::Direct));
}

#[test]
fn live_dispatch_round_robins_one_task_per_worker() {
    let mut registry = ConnectedWorkerRegistry::new();
    for channel in 0..3 {
        registry.register("default", &greet_types(), channel);
    }
    let mut dispatcher = WorkerActivityDispatcher::new(registry, "default", test_tracker())
        .with_pending(PendingActivities::new());
    let mut workers = EchoWorkers::new(&[0, 1, 2]);
    for _ in 0..3 {
        let result = run_flow(&mut dispatcher, &greet_request(), &mut workers, "{}");
        assert!(result.is_ok(), "dispatch failed: {result:?}");
    }

    for channel in 0..3 {
        assert_eq!(
            workers.count(channel),
            1,
            "worker {channel} should have received exactly one task"
        );
    }
}

#[test]
fn live_dispatch_distributes_evenly() {
    let mut registry = ConnectedWorkerRegistry::new();
    for channel in 0..3 {
        registry.register("default", &greet_types(), channel);
    }
    let mut dispatcher = WorkerActivityDispatcher::new(registry, "default", test_tracker())
        .with_pending(PendingActivities::new());
    let mut workers = EchoWorkers::new(&[0, 1, 2]);
    for _ in 0..6 {
        let result = run_flow(&mut dispatcher, &greet_request(), &mut workers, "{}");
        assert!(result.is_ok(), "dispatch failed: {result:?}");
    }

    for channel in 0..3 {
        assert_eq!(
            workers.count(channel),
            2,
            "worker {channel} should have received exactly two tasks"
        );
    }
}

#[test]
fn live_dispatch_falls_back_past_closed_channel() {
    let mut registry = ConnectedWorkerRegistry::new();
    registry.register("default", &greet_types(), 10);
    registry.register("default", &greet_types(), 11);
    let mut dispatcher = WorkerActivityDispatcher::new(registry, "default", test_tracker())
        .with_pending(PendingActivities::new());
    // The first worker's stream is closed.
    let mut workers = EchoWorkers::new(&[11]);
    let result = run_flow(&mut dispatcher, &greet_request(), &mut workers, "{}");

    assert!(
        result.is_ok(),
        "dispatch should fall back to the live worker: {result:?}"
    );
    assert_eq!(workers.count(11), 1, "the live worker received the task");
    assert_eq!(
        dispatcher.registry.workers_for("default", "greet").len(),
        1,
        "the closed worker was deregistered"
    );
}

#[test]
fn live_dispatch_fails_when_all_candidates_closed() {
    let mut registry = ConnectedWorkerRegistry::new();
    registry.register("default", &greet_types(), 1);
    registry.register("default", &greet_types(), 2);
    let mut dispatcher = WorkerActivityDispatcher::new(registry, "default", test_tracker())
        .with_pending(PendingActivities::new());
    let mut workers = EchoWorkers::new(&[]);
    let result = run_flow(&mut dispatcher, &greet_request(), &mut workers, "{}");

    let err = result.err().expect("expected an all-closed failure");
    assert!(
        err.contains("all matching worker streams closed before task could be delivered"),
        "unexpected error: {err}"
    );
    assert!(
        dispatcher
            .registry
            .workers_for("default", "greet")
            .is_empty(),
        "both closed workers were deregistered"
    );
    assert_eq!(
        dispatcher.heartbeat_tracker.in_flight_count(),
        0,
        "no heartbeat tracking was leaked"
    );
    assert_eq!(dispatcher.pending.len(), 0, "no pending completion was leaked");
}

#[test]
fn live_dispatch_rechecks_drain_before_each_attempt() {
    let mut registry = ConnectedWorkerRegistry::new();
    registry.register("default", &greet_types(), 1);
    let mut drain = DrainState::new();
    let _ = drain.begin();
    let mut dispatcher = WorkerActivityDispatcher::new(registry, "default", test_tracker())
        .with_pending(PendingActivities::new())
        .with_drain_state(drain);

    let err = finished(dispatcher.dispatch_blocking(&greet_request()))
        .err()
        .expect("expected a drain failure");
    assert!(err.contains("drain"), "expected drain error, got: {err}");
    assert_eq!(
        dispatcher.pending.len(),
        0,
        "the pending completion was abandoned"
    );
}

#[test]
fn draining_between_two_attempts_abandons_the_dispatch() {
    let mut registry = ConnectedWorkerRegistry::new();
    registry.register("default", &greet_types(), 1);
    registry.register("default", &greet_types(), 2);
    let mut dispatcher = WorkerActivityDispatcher::new(registry, "default", test_tracker());
    let flow = dispatcher.dispatch_blocking(&greet_request());
    assert!(matches!(flow.step(), DispatchStep::Send { .. }));
    dispatcher.drain_state.begin();
    let err = finished(dispatcher.on_sent(flow, false)).err().unwrap();
    assert_eq!(
        err,
        "worker dispatch failed in namespace `default` for activity type `greet`: server is draining"
    );
    assert_eq!(dispatcher.pending.len(), 0);
    assert_eq!(dispatcher.heartbeat_tracker.in_flight_count(), 0);
}

#[test]
fn live_dispatch_parked_for_worker_abandons_pending_on_drain() {
    let registry = ConnectedWorkerRegistry::new();
    let mut dispatcher = WorkerActivityDispatcher::new(registry, "default", test_tracker())
        .with_pending(PendingActivities::new())
        .with_drain_state(DrainState::new());

    let flow = dispatcher.dispatch_blocking(&greet_request());
    assert_eq!(
        flow.step(),
        &DispatchStep::WaitForWorker,
        "dispatch should be waiting for a worker"
    );
    assert_eq!(
        dispatcher.pending.len(),
        1,
        "pending entry registered while waiting"
    );

    // Begin draining, then wake the parked waiter with an unrelated
    // registration so it looks again with greet still empty.
    let _ = dispatcher.drain_state.begin();
    dispatcher
        .registry
        .register("default", &vec![String::from("other")], 5);

    let err = finished(dispatcher.place_activity(flow))
        .err()
        .expect("expected a drain failure");
    assert!(err.contains("drain"), "expected drain error, got: {err}");
    assert_eq!(
        dispatcher.pending.len(),
        0,
        "the pending entry must be abandoned, not leaked, on the drain-while-waiting path"
    );
}

#[test]
fn a_parked_dispatch_is_placed_when_a_worker_arrives() {
    let mut dispatcher =
        WorkerActivityDispatcher::new(ConnectedWorkerRegistry::new(), "default", test_tracker());
    let flow = dispatcher.dispatch_blocking(&greet_request());
    assert_eq!(flow.step(), &DispatchStep::WaitForWorker);
    let worker_id = dispatcher
        .registry
        .register("default", &greet_types(), 9)
        .worker_id();
    let flow = dispatcher.place_activity(flow);
    assert_eq!(
        flow.step(),
        &DispatchStep::Send {
            worker_id,
            channel: 9
        }
    );
    assert_eq!(dispatcher.heartbeat_tracker.in_flight_count(), 1);
}

#[test]
fn a_worker_that_vanishes_is_reported_as_lost() {
    let mut registry = ConnectedWorkerRegistry::new();
    let worker_id = registry.register("default", &greet_types(), 1).worker_id();
    let mut dispatcher = WorkerActivityDispatcher::new(registry, "default", test_tracker());
    let flow = dispatcher.dispatch_blocking(&greet_request());
    // The worker is gone by the time the send is confirmed, and no result came in.
    dispatcher.registry.deregister(worker_id);
    let flow = dispatcher.on_sent(flow, true);
    assert_eq!(flow.step(), &DispatchStep::Poll { worker_id });
    let err = finished(dispatcher.await_activity_result(flow, None))
        .err()
        .unwrap();
    assert_eq!(
        err,
        format!("retryable:{}", lost_worker_error(worker_id).message)
    );
    assert_eq!(dispatcher.pending.len(), 0);

    let mut registry = ConnectedWorkerRegistry::new();
    registry.register("default", &greet_types(), 1);
    let mut dispatcher = WorkerActivityDispatcher::new(registry, "default", test_tracker());
    let flow = dispatcher.dispatch_blocking(&greet_request());
    let flow = dispatcher.on_sent(flow, true);
    let err = finished(dispatcher.await_activity_result(flow, None))
        .err()
        .unwrap();
    assert_eq!(err, "activity response channel dropped");
}

#[test]
fn lost_worker_error_is_retryable() {
    let error = lost_worker_error(WorkerId(12));
    assert_eq!(
        error.message,
        "worker WorkerId(12) lost before reporting activity result"
    );
    assert!(error.is_retryable());
    assert!(error.details.is_none());
}

#[test]
fn a_task_carries_the_texts_of_its_request() {
    let task = activity_task(
        "greet",
        "{\"name\":\"ada\"}",
        &WorkflowId::new(1),
        &ActivityId::from_sequence_position(6),
        2,
        vec![(String::from("tier"), String::from("gold"))],
    );
    assert_eq!(task.workflow_id, "00000000-0000-0000-0000-000000000001");
    assert_eq!(task.activity_id, 6);
    assert_eq!(task.activity_type, "greet");
    assert_eq!(task.input.content_type, "application/json");
    assert_eq!(task.input.bytes, b"{\"name\":\"ada\"}".to_vec());
    assert_eq!(task.attempt, 2);
    assert_eq!(task.labels, vec![(String::from("tier"), String::from("gold"))]);
}

#[test]
fn in_flight_tasks_are_counted_once() {
    let mut tracker = HeartbeatTracker::new();
    let task = InFlightActivity {
        worker_id: WorkerId(1),
        workflow_id: WorkflowId::new(2),
        activity_id: ActivityId::from_sequence_position(3),
    };
    tracker.track_task(task);
    tracker.track_task(task);
    assert_eq!(tracker.in_flight_count(), 1);
    tracker.complete_task(task);
    tracker.complete_task(task);
    assert_eq!(tracker.in_flight_count(), 0);
}

#[test]
fn draining_begins_once() {
    let mut drain = DrainState::new();
    assert_eq!(drain.ensure_accepting("default", "greet"), Ok(()));
    assert!(drain.begin());
    assert!(!drain.begin());
    assert!(drain.ensure_accepting("default", "greet").is_err());
}

fn workflow_id() -> WorkflowId {
    WorkflowId::new(0)
}

fn activity_id() -> ActivityId {
    ActivityId::from_sequence_position(42)
}

#[derive(Default)]
struct RecordingSink {
    completions: Vec<ActivityCompletion>,
}

impl ActivityCompletionSink for RecordingSink {
    fn complete_activity(&mut self, completion: ActivityCompletion) -> Result<(), ServerError> {
        self.completions.push(completion);
        Ok(())
    }
}

fn wire(payload: &Payload) -> WirePayload {
    WirePayload {
        content_type: String::from("application/json"),
        bytes: payload.bytes().clone(),
    }
}

#[test]
fn successful_activity_result_calls_completion_sink() -> Result<(), Box<dyn Error>> {
    let mut sink = RecordingSink::default();
    let output = json(br#"{"ok":true}"#);
    let result = ActivityResult {
        workflow_id: Some(workflow_id().to_string()),
        activity_id: Some(activity_id().sequence_position()),
        outcome: Some(WireOutcome::Result(wire(&output))),
    };

    handle_activity_result(&mut sink, result).map_err(|error| format!("{error:?}"))?;
    let completions = &sink.completions;

    assert_eq!(completions.len(), 1);
    assert_eq!(completions[0].workflow_id, workflow_id());
    assert_eq!(completions[0].activity_id, activity_id());
    assert_eq!(
        completions[0].outcome,
        ActivityCompletionOutcome::Succeeded(output)
    );
    Ok(())
}

#[test]
fn failed_activity_result_preserves_error_classification() -> Result<(), Box<dyn Error>> {
    let mut sink = RecordingSink::default();
    let error = WireActivityError {
        kind: Some(ActivityErrorKind::Retryable),
        message: String::from("temporary outage"),
        details: Some(wire(&json(br#"{"retry_after_ms":500}"#))),
    };
    let result = ActivityResult {
        workflow_id: Some(workflow_id().to_string()),
        activity_id: Some(activity_id().sequence_position()),
        outcome: Some(WireOutcome::Error(error)),
    };

    handle_activity_result(&mut sink, result).map_err(|error| format!("{error:?}"))?;
    let completions = &sink.completions;

    assert_eq!(completions.len(), 1);
    match &completions[0].outcome {
        ActivityCompletionOutcome::Failed(error) => {
            assert_eq!(error.kind, ActivityErrorKind::Retryable);
            assert!(error.is_retryable());
        }
        ActivityCompletionOutcome::Succeeded(_) => return Err("expected failed outcome".into()),
    }
    Ok(())
}

fn refused(result: ActivityResult) -> String {
    let mut sink = RecordingSink::default();
    let outcome = handle_activity_result(&mut sink, result);
    assert!(sink.completions.is_empty());
    match outcome {
        Err(ServerError::Wire { message }) => message,
        other => panic!("expected a wire error, got {other:?}"),
    }
}

#[test]
fn malformed_results_are_refused() {
    let complete = || ActivityResult {
        workflow_id: Some(workflow_id().to_string()),
        activity_id: Some(42),
        outcome: Some(WireOutcome::Result(wire(&json(b"{}")))),
    };
    assert_eq!(
        refused(ActivityResult {
            workflow_id: None,
            ..complete()
        }),
        "activity result workflow id is missing"
    );
    assert_eq!(
        refused(ActivityResult {
            workflow_id: Some(String::from("seven")),
            ..complete()
        }),
        "activity result workflow id is invalid: seven"
    );
    assert_eq!(
        refused(ActivityResult {
            activity_id: None,
            ..complete()
        }),
        "activity result activity id is missing"
    );
    assert_eq!(
        refused(ActivityResult {
            outcome: None,
            ..complete()
        }),
        "activity result outcome is missing"
    );
    assert_eq!(
        refused(ActivityResult {
            outcome: Some(WireOutcome::Result(WirePayload {
                content_type: String::from("text/plain"),
                bytes: Vec::new(),
            })),
            ..complete()
        }),
        "unsupported payload content type: text/plain"
    );
    assert_eq!(
        refused(ActivityResult {
            outcome: Some(WireOutcome::Error(WireActivityError {
                kind: None,
                message: String::from("?"),
                details: None,
            })),
            ..complete()
        }),
        "activity error kind is missing"
    );
}

#[test]
fn a_reported_workflow_id_is_parsed() {
    let mut sink = RecordingSink::default();
    handle_activity_result(
        &mut sink,
        ActivityResult {
            workflow_id: Some(String::from("01020304-0506-0708-090a-0b0c0d0e0f10")),
            activity_id: Some(1),
            outcome: Some(WireOutcome::Result(wire(&json(b"1")))),
        },
    )
    .unwrap();
    assert_eq!(
        sink.completions[0].workflow_id,
        WorkflowId::new(0x0102_0304_0506_0708_090a_0b0c_0d0e_0f10)
    );
}

fn position(pos: u64) -> ActivityId {
    ActivityId::from_sequence_position(pos)
}

/// The result that was delivered under `ticket` since the last look.
fn received(pending: &mut PendingActivities, ticket: u64) -> Option<Result<String, String>> {
    pending
        .take_deliveries()
        .into_iter()
        .find(|delivery| delivery.ticket == ticket)
        .map(|delivery| delivery.result)
}

#[test]
fn pending_insert_and_complete_delivers_result() {
    let mut pending = PendingActivities::new();
    let workflow_id = fresh_workflow();
    let id = position(1);
    let ticket = pending.insert(workflow_id.clone(), id.clone());

    assert!(pending.complete(&(workflow_id, id), Ok("done".to_owned())));
    assert_eq!(received(&mut pending, ticket), Some(Ok("done".to_owned())));
}

#[test]
fn pending_complete_unknown_returns_false() {
    let mut pending = PendingActivities::new();
    assert!(!pending.complete(
        &(fresh_workflow(), position(99)),
        Ok("orphan".to_owned())
    ));
}

#[test]
fn completion_sink_routes_success() -> Result<(), ServerError> {
    let mut pending = PendingActivities::new();
    let workflow_id = fresh_workflow();
    let id = position(2);
    let ticket = pending.insert(workflow_id.clone(), id.clone());
    let payload = json(br#"{"greeting":"hi"}"#);

    pending.complete_activity(ActivityCompletion {
        workflow_id,
        activity_id: id,
        outcome: ActivityCompletionOutcome::Succeeded(payload),
    })?;

    assert_eq!(
        received(&mut pending, ticket),
        Some(Ok(r#"{"greeting":"hi"}"#.to_owned()))
    );
    Ok(())
}

#[test]
fn completion_sink_routes_retryable_error() -> Result<(), ServerError> {
    let mut pending = PendingActivities::new();
    let workflow_id = fresh_workflow();
    let id = position(3);
    let ticket = pending.insert(workflow_id.clone(), id.clone());

    pending.complete_activity(ActivityCompletion {
        workflow_id,
        activity_id: id,
        outcome: ActivityCompletionOutcome::Failed(ActivityError {
            kind: ActivityErrorKind::Retryable,
            message: "temporary".to_owned(),
            details: None,
        }),
    })?;

    assert_eq!(
        received(&mut pending, ticket),
        Some(Err("retryable:temporary".to_owned()))
    );
    Ok(())
}

#[test]
fn stale_result_for_other_workflow_does_not_complete_pending_dispatch() -> Result<(), ServerError> {
    let mut pending = PendingActivities::new();
    let post_restart_workflow = fresh_workflow();
    let pre_restart_workflow = fresh_workflow();
    // Counter resets to the same sequence position after restart.
    let id = position(1);
    let ticket = pending.insert(post_restart_workflow.clone(), id.clone());

    // Stale pre-restart result: same activity id, different workflow.
    pending.complete_activity(ActivityCompletion {
        workflow_id: pre_restart_workflow,
        activity_id: id.clone(),
        outcome: ActivityCompletionOutcome::Succeeded(json(br#""stale""#)),
    })?;
    assert!(
        received(&mut pending, ticket).is_none(),
        "stale result for a different workflow must not complete this dispatch"
    );

    // The genuine result for the pending execution still completes.
    pending.complete_activity(ActivityCompletion {
        workflow_id: post_restart_workflow,
        activity_id: id,
        outcome: ActivityCompletionOutcome::Succeeded(json(br#""fresh""#)),
    })?;
    assert_eq!(
        received(&mut pending, ticket),
        Some(Ok(r#""fresh""#.to_owned()))
    );
    Ok(())
}

#[test]
fn terminal_errors_and_undecodable_outputs_are_routed() {
    let mut pending = PendingActivities::new();
    let ticket = pending.insert(workflow_id(), position(1));
    pending
        .complete_activity(ActivityCompletion {
            workflow_id: workflow_id(),
            activity_id: position(1),
            outcome: ActivityCompletionOutcome::Failed(ActivityError {
                kind: ActivityErrorKind::Terminal,
                message: "broken".to_owned(),
                details: None,
            }),
        })
        .unwrap();
    assert_eq!(
        received(&mut pending, ticket),
        Some(Err("terminal:broken".to_owned()))
    );

    pending.insert(workflow_id(), position(2));
    let refused = pending.complete_activity(ActivityCompletion {
        workflow_id: workflow_id(),
        activity_id: position(2),
        outcome: ActivityCompletionOutcome::Succeeded(json(&[0xff, 0xfe])),
    });
    assert_eq!(
        refused,
        Err(ServerError::WorkerDispatch {
            namespace: String::new(),
            activity_type: String::new(),
            reason: String::from("payload decode: activity result payload is not valid UTF-8"),
        })
    );
    assert_eq!(pending.len(), 1);
}

#[test]
fn a_result_completes_its_dispatch_once() {
    let mut pending = PendingActivities::new();
    let first = pending.insert(workflow_id(), position(1));
    let second = pending.insert(workflow_id(), position(2));
    assert_ne!(first, second);
    assert_eq!(pending.len(), 2);
    assert!(pending.complete(&(workflow_id(), position(1)), Ok("1".to_owned())));
    assert!(!pending.complete(&(workflow_id(), position(1)), Ok("2".to_owned())));
    pending.remove(&workflow_id(), &position(2));
    assert_eq!(pending.len(), 0);
    assert_eq!(pending.take_deliveries().len(), 1);
    assert!(pending.take_deliveries().is_empty());
}

#[test]
fn durations_are_reported_in_milliseconds() {
    assert_eq!(duration_ms(Span::from_parts(2, 3_999_999).unwrap()), 2003);
    assert_eq!(duration_ms(Span::from_secs(u64::MAX)), u64::MAX);
}

#[test]
fn identifiers_are_read_in_every_form_of_a_uuid() {
    for text in [
        "0102030405060708090a0b0c0d0e0f10",
        "{01020304-0506-0708-090A-0B0C0D0E0F10}",
        "urn:uuid:01020304-0506-0708-090a-0b0c0d0e0f10",
    ] {
        let mut sink = RecordingSink::default();
        handle_activity_result(
            &mut sink,
            ActivityResult {
                workflow_id: Some(String::from(text)),
                activity_id: Some(1),
                outcome: Some(WireOutcome::Result(wire(&json(b"1")))),
            },
        )
        .unwrap();
        assert_eq!(
            sink.completions[0].workflow_id,
            WorkflowId::new(0x0102_0304_0506_0708_090a_0b0c_0d0e_0f10)
        );
    }
}
