use std::cell::RefCell;
use std::rc::Rc;

use aion::engine::api::{
    deliver_workflow_message, ContinueAsNewRequest, Engine, EngineComponents, OperationEvent,
    OperationStep, ResultEvent, ResultStep, ScheduleTimerFired, SignalDelivery,
    StartWorkflowRequest,
};
use aion::engine::builder::{
    bootstrap_schedule_coordinator, package_from_source, started_run_id, started_workflow_type,
    ActiveWorkflowRecovery, ActiveWorkflowRecoverySeam, EngineBuilder, EngineHost,
    SignalRouting, WorkflowPackageSource,
};
use aion::engine::gate::ShutdownGate;
use aion::engine::handles::{ContentHash, HandleResidency, Registry, SupervisionTree, WorkflowHandle};
use aion::engine::outcome::{
    outcome_to_result, run_outcome_from_history, terminal_outcome_from_history, TerminalOutcome,
};
use aion::engine::schedules::{
    schedule_change_event, schedule_coordinator_run_id, schedule_coordinator_workflow_id,
    schedule_coordinator_workflow_type, ScheduleChange, ScheduleState,
};
use aion::error::{DurabilityError, EngineError, EngineSeamError, StoreError};
use aion::event::{Event, EventEnvelope};
use aion::ids::{RunId, ScheduleId, TimerId, WorkflowId};
use aion::memory::InMemoryStore;
use aion::payload::{ContentType, Payload, WorkflowError};
use aion::projection::{RunSummary, WorkflowFilter, WorkflowStatus, WorkflowSummary};
use aion::recorder::Recorder;
use aion::schedule::{CatchUpPolicy, OverlapPolicy, ScheduleConfig, TriggerSpec};
use aion::seam::{
    EngineHandle, WorkflowMailboxMessage, WorkflowProcessHandle, WorkflowResidency,
};
use aion::store::{EventStore, TimerEntry};
use aion::timestamp::{Span, Timestamp};

type TestEngine = Engine<InMemoryStore, InMemoryStore, ()>;
struct TestHost;

impl EngineHost for TestHost {
    type Package = Vec<u8>;
    type NativeFunction = String;
    type SignalDelivery = u32;
    type Recovery = NoRecovery;
    type SignalRouter = &'static str;
    type SignalRouterFactory = u8;
    type QueryService = i64;
    type EventPublisher = char;
    type ActivityDispatcher = bool;
}

type TestBuilder = EngineBuilder<InMemoryStore, InMemoryStore, TestHost>;

fn at(offset_seconds: i64) -> Timestamp {
    Timestamp::from_timestamp(1_700_000_000 + offset_seconds, 0).unwrap()
}

fn payload(label: &str) -> Payload {
    Payload::from_json(&vec![(String::from("label"), String::from(label))]).unwrap()
}

fn workflow_error(message: &str) -> WorkflowError {
    WorkflowError {
        message: message.to_owned(),
        details: None,
    }
}

fn fresh_workflow() -> WorkflowId {
    WorkflowId::new(uuid::Uuid::new_v4().as_u128())
}

fn fresh_run() -> RunId {
    RunId::new(uuid::Uuid::new_v4().as_u128())
}

fn started_handle(
    store: &mut InMemoryStore,
    workflow_id: WorkflowId,
    run_id: RunId,
    pid: u64,
) -> WorkflowHandle {
    let mut recorder = Recorder::new(workflow_id);
    recorder
        .record_workflow_started(
            store,
            &mut InMemoryStore::new(),
            at(0),
            String::from("checkout"),
            payload("input"),
            run_id,
        )
        .unwrap();
    WorkflowHandle {
        workflow_id,
        run_id,
        pid,
        workflow_type: String::from("checkout"),
        loaded_version: ContentHash { bytes: [9; 32] },
        cached_status: WorkflowStatus::Running,
        residency: HandleResidency::Resident,
        recorder,
    }
}

fn engine_of(store: InMemoryStore, registry: Registry) -> TestEngine {
    Engine::new(EngineComponents {
        store,
        visibility_store: InMemoryStore::new(),
        loaded_workflows: (),
        registry,
        supervision: SupervisionTree::new(),
    })
}

/// An engine with one live run, whose end `finish` has recorded.
fn engine_with(
    finish: impl Fn(&mut Recorder, &mut InMemoryStore),
) -> (TestEngine, WorkflowId, RunId) {
    let mut store = InMemoryStore::new();
    let mut registry = Registry::new();
    let workflow_id = fresh_workflow();
    let run_id = fresh_run();
    let mut handle = started_handle(&mut store, workflow_id, run_id, 11);
    finish(&mut handle.recorder, &mut store);
    registry.insert(handle);
    (engine_of(store, registry), workflow_id, run_id)
}

#[test]
fn result_returns_completed_payload() {
    let result_payload = payload("result");
    let (mut engine, workflow_id, run_id) = engine_with(|recorder, store| {
        recorder
            .record_workflow_completed(store, &mut InMemoryStore::new(), at(1), payload("result"))
            .unwrap();
    });

    assert_eq!(
        engine.result(&workflow_id, &run_id, ResultEvent::Asked),
        Ok(ResultStep::Done(Ok(result_payload)))
    );
    assert!(engine.shutdown());
}

#[test]
fn result_returns_failed_workflow_error() {
    let (mut engine, workflow_id, run_id) = engine_with(|recorder, store| {
        recorder
            .record_workflow_failed(store, &mut InMemoryStore::new(), at(1), workflow_error("workflow failed"))
            .unwrap();
    });

    assert_eq!(
        engine.result(&workflow_id, &run_id, ResultEvent::Asked),
        Ok(ResultStep::Done(Err(workflow_error("workflow failed"))))
    );
    assert!(engine.shutdown());
}

#[test]
fn result_unknown_workflow_returns_not_found() {
    let mut engine = engine_of(InMemoryStore::new(), Registry::new());
    let workflow_id = fresh_workflow();
    let run_id = fresh_run();

    let result = engine.result(&workflow_id, &run_id, ResultEvent::Asked);

    assert!(matches!(result, Err(EngineError::WorkflowNotFound { .. })));
    assert!(engine.shutdown());
}

#[test]
fn a_result_waits_for_the_process_and_its_notification() {
    let (engine, workflow_id, run_id) = engine_with(|_, _| {});
    let step = |event| engine.result(&workflow_id, &run_id, event);
    assert_eq!(
        step(ResultEvent::Asked),
        Ok(ResultStep::AskRuntime { pid: 11 })
    );
    assert_eq!(
        step(ResultEvent::ProcessEnded(Ok(Ok(payload("done"))))),
        Ok(ResultStep::Complete(payload("done")))
    );
    assert_eq!(
        step(ResultEvent::ProcessEnded(Ok(Err(workflow_error("boom"))))),
        Ok(ResultStep::Fail(workflow_error("boom")))
    );
    assert_eq!(
        step(ResultEvent::Terminated(Ok(()))),
        Ok(ResultStep::AwaitCompletion)
    );
    assert_eq!(
        step(ResultEvent::Notified(None)),
        Ok(ResultStep::AwaitCompletion)
    );
    assert_eq!(
        step(ResultEvent::Notified(Some(TerminalOutcome::Cancelled(
            String::from("stop")
        )))),
        Ok(ResultStep::Done(Err(workflow_error(
            "workflow cancelled: stop"
        ))))
    );
    assert_eq!(
        step(ResultEvent::ChannelClosed),
        Err(EngineError::Runtime {
            reason: format!(
                "completion channel closed before workflow `{}/{}` finished",
                workflow_id.to_string(),
                run_id.to_string()
            )
        })
    );
}

#[test]
fn list_workflows_merges_live_and_terminal_without_duplicates() {
    let mut store = InMemoryStore::new();
    let mut registry = Registry::new();
    let running = fresh_workflow();
    let running_handle = started_handle(&mut store, running, fresh_run(), 1);
    registry.insert(running_handle);
    let completed = fresh_workflow();
    let mut completed_handle = started_handle(&mut store, completed, fresh_run(), 2);
    completed_handle
        .recorder
        .record_workflow_completed(&mut store, &mut InMemoryStore::new(), at(1), payload("result"))
        .unwrap();
    registry.insert(completed_handle);
    let mut engine = engine_of(store, registry);

    let summaries = engine.list_workflows(&WorkflowFilter::default()).unwrap();
    assert_eq!(summaries.len(), 2);
    assert!(summaries.iter().any(|summary| {
        summary.workflow_id == running && summary.status == WorkflowStatus::Running
    }));
    assert!(summaries.iter().any(|summary| {
        summary.workflow_id == completed && summary.status == WorkflowStatus::Completed
    }));

    let completed_only = engine
        .list_workflows(&WorkflowFilter {
            status: Some(WorkflowStatus::Completed),
            ..WorkflowFilter::default()
        })
        .unwrap();
    assert_eq!(completed_only.len(), 1);
    assert_eq!(completed_only[0].workflow_id, completed);
    assert!(engine.shutdown());
}

#[test]
fn shutdown_rejects_subsequent_starts() {
    let (mut engine, _, _) = engine_with(|recorder, store| {
        recorder
            .record_workflow_completed(store, &mut InMemoryStore::new(), at(1), payload("result"))
            .unwrap();
    });
    engine.shutdown();
    assert!(matches!(
        engine.begin_start(),
        Err(EngineError::ShuttingDown)
    ));
    let result = engine.start_workflow(OperationEvent::<_, ()>::Asked(StartWorkflowRequest {
        workflow_type: String::from("checkout"),
        input: payload("after-shutdown"),
    }));
    assert!(matches!(result, Err(EngineError::ShuttingDown)));
}

#[test]
fn shutdown_is_idempotent() {
    let (mut engine, _, _) = engine_with(|_, _| {});
    let first = engine.shutdown();
    let second = engine.shutdown();

    assert!(first);
    assert_eq!(second, first, "double shutdown should succeed");
}

fn schedule_config() -> ScheduleConfig {
    ScheduleConfig {
        trigger: TriggerSpec::Interval {
            period: Span::from_secs(60),
        },
        overlap_policy: OverlapPolicy::Skip,
        catch_up_policy: CatchUpPolicy::Skip,
        workflow_type: String::from("checkout"),
        input: payload("scheduled"),
    }
}

fn schedule_state(id: ScheduleId, is_paused: bool, is_deleted: bool) -> ScheduleState {
    ScheduleState {
        schedule_id: id,
        config: schedule_config(),
        is_paused,
        is_deleted,
        next_trigger_at: Some(at(60)),
    }
}

#[test]
fn shutdown_rejects_schedule_creation() {
    let (mut engine, _, _) = engine_with(|_, _| {});
    engine.shutdown();

    let id = ScheduleId::new(1);
    let result = engine.create_schedule(
        at(1),
        id,
        schedule_config(),
        Ok(schedule_state(id, false, false)),
    );

    assert!(
        matches!(result, Err(EngineError::ShuttingDown)),
        "create_schedule after shutdown should return ShuttingDown; got {result:?}"
    );
}

#[test]
fn schedules_are_recorded_and_described() {
    let mut engine = engine_of(InMemoryStore::new(), Registry::new());
    let id = ScheduleId::new(5);
    assert_eq!(
        engine.create_schedule(
            at(1),
            id,
            schedule_config(),
            Ok(schedule_state(id, false, false))
        ),
        Ok(id)
    );
    engine.finish_operation();
    assert_eq!(
        engine.describe_schedule(&id),
        Ok(schedule_state(id, false, false))
    );
    assert_eq!(
        engine.pause_schedule(at(2), &id, Ok(schedule_state(id, true, false))),
        Ok(())
    );
    assert_eq!(
        engine.list_schedules(),
        vec![schedule_state(id, true, false)]
    );
    assert_eq!(
        engine.resume_schedule(at(3), &id, Ok(schedule_state(id, false, false))),
        Ok(())
    );
    assert_eq!(
        engine.update_schedule(
            at(4),
            &id,
            schedule_config(),
            Ok(schedule_state(id, false, false))
        ),
        Ok(())
    );
    assert_eq!(
        engine.delete_schedule(at(5), &id, Ok(schedule_state(id, false, true))),
        Ok(())
    );
    assert_eq!(
        engine.describe_schedule(&id),
        Err(EngineError::ScheduleNotFound { schedule_id: id })
    );
    assert_eq!(
        engine.pause_schedule(at(6), &id, Ok(schedule_state(id, true, true))),
        Err(EngineError::ScheduleNotFound { schedule_id: id })
    );
    let history = engine
        .store()
        .read_history(&engine.schedule_coordinator_workflow_id())
        .unwrap();
    assert_eq!(history.len(), 5);
    assert!(matches!(&history[0], Event::ScheduleCreated { .. }));
    assert!(matches!(&history[1], Event::SchedulePaused { .. }));
    assert!(matches!(&history[2], Event::ScheduleResumed { .. }));
    assert!(matches!(&history[3], Event::ScheduleUpdated { .. }));
    assert!(matches!(&history[4], Event::ScheduleDeleted { .. }));
}

#[test]
fn the_coordinator_catches_up_with_its_history() {
    let mut store = InMemoryStore::new();
    bootstrap_schedule_coordinator(&mut store, at(0)).unwrap();
    let mut engine = engine_of(store, Registry::new());
    let id = ScheduleId::new(5);
    engine.catchup_schedule_coordinator().unwrap();
    assert_eq!(
        engine.create_schedule(
            at(1),
            id,
            schedule_config(),
            Ok(schedule_state(id, false, false))
        ),
        Ok(id)
    );
}

#[test]
fn the_gate_waits_for_running_operations() {
    let mut gate = ShutdownGate::new();
    gate.begin_start().unwrap();
    gate.begin_operation();
    assert!(!gate.close());
    assert_eq!(gate.begin_start(), Err(EngineError::ShuttingDown));
    assert!(!gate.finish_operation());
    assert!(gate.finish_operation());
}

#[test]
fn operations_pass_the_shutdown_gate() {
    let (mut engine, id, run) = engine_with(|_, _| {});
    let start = || StartWorkflowRequest {
        workflow_type: String::from("checkout"),
        input: payload("input"),
    };
    let next = || ContinueAsNewRequest {
        input: payload("next"),
        workflow_type: None,
    };
    let fired = || ScheduleTimerFired {
        schedule_id: ScheduleId::new(9),
        fire_at: at(3),
    };
    assert_eq!(
        engine.start_workflow(OperationEvent::<_, u8>::Asked(start())),
        Ok(OperationStep::Run(start()))
    );
    assert!(!engine.shutdown());
    assert_eq!(
        engine.start_workflow(OperationEvent::Ended(Ok(7u8))),
        Ok(OperationStep::Done(7))
    );
    assert!(engine.shutdown());
    assert_eq!(
        engine.start_workflow(OperationEvent::<_, u8>::Asked(start())),
        Err(EngineError::ShuttingDown)
    );

    // Operations on existing work are not refused by a closed engine.
    assert_eq!(
        engine.cancel(&id, &run, OperationEvent::<_, ()>::Asked(String::from("enough"))),
        Ok(OperationStep::Run(String::from("enough")))
    );
    assert_eq!(
        engine.cancel(&id, &run, OperationEvent::<_, ()>::Ended(Err(EngineError::MissingStore))),
        Err(EngineError::MissingStore)
    );
    assert_eq!(
        engine.continue_as_new(&id, &run, OperationEvent::<_, ()>::Asked(next())),
        Ok(OperationStep::Run(next()))
    );
    assert!(!engine.shutdown());
    assert_eq!(
        engine.continue_as_new(&id, &run, OperationEvent::Ended(Ok(()))),
        Ok(OperationStep::Done(()))
    );
    assert_eq!(
        engine.handle_schedule_timer_fired(OperationEvent::<_, ()>::Asked(fired())),
        Ok(OperationStep::Run(fired()))
    );
    assert_eq!(
        engine.handle_schedule_timer_fired(OperationEvent::Ended(Ok(()))),
        Ok(OperationStep::Done(()))
    );
    assert!(engine.shutdown());
}

#[test]
fn suspended_runs_are_resumed() {
    let mut store = InMemoryStore::new();
    let mut registry = Registry::new();
    let (workflow_id, run_id) = (WorkflowId::new(1), RunId::new(2));
    let mut handle = started_handle(&mut store, workflow_id, run_id, 11);
    handle.residency = HandleResidency::Suspended;
    registry.insert(handle);
    let mut engine = engine_of(store, registry);
    assert_eq!(
        engine.resolve_workflow(&workflow_id),
        Ok(WorkflowResidency::NonResident)
    );
    let resumed = engine.resume_workflow(&workflow_id, &run_id).unwrap();
    assert_eq!(resumed.pid, 11);
    assert_eq!(resumed.residency, HandleResidency::Resident);
    assert_eq!(
        engine.resolve_workflow(&workflow_id),
        Ok(WorkflowResidency::Resident(WorkflowProcessHandle::new(11)))
    );
    assert!(matches!(
        engine.resume_workflow(&workflow_id, &RunId::new(9)),
        Err(EngineError::WorkflowNotFound { workflow_type })
            if workflow_type
                == "00000000-0000-0000-0000-000000000001/00000000-0000-0000-0000-000000000009"
    ));
}

#[test]
fn recovered_schedules_are_kept() {
    let mut engine = engine_of(InMemoryStore::new(), Registry::new());
    let id = ScheduleId::new(1);
    assert_eq!(
        engine.recover_schedules_on_startup(Ok(vec![
            schedule_state(id, false, false),
            schedule_state(id, true, false),
            schedule_state(ScheduleId::new(2), false, true),
        ])),
        Ok(())
    );
    assert_eq!(
        engine.list_schedules(),
        vec![schedule_state(id, true, false)]
    );
    assert_eq!(
        engine.recover_schedules_on_startup(Err(EngineError::MissingStore)),
        Err(EngineError::MissingStore)
    );
}

#[test]
fn schedule_changes_are_written_as_events() {
    let id = ScheduleId::new(1);
    let event = schedule_change_event(&ScheduleChange::Pause, id, at(3));
    assert!(matches!(&event, Event::SchedulePaused { schedule_id, .. } if *schedule_id == id));
    assert_eq!(event.recorded_at(), at(3));
    assert!(matches!(
        schedule_change_event(&ScheduleChange::Update(schedule_config()), id, at(3)),
        Event::ScheduleUpdated { config, .. } if config == schedule_config()
    ));
    assert!(matches!(
        schedule_change_event(&ScheduleChange::Resume, id, at(3)),
        Event::ScheduleResumed { .. }
    ));
    assert!(matches!(
        schedule_change_event(&ScheduleChange::Delete, id, at(3)),
        Event::ScheduleDeleted { .. }
    ));
}

#[test]
fn signals_are_handed_to_their_process() {
    let process = WorkflowProcessHandle::new(3);
    assert_eq!(
        deliver_workflow_message(
            process,
            WorkflowMailboxMessage::SignalReceived {
                name: String::from("go"),
                payload: payload("s")
            },
            "SignalReceived"
        ),
        Ok(SignalDelivery {
            pid: 3,
            name: String::from("go"),
            payload: payload("s")
        })
    );
    assert_eq!(
        deliver_workflow_message(
            process,
            WorkflowMailboxMessage::Query {
                name: String::from("size"),
                payload: payload("s")
            },
            "Query"
        ),
        Err(EngineSeamError::Delivery {
            reason: String::from("unsupported workflow mailbox message: Query")
        })
    );
}

#[test]
fn the_engine_resolves_its_live_runs() {
    let (mut engine, workflow_id, _) = engine_with(|_, _| {});
    assert_eq!(
        engine.resolve_workflow(&workflow_id),
        Ok(WorkflowResidency::Resident(WorkflowProcessHandle::new(11)))
    );
    assert_eq!(
        engine.resolve_workflow(&fresh_workflow()),
        Ok(WorkflowResidency::Unknown)
    );
    assert!(matches!(
        engine.spawn_child_workflow("checkout"),
        Err(EngineSeamError::ChildSpawn { .. })
    ));
    assert!(matches!(
        engine.record_workflow_event(
            &workflow_id,
            Event::WorkflowCancelled {
                envelope: EventEnvelope {
                    seq: 1,
                    recorded_at: at(1),
                    workflow_id
                },
                reason: String::from("stop")
            }
        ),
        Err(EngineSeamError::Recorder { .. })
    ));
}

#[test]
fn outcomes_are_read_from_the_end_of_a_history() {
    let id = WorkflowId::new(1);
    let envelope = |seq| EventEnvelope {
        seq,
        recorded_at: at(1),
        workflow_id: id,
    };
    assert_eq!(terminal_outcome_from_history(&[]), None);
    assert_eq!(
        terminal_outcome_from_history(&[Event::WorkflowTimedOut {
            envelope: envelope(1),
            timeout: String::from("execution")
        }]),
        Some(TerminalOutcome::TimedOut(String::from("execution")))
    );
    assert_eq!(
        outcome_to_result(TerminalOutcome::TimedOut(String::from("execution"))),
        Err(workflow_error("workflow timed out: execution"))
    );
    assert_eq!(
        outcome_to_result(TerminalOutcome::ContinuedAsNew {
            input: payload("i"),
            workflow_type: None,
            parent_run_id: RunId::new(1)
        }),
        Err(workflow_error(
            "workflow continued as new from run 00000000-0000-0000-0000-000000000001"
        ))
    );
    assert_eq!(
        outcome_to_result(TerminalOutcome::Completed(payload("r"))),
        Ok(payload("r"))
    );
}

#[test]
fn build_without_store_returns_missing_store() {
    let error = TestBuilder::new().build().err();

    assert!(matches!(error, Some(EngineError::MissingStore)));
}

#[test]
fn build_without_visibility_store_returns_missing_visibility_store() {
    let error = TestBuilder::new()
        .store(InMemoryStore::default())
        .build()
        .err();

    assert!(matches!(error, Some(EngineError::MissingVisibilityStore)));
}

struct NoRecovery;

impl<L> ActiveWorkflowRecoverySeam<L> for NoRecovery {
    fn recover_active_workflow(
        &self,
        workflow_id: &WorkflowId,
        _workflow_type: &str,
        _history: &[Event],
        _loaded_workflows: &L,
    ) -> Result<ActiveWorkflowRecovery, EngineError> {
        Err(EngineError::Load {
            reason: format!("workflow {} cannot be recovered", workflow_id.to_string()),
        })
    }
}

#[test]
fn in_memory_visibility_allows_build_without_visibility_store() -> Result<(), EngineError> {
    let mut engine = TestBuilder::new()
        .store(InMemoryStore::default())
        .in_memory_visibility()
        .build()?
        .assemble(at(0), (), &NoRecovery)?;

    assert!(engine.shutdown());
    Ok(())
}

#[test]
fn scheduler_threads_are_only_set_by_caller() {
    assert_eq!(TestBuilder::new().scheduler_thread_count(), None);
    assert_eq!(
        TestBuilder::new()
            .scheduler_threads(4)
            .scheduler_thread_count(),
        Some(4)
    );
}

/// A store that several engines can use one after the other.
#[derive(Clone, Default)]
struct SharedStore(Rc<RefCell<InMemoryStore>>);

impl EventStore for SharedStore {
    fn append(&mut self, id: &WorkflowId, events: &[Event], head: u64) -> Result<(), StoreError> {
        self.0.borrow_mut().append(id, events, head)
    }

    fn read_history(&self, id: &WorkflowId) -> Result<Vec<Event>, StoreError> {
        self.0.borrow().read_history(id)
    }

    fn read_run_chain(&self, id: &WorkflowId) -> Result<Vec<RunSummary>, StoreError> {
        self.0.borrow().read_run_chain(id)
    }

    fn list_active(&self) -> Result<Vec<WorkflowId>, StoreError> {
        self.0.borrow().list_active()
    }

    fn query(&self, filter: &WorkflowFilter) -> Result<Vec<WorkflowSummary>, StoreError> {
        self.0.borrow().query(filter)
    }

    fn schedule_timer(
        &mut self,
        id: &WorkflowId,
        timer: &TimerId,
        fire_at: Timestamp,
    ) -> Result<(), StoreError> {
        self.0.borrow_mut().schedule_timer(id, timer, fire_at)
    }

    fn expired_timers(&self, as_of: Timestamp) -> Result<Vec<TimerEntry>, StoreError> {
        self.0.borrow().expired_timers(as_of)
    }
}

#[test]
fn empty_store_builds_coordinator_history_without_registry_or_supervision(
) -> Result<(), EngineError> {
    let store = SharedStore::default();
    let mut engine = EngineBuilder::<SharedStore, InMemoryStore, TestHost>::new()
        .store_arc(store.clone())
        .in_memory_visibility()
        .build()?
        .assemble(at(0), Vec::<String>::new(), &NoRecovery)?;

    assert!(engine.registry().list().is_empty());
    assert_eq!(engine.supervision().type_supervisor_count(), 1);
    assert_eq!(engine.loaded_workflows().iter().count(), 0);
    let coordinator_id = schedule_coordinator_workflow_id();
    let active = store.list_active().unwrap();
    assert_eq!(active, vec![coordinator_id.clone()]);
    let history = store.read_history(&coordinator_id).unwrap();
    let [started] = history.as_slice() else {
        panic!(
            "expected exactly one coordinator event, found {}",
            history.len()
        );
    };
    match started {
        Event::WorkflowStarted {
            workflow_type,
            input,
            run_id,
            parent_run_id,
            ..
        } => {
            assert_eq!(workflow_type, schedule_coordinator_workflow_type());
            assert_eq!(input, &Payload::from_json(&vec![]).unwrap());
            assert_eq!(run_id, &schedule_coordinator_run_id());
            assert!(parent_run_id.is_none());
        }
        other => panic!("expected coordinator WorkflowStarted, found {other:?}"),
    }

    engine.shutdown();
    let mut rebuilt = EngineBuilder::<SharedStore, InMemoryStore, TestHost>::new()
        .store_arc(store.clone())
        .in_memory_visibility()
        .build()?
        .assemble(at(10), Vec::<String>::new(), &NoRecovery)?;
    let rebuilt_history = store.read_history(&coordinator_id).unwrap();
    assert_eq!(rebuilt_history.len(), 1);
    rebuilt.shutdown();
    Ok(())
}

#[test]
fn the_coordinator_is_started_once() -> Result<(), EngineError> {
    let mut store = InMemoryStore::new();
    bootstrap_schedule_coordinator(&mut store, at(0))?;
    bootstrap_schedule_coordinator(&mut store, at(9))?;
    let coordinator_id = schedule_coordinator_workflow_id();
    assert_eq!(store.read_history(&coordinator_id).unwrap().len(), 1);
    Ok(())
}

struct TestRecovery {
    run_id: RunId,
    version: ContentHash,
    pid: u64,
}

impl ActiveWorkflowRecoverySeam<()> for TestRecovery {
    fn recover_active_workflow(
        &self,
        workflow_id: &WorkflowId,
        workflow_type: &str,
        history: &[Event],
        loaded_workflows: &(),
    ) -> Result<ActiveWorkflowRecovery, EngineError> {
        let _ = (workflow_id, workflow_type, history, loaded_workflows);
        Ok(ActiveWorkflowRecovery::Resident {
            run_id: self.run_id.clone(),
            loaded_version: self.version.clone(),
            pid: self.pid,
        })
    }
}

#[test]
fn active_workflow_recovery_repopulates_registry_and_supervision() {
    let mut store = InMemoryStore::default();
    let workflow_id = fresh_workflow();
    store
        .append(
            &workflow_id,
            &[Event::WorkflowStarted {
                envelope: EventEnvelope {
                    seq: 1,
                    recorded_at: at(0),
                    workflow_id: workflow_id.clone(),
                },
                workflow_type: String::from("checkout"),
                input: Payload::new(ContentType::Json, br#"{"input":true}"#.to_vec()),
                run_id: RunId::new(1),
                parent_run_id: None,
            }],
            0,
        )
        .unwrap();
    let run_id = fresh_run();
    let version = ContentHash { bytes: [7; 32] };
    let pid = 42;

    let engine = TestBuilder::new()
        .store(store)
        .in_memory_visibility()
        .build()
        .unwrap()
        .assemble(
            at(0),
            (),
            &TestRecovery {
                run_id,
                version,
                pid,
            },
        )
        .unwrap();

    let recovered = engine.registry().get(&workflow_id, &run_id);
    assert!(recovered.is_some_and(|handle| {
        handle.workflow_type == "checkout"
            && handle.loaded_version == version
            && handle.cached_status == WorkflowStatus::Running
            && handle.pid == pid
    }));
    assert_eq!(engine.supervision().type_supervisor_count(), 2);
    let type_supervisors = engine.supervision().type_supervisors();
    assert!(type_supervisors
        .iter()
        .any(|node| node.workflow_type == "checkout"));
    assert!(type_supervisors
        .iter()
        .any(|node| node.workflow_type == schedule_coordinator_workflow_type()));
}

#[test]
fn a_failing_recovery_fails_the_assembly() {
    let mut store = InMemoryStore::new();
    started_handle(&mut store, WorkflowId::new(4), RunId::new(5), 1);
    let refused = TestBuilder::new()
        .store(store)
        .in_memory_visibility()
        .build()
        .unwrap()
        .assemble(at(0), (), &NoRecovery)
        .err();
    assert_eq!(
        refused,
        Some(EngineError::Load {
            reason: String::from(
                "workflow 00000000-0000-0000-0000-000000000004 cannot be recovered"
            )
        })
    );
}

#[test]
fn the_started_event_names_type_and_run() {
    let id = WorkflowId::new(1);
    assert_eq!(
        started_workflow_type(&id, &[]),
        Err(EngineError::Load {
            reason: String::from(
                "active workflow `00000000-0000-0000-0000-000000000001` has no WorkflowStarted event in durable history"
            )
        })
    );
    assert_eq!(
        started_run_id(&id, &[]),
        Err(EngineError::Load {
            reason: String::from(
                "active workflow `00000000-0000-0000-0000-000000000001` has no WorkflowStarted run id in durable history"
            )
        })
    );
}

#[test]
fn packages_come_from_paths_or_as_they_are() {
    let path = WorkflowPackageSource::<Vec<u8>>::from(String::from("flows/checkout.aion"));
    assert_eq!(
        package_from_source(path, Err(String::from("no such file"))),
        Err(EngineError::Load {
            reason: String::from(
                "failed to load workflow package `flows/checkout.aion`: no such file"
            )
        })
    );
    assert_eq!(
        package_from_source(
            WorkflowPackageSource::Package(vec![1u8]),
            Err(String::from("unused"))
        ),
        Ok(vec![1u8])
    );
    let plan = TestBuilder::new()
        .store(InMemoryStore::new())
        .visibility_store(InMemoryStore::new())
        .load_workflows(WorkflowPackageSource::Package(vec![1]))
        .load_workflow_sources(vec![WorkflowPackageSource::Path(String::from("b"))])
        .register_nifs(vec![String::from("host:zero/0")])
        .active_registry(Registry::new())
        .scheduler_threads(2)
        .build()
        .unwrap();
    assert_eq!(
        plan.workflow_sources,
        vec![
            WorkflowPackageSource::Package(vec![1]),
            WorkflowPackageSource::Path(String::from("b"))
        ]
    );
    assert_eq!(plan.host_nifs, vec![String::from("host:zero/0")]);
    assert_eq!(plan.scheduler_threads, Some(2));
}

fn stored_builder() -> TestBuilder {
    TestBuilder::new()
        .store(InMemoryStore::new())
        .in_memory_visibility()
}

#[test]
fn the_last_routing_override_wins() {
    let plan = stored_builder().build().unwrap();
    assert_eq!(plan.signal_routing, SignalRouting::Standard);

    let plan = stored_builder()
        .signal_router("first")
        .signal_router("second")
        .build()
        .unwrap();
    assert_eq!(plan.signal_routing, SignalRouting::Router("second"));

    let plan = stored_builder()
        .signal_router("first")
        .signal_router_factory(7)
        .build()
        .unwrap();
    assert_eq!(plan.signal_routing, SignalRouting::Made(7));

    let plan = stored_builder()
        .signal_router_factory(7)
        .signal_router("after")
        .build()
        .unwrap();
    assert_eq!(plan.signal_routing, SignalRouting::Router("after"));
}

#[test]
fn the_plan_keeps_each_seam() {
    let plan = stored_builder().build().unwrap();
    assert!(plan.recovery.is_none());
    assert_eq!(plan.signal_delivery, None);
    assert_eq!(plan.query_service, None);
    assert_eq!(plan.event_publisher, None);
    assert_eq!(plan.activity_dispatcher, None);

    let plan = stored_builder()
        .signal_delivery(3)
        .recovery_seam(NoRecovery)
        .query_service(-1)
        .event_publisher('e')
        .activity_dispatcher(true)
        .build()
        .unwrap();
    assert!(plan.recovery.is_some());
    assert_eq!(plan.signal_delivery, Some(3));
    assert_eq!(plan.query_service, Some(-1));
    assert_eq!(plan.event_publisher, Some('e'));
    assert_eq!(plan.activity_dispatcher, Some(true));
    assert_eq!(plan.signal_routing, SignalRouting::Standard);

    let shared = TestBuilder::new()
        .store_arc(InMemoryStore::new())
        .visibility_store_arc(InMemoryStore::new())
        .build();
    assert!(shared.is_ok());
}

#[test]
fn supervisors_are_kept_one_per_type() {
    let mut tree = SupervisionTree::new();
    tree.place_workflow("checkout", 1);
    tree.place_workflow("billing", 2);
    tree.place_workflow("checkout", 3);
    assert_eq!(tree.type_supervisor_count(), 2);
    assert_eq!(tree.type_supervisors()[0].processes, vec![1, 3]);
    assert_eq!(tree.ensure_type_supervisor("billing"), 1);
}

#[test]
fn a_run_that_nothing_speaks_of_is_not_found() {
    let (engine, id, run) = engine_with(|recorder, store| {
        recorder
            .record_workflow_completed(store, &mut InMemoryStore::new(), at(1), payload("result"))
            .unwrap();
    });
    let other = fresh_run();
    assert_eq!(
        engine.result(&id, &other, ResultEvent::Asked),
        Err(EngineError::WorkflowNotFound {
            workflow_type: format!("{}/{}", id.to_string(), other.to_string())
        })
    );
    assert_eq!(
        engine.result(&id, &run, ResultEvent::Asked),
        Ok(ResultStep::Done(Ok(payload("result"))))
    );
}

#[test]
fn each_run_of_a_chain_answers_for_itself() {
    let mut store = InMemoryStore::new();
    let (id, first, second) = (WorkflowId::new(1), RunId::new(1), RunId::new(2));
    let mut handle = started_handle(&mut store, id, first, 1);
    let mut rows = InMemoryStore::new();
    handle
        .recorder
        .record_workflow_continued_as_new(&mut store, &mut rows, at(1), payload("in"), None, first)
        .unwrap();
    handle
        .recorder
        .record_workflow_started_with_parent(
            &mut store,
            &mut rows,
            at(2),
            String::from("checkout"),
            payload("in"),
            second,
            Some(first),
        )
        .unwrap();
    handle
        .recorder
        .record_workflow_completed(&mut store, &mut rows, at(3), payload("result"))
        .unwrap();
    let history = store.read_history(&id).unwrap();
    assert_eq!(
        run_outcome_from_history(&history, &second),
        Some(TerminalOutcome::Completed(payload("result")))
    );
    assert_eq!(
        run_outcome_from_history(&history, &first),
        Some(TerminalOutcome::ContinuedAsNew {
            input: payload("in"),
            workflow_type: None,
            parent_run_id: first,
        })
    );
    assert_eq!(run_outcome_from_history(&history, &RunId::new(3)), None);
    assert_eq!(run_outcome_from_history(&history[..3], &second), None);
}

#[test]
fn continue_as_new_unknown_workflow_returns_not_found() {
    let mut engine = engine_of(InMemoryStore::new(), Registry::new());
    let workflow_id = fresh_workflow();
    let run_id = fresh_run();

    let result = engine.continue_as_new(
        &workflow_id,
        &run_id,
        OperationEvent::<_, ()>::Asked(ContinueAsNewRequest {
            input: payload("next"),
            workflow_type: None,
        }),
    );

    assert!(matches!(result, Err(EngineError::WorkflowNotFound { .. })));
    assert!(engine.shutdown());
}

#[test]
fn operations_on_unknown_runs_are_refused() {
    let (mut engine, id, _) = engine_with(|_, _| {});
    let other = fresh_run();
    let refusal = || EngineError::WorkflowNotFound {
        workflow_type: format!("{}/{}", id.to_string(), other.to_string()),
    };
    assert_eq!(
        engine.cancel(&id, &other, OperationEvent::<_, ()>::Asked(String::from("enough"))),
        Err(refusal())
    );
    assert_eq!(
        engine.continue_as_new(
            &id,
            &other,
            OperationEvent::<_, ()>::Asked(ContinueAsNewRequest {
                input: payload("next"),
                workflow_type: None,
            })
        ),
        Err(refusal())
    );
    assert!(engine.shutdown());
}

/// An in-memory store that fails the appends, the listing of active workflows, or the reads of one
/// workflow.
#[derive(Default)]
struct PartlyFailingStore {
    kept: InMemoryStore,
    fails_appends: bool,
    fails_listing: bool,
    unreadable: Option<WorkflowId>,
}

fn outage() -> StoreError {
    StoreError::Backend(String::from("outage"))
}

impl EventStore for PartlyFailingStore {
    fn append(&mut self, id: &WorkflowId, events: &[Event], head: u64) -> Result<(), StoreError> {
        if self.fails_appends {
            return Err(outage());
        }
        self.kept.append(id, events, head)
    }

    fn read_history(&self, id: &WorkflowId) -> Result<Vec<Event>, StoreError> {
        if self.unreadable.as_ref() == Some(id) {
            return Err(outage());
        }
        self.kept.read_history(id)
    }

    fn read_run_chain(&self, id: &WorkflowId) -> Result<Vec<RunSummary>, StoreError> {
        self.kept.read_run_chain(id)
    }

    fn list_active(&self) -> Result<Vec<WorkflowId>, StoreError> {
        if self.fails_listing {
            return Err(outage());
        }
        self.kept.list_active()
    }

    fn query(&self, filter: &WorkflowFilter) -> Result<Vec<WorkflowSummary>, StoreError> {
        self.kept.query(filter)
    }

    fn schedule_timer(
        &mut self,
        id: &WorkflowId,
        timer: &TimerId,
        fire_at: Timestamp,
    ) -> Result<(), StoreError> {
        self.kept.schedule_timer(id, timer, fire_at)
    }

    fn expired_timers(&self, as_of: Timestamp) -> Result<Vec<TimerEntry>, StoreError> {
        self.kept.expired_timers(as_of)
    }
}

fn assembly_error(store: PartlyFailingStore) -> EngineError {
    EngineBuilder::<PartlyFailingStore, InMemoryStore, TestHost>::new()
        .store(store)
        .in_memory_visibility()
        .build()
        .unwrap()
        .assemble(at(0), (), &NoRecovery)
        .err()
        .unwrap()
}

#[test]
fn each_failing_request_fails_the_assembly_in_its_own_way() {
    let coordinator_id = schedule_coordinator_workflow_id();
    assert_eq!(
        assembly_error(PartlyFailingStore {
            unreadable: Some(coordinator_id),
            ..PartlyFailingStore::default()
        }),
        EngineError::Store(outage())
    );
    assert_eq!(
        assembly_error(PartlyFailingStore {
            fails_appends: true,
            ..PartlyFailingStore::default()
        }),
        EngineError::Durability(DurabilityError::Store(outage()))
    );
    assert_eq!(
        assembly_error(PartlyFailingStore {
            fails_listing: true,
            ..PartlyFailingStore::default()
        }),
        EngineError::Store(outage())
    );
    let mut kept = InMemoryStore::new();
    bootstrap_schedule_coordinator(&mut kept, at(0)).unwrap();
    let active = fresh_workflow();
    started_handle(&mut kept, active, fresh_run(), 1);
    assert_eq!(
        assembly_error(PartlyFailingStore {
            kept,
            unreadable: Some(active),
            fails_appends: true,
            ..PartlyFailingStore::default()
        }),
        EngineError::Store(outage())
    );
}

#[test]
fn a_listing_fails_with_the_first_unreadable_live_run() {
    let mut kept = InMemoryStore::new();
    let mut registry = Registry::new();
    let unreadable = fresh_workflow();
    registry.insert(started_handle(&mut kept, unreadable, fresh_run(), 1));
    let mut engine = Engine::new(EngineComponents {
        store: PartlyFailingStore {
            kept,
            unreadable: Some(unreadable),
            ..PartlyFailingStore::default()
        },
        visibility_store: InMemoryStore::new(),
        loaded_workflows: (),
        registry,
        supervision: SupervisionTree::new(),
    });
    assert_eq!(
        engine.list_workflows(&WorkflowFilter::default()),
        Err(EngineError::Store(outage()))
    );
}
