use std::time::Duration;

use aion::durability::{Command, CorrelationKey, Resolution, ResolveOutcome};
use aion::engine::handles::{ContentHash, HandleResidency, Registry, WorkflowHandle};
use aion::error::{DurabilityError, EngineSeamError, StoreError, TimerServiceError};
use aion::event::{Event, EventEnvelope};
use aion::ids::{RunId, TimerId, WorkflowId};
use aion::memory::InMemoryStore;
use aion::payload::{ContentType, Payload};
use aion::projection::WorkflowStatus;
use aion::recorder::Recorder;
use aion::runtime::nif_timer::{
    add_duration, build_context, call_result, check_arity, decode_duration_arg,
    decode_timer_id_arg, finish_sleep, plan_anonymous, plan_cancel, plan_named, recorded_now,
    resume_cancel_timer, resume_sleep, resume_start_timer, resume_with_timeout, timer_ref,
    ArityCheck, NifResult, NifTimerError, SleepStep,
};
use aion::runtime::timer_bridge::TimerNifBridge;
use aion::seam::{
    EngineHandle, MailboxDelivery, TimerWheelEntry, WorkflowMailboxMessage, WorkflowProcessHandle,
    WorkflowResidency,
};
use aion::store::EventStore;
use aion::time::named::{cancel_timer, sleep, start_timer, SleepTimerError};
use aion::time::recovery::{TimerRecovery, TimerRecoveryError};
use aion::time::service::{timer_is_settled, CancelEvent, CancelStep, TimerService};
use aion::timestamp::{Span, Timestamp};

const RECOVERY_INTERVAL: Duration = Duration::from_millis(10);

fn instant(offset_seconds: i64) -> Timestamp {
    Timestamp::from_timestamp(1_700_000_000 + offset_seconds, 0).unwrap()
}

fn workflow_id() -> WorkflowId {
    WorkflowId::new(uuid::Uuid::new_v4().as_u128())
}

fn service() -> (TimerNifBridge<InMemoryStore>, TimerService) {
    let bridge = TimerNifBridge {
        registry: Registry::new(),
        store: InMemoryStore::new(),
    };
    (bridge, TimerService::with_recorded_at(instant(1)))
}

/// Cancels a timer with a wheel that disarms; returns the process that was asked to.
fn cancel_disarming(
    service: &TimerService,
    bridge: &mut TimerNifBridge<InMemoryStore>,
    workflow_id: &WorkflowId,
    timer_id: &TimerId,
) -> Result<Option<WorkflowProcessHandle>, TimerServiceError> {
    match cancel_timer(service, bridge, workflow_id, timer_id, CancelEvent::Asked)? {
        CancelStep::Done => Ok(None),
        CancelStep::Disarm(process) => {
            let disarmed = CancelEvent::Disarmed(Ok(()));
            assert_eq!(
                cancel_timer(service, bridge, workflow_id, timer_id, disarmed),
                Ok(CancelStep::Done)
            );
            Ok(Some(process))
        }
    }
}

fn handle(workflow_id: WorkflowId, pid: u64, residency: HandleResidency) -> WorkflowHandle {
    WorkflowHandle {
        workflow_id,
        run_id: RunId::new(1),
        pid,
        workflow_type: String::from("checkout"),
        loaded_version: ContentHash { bytes: [0; 32] },
        cached_status: WorkflowStatus::Running,
        residency,
        recorder: Recorder::new(workflow_id),
    }
}

fn set_resident(
    bridge: &mut TimerNifBridge<InMemoryStore>,
    workflow_id: WorkflowId,
    process: WorkflowProcessHandle,
) {
    bridge
        .registry
        .insert(handle(workflow_id, process.pid(), HandleResidency::Resident));
}

fn history(bridge: &TimerNifBridge<InMemoryStore>, workflow_id: &WorkflowId) -> Vec<Event> {
    bridge.store.read_history(workflow_id).unwrap()
}

fn count_cancelled(events: &[Event], timer_id: &TimerId) -> usize {
    events
        .iter()
        .filter(|event| {
            matches!(event, Event::TimerCancelled { timer_id: recorded, .. } if recorded == timer_id)
        })
        .count()
}

fn count_fired(events: &[Event], timer_id: &TimerId) -> usize {
    events
        .iter()
        .filter(|event| {
            matches!(event, Event::TimerFired { timer_id: recorded, .. } if recorded == timer_id)
        })
        .count()
}

#[test]
fn start_timer_preserves_named_id_in_history_and_timer_row() {
    let (mut bridge, service) = service();
    let workflow_id = workflow_id();
    let timer_id = TimerId::named("deadline").unwrap();
    let fire_at = instant(10);

    start_timer(&service, &mut bridge, &workflow_id, &timer_id, fire_at).unwrap();

    let expired = bridge.store.expired_timers(fire_at).unwrap();
    assert_eq!(expired.len(), 1);
    assert_eq!(expired[0].workflow_id, workflow_id);
    assert_eq!(expired[0].timer_id, timer_id);
    assert_eq!(expired[0].fire_at, fire_at);

    // The start of a timer is recorded by the call that resumes it, not by the service.
    assert!(history(&bridge, &workflow_id).is_empty());
}

#[test]
fn cancel_timer_disarms_resident_wheel_and_records_cancelled() {
    let process = WorkflowProcessHandle::new(42);
    let (mut bridge, service) = service();
    let workflow_id = workflow_id();
    let timer_id = TimerId::named("deadline").unwrap();
    let fire_at = instant(20);
    set_resident(&mut bridge, workflow_id, process);

    start_timer(&service, &mut bridge, &workflow_id, &timer_id, fire_at).unwrap();
    let disarmed = cancel_disarming(&service, &mut bridge, &workflow_id, &timer_id).unwrap();

    let history = history(&bridge, &workflow_id);
    assert_eq!(count_cancelled(&history, &timer_id), 1);
    assert!(matches!(
        history.as_slice(),
        [
            Event::TimerCancelled {
                envelope,
                timer_id: recorded,
            }
        ] if envelope.seq == 1 && recorded == &timer_id
    ));
    // The process whose wheel holds the timer was disarmed before the cancellation was recorded.
    assert_eq!(disarmed, Some(process));
}

#[test]
fn cancel_timer_after_fire_is_noop() {
    let process = WorkflowProcessHandle::new(42);
    let (mut bridge, service) = service();
    let workflow_id = workflow_id();
    let timer_id = TimerId::named("deadline").unwrap();
    let fire_at = instant(30);
    set_resident(&mut bridge, workflow_id, process);

    start_timer(&service, &mut bridge, &workflow_id, &timer_id, fire_at).unwrap();
    service
        .fire_timer(&mut bridge, &workflow_id, &timer_id, fire_at)
        .unwrap();

    let disarmed = cancel_disarming(&service, &mut bridge, &workflow_id, &timer_id).unwrap();

    let history = history(&bridge, &workflow_id);
    assert_eq!(count_fired(&history, &timer_id), 1);
    assert_eq!(count_cancelled(&history, &timer_id), 0);
    assert_eq!(disarmed, None);
}

#[test]
fn cancel_timer_after_cancel_is_idempotent_noop() {
    let process = WorkflowProcessHandle::new(42);
    let (mut bridge, service) = service();
    let workflow_id = workflow_id();
    let timer_id = TimerId::named("deadline").unwrap();
    let fire_at = instant(40);
    set_resident(&mut bridge, workflow_id, process);

    start_timer(&service, &mut bridge, &workflow_id, &timer_id, fire_at).unwrap();
    cancel_disarming(&service, &mut bridge, &workflow_id, &timer_id).unwrap();

    let again = cancel_disarming(&service, &mut bridge, &workflow_id, &timer_id).unwrap();

    let history = history(&bridge, &workflow_id);
    assert_eq!(count_cancelled(&history, &timer_id), 1);
    assert_eq!(again, None);
}

#[test]
fn cancel_timer_rejects_anonymous_sleep_timer() {
    let (mut bridge, service) = service();
    let workflow_id = workflow_id();
    let timer_id = TimerId::anonymous(42);

    let result = cancel_disarming(&service, &mut bridge, &workflow_id, &timer_id);

    assert!(matches!(
        result,
        Err(TimerServiceError::AnonymousTimerNotCancellable { timer_id: rejected })
            if rejected == timer_id
    ));
    assert!(history(&bridge, &workflow_id).is_empty());
}

#[test]
fn sleep_derives_anonymous_id_and_fire_at_from_recorded_inputs() {
    let (mut bridge, service) = service();
    let workflow_id = workflow_id();
    let recorded_now = instant(50);
    let duration = Span::from_secs(15);
    let sequence_position = 9;
    let expected_timer_id = TimerId::anonymous(sequence_position);
    let expected_fire_at = instant(65);

    let (scheduled, armed) = sleep(
        &service,
        &mut bridge,
        &workflow_id,
        duration,
        recorded_now,
        sequence_position,
    )
    .unwrap();

    assert_eq!(scheduled.timer_id, expected_timer_id);
    assert_eq!(scheduled.fire_at, expected_fire_at);
    assert_eq!(armed, None);
    assert!(history(&bridge, &workflow_id).is_empty());
}

#[test]
fn the_sleep_of_a_resident_workflow_is_armed() {
    let process = WorkflowProcessHandle::new(42);
    let (mut bridge, service) = service();
    let workflow_id = workflow_id();
    set_resident(&mut bridge, workflow_id, process);

    let (scheduled, armed) = sleep(
        &service,
        &mut bridge,
        &workflow_id,
        Span::from_secs(15),
        instant(50),
        9,
    )
    .unwrap();

    assert_eq!(
        armed,
        Some(TimerWheelEntry {
            process,
            timer_id: scheduled.timer_id,
            fire_at: instant(65),
        })
    );
}

#[test]
fn start_timer_arms_named_timer_without_rewriting_id() {
    let process = WorkflowProcessHandle::new(42);
    let (mut bridge, service) = service();
    let workflow_id = workflow_id();
    let timer_id = TimerId::named("deadline").unwrap();
    let fire_at = instant(70);
    set_resident(&mut bridge, workflow_id, process);

    let armed = start_timer(&service, &mut bridge, &workflow_id, &timer_id, fire_at).unwrap();

    assert_eq!(
        armed,
        Some(TimerWheelEntry {
            process,
            timer_id,
            fire_at,
        })
    );
}

#[test]
fn sleeps_that_do_not_fit_are_refused() {
    let (mut bridge, service) = service();
    let workflow_id = workflow_id();
    assert_eq!(
        sleep(
            &service,
            &mut bridge,
            &workflow_id,
            Span::from_secs(u64::MAX),
            instant(0),
            1
        ),
        Err(SleepTimerError::DurationOutOfRange)
    );
    assert_eq!(
        sleep(
            &service,
            &mut bridge,
            &workflow_id,
            Span::from_millis(i64::MAX as u64),
            instant(0),
            1
        ),
        Err(SleepTimerError::FireAtOutOfRange)
    );
    assert!(bridge
        .store
        .expired_timers(Timestamp::from_timestamp(8_000_000_000_000, 0).unwrap())
        .unwrap()
        .is_empty());
}

#[test]
fn sleep_error_texts() {
    assert_eq!(
        SleepTimerError::DurationOutOfRange.to_string(),
        "sleep duration cannot be represented as a chrono duration"
    );
    assert_eq!(
        SleepTimerError::FireAtOutOfRange.to_string(),
        "sleep fire_at timestamp overflowed recorded workflow time"
    );
    assert!(SleepTimerError::Timer(TimerServiceError::Store(StoreError::Backend(
        String::from("disk")
    )))
    .to_string()
    .starts_with("sleep timer scheduling failed: "));
    assert!(TimerRecoveryError::Store(StoreError::Backend(String::from("disk")))
        .to_string()
        .starts_with("timer recovery store operation failed: "));
    assert!(TimerRecoveryError::Timer(TimerServiceError::Engine(
        EngineSeamError::UnknownWorkflow {
            workflow_id: WorkflowId::new(1)
        }
    ))
    .to_string()
    .starts_with("timer recovery fire operation failed: "));
}

fn recovery() -> (TimerNifBridge<InMemoryStore>, TimerRecovery) {
    let (bridge, service) = service();
    (bridge, TimerRecovery::new(service, RECOVERY_INTERVAL))
}

fn tick_now() -> Timestamp {
    instant(30)
}

#[test]
fn startup_sweep_fires_past_timer_and_delivers() {
    let process = WorkflowProcessHandle::new(42);
    let (mut bridge, recovery) = recovery();
    let workflow_id = workflow_id();
    let timer_id = TimerId::anonymous(1);
    let fire_at = instant(10);
    set_resident(&mut bridge, workflow_id, process);
    bridge
        .store
        .schedule_timer(&workflow_id, &timer_id, fire_at)
        .unwrap();

    let mut delivered = Vec::new();
    let recovered = recovery
        .recover_on_startup(&mut bridge, instant(20), &mut delivered)
        .unwrap();

    assert_eq!(recovered, 1);
    assert_eq!(count_fired(&history(&bridge, &workflow_id), &timer_id), 1);
    assert_eq!(
        delivered,
        vec![MailboxDelivery {
            process,
            message: WorkflowMailboxMessage::TimerFired { timer_id, fire_at }
        }]
    );
}

#[test]
fn startup_sweep_does_not_fire_future_timer() {
    let process = WorkflowProcessHandle::new(42);
    let (mut bridge, recovery) = recovery();
    let workflow_id = workflow_id();
    let timer_id = TimerId::anonymous(2);
    set_resident(&mut bridge, workflow_id, process);
    bridge
        .store
        .schedule_timer(&workflow_id, &timer_id, instant(30))
        .unwrap();

    let mut delivered = Vec::new();
    let recovered = recovery
        .recover_on_startup(&mut bridge, instant(20), &mut delivered)
        .unwrap();

    assert_eq!(recovered, 0);
    assert_eq!(count_fired(&history(&bridge, &workflow_id), &timer_id), 0);
    assert!(delivered.is_empty());
}

#[test]
fn tick_uses_injected_clock_and_fires_newly_due_timer_once() {
    let process = WorkflowProcessHandle::new(42);
    let (mut bridge, recovery) = recovery();
    let workflow_id = workflow_id();
    let timer_id = TimerId::anonymous(3);
    let fire_at = instant(25);
    set_resident(&mut bridge, workflow_id, process);
    bridge
        .store
        .schedule_timer(&workflow_id, &timer_id, fire_at)
        .unwrap();

    let mut delivered = Vec::new();
    assert_eq!(recovery.recovery_interval(), RECOVERY_INTERVAL);
    assert_eq!(
        recovery.tick(&mut bridge, tick_now(), &mut delivered),
        Ok(1)
    );
    assert_eq!(
        recovery.tick(&mut bridge, tick_now(), &mut delivered),
        Ok(1)
    );

    assert_eq!(count_fired(&history(&bridge, &workflow_id), &timer_id), 1);
    assert_eq!(delivered.len(), 1);
}

#[test]
fn running_startup_sweep_twice_fires_due_timer_once_total() {
    let process = WorkflowProcessHandle::new(42);
    let (mut bridge, recovery) = recovery();
    let workflow_id = workflow_id();
    let timer_id = TimerId::anonymous(4);
    let fire_at = instant(10);
    set_resident(&mut bridge, workflow_id, process);
    bridge
        .store
        .schedule_timer(&workflow_id, &timer_id, fire_at)
        .unwrap();

    let mut delivered = Vec::new();
    recovery
        .recover_on_startup(&mut bridge, instant(20), &mut delivered)
        .unwrap();
    recovery
        .recover_on_startup(&mut bridge, instant(20), &mut delivered)
        .unwrap();

    assert_eq!(count_fired(&history(&bridge, &workflow_id), &timer_id), 1);
    assert_eq!(delivered.len(), 1);
}

#[test]
fn cancelled_timer_is_never_fired_by_recovery() {
    let process = WorkflowProcessHandle::new(42);
    let (mut bridge, recovery) = recovery();
    let workflow_id = workflow_id();
    let timer_id = TimerId::anonymous(5);
    let fire_at = instant(10);
    set_resident(&mut bridge, workflow_id, process);
    bridge
        .store
        .schedule_timer(&workflow_id, &timer_id, fire_at)
        .unwrap();
    bridge
        .record_workflow_event(
            &workflow_id,
            Event::TimerCancelled {
                envelope: EventEnvelope {
                    seq: 1,
                    recorded_at: instant(9),
                    workflow_id: workflow_id.clone(),
                },
                timer_id: timer_id.clone(),
            },
        )
        .unwrap();

    let mut delivered = Vec::new();
    recovery
        .recover_on_startup(&mut bridge, instant(20), &mut delivered)
        .unwrap();

    assert_eq!(count_fired(&history(&bridge, &workflow_id), &timer_id), 0);
    assert!(delivered.is_empty());
}

#[test]
fn a_suspended_workflow_is_recorded_but_not_woken() {
    let (mut bridge, recovery) = recovery();
    let id = workflow_id();
    let timer_id = TimerId::anonymous(6);
    bridge
        .registry
        .insert(handle(id, 42, HandleResidency::Suspended));
    assert_eq!(
        bridge.resolve_workflow(&id),
        Ok(WorkflowResidency::NonResident)
    );
    bridge
        .store
        .schedule_timer(&id, &timer_id, instant(10))
        .unwrap();
    let mut delivered = Vec::new();
    assert_eq!(
        recovery.recover_on_startup(&mut bridge, instant(20), &mut delivered),
        Ok(1)
    );
    assert!(delivered.is_empty());
    let events = history(&bridge, &id);
    assert!(timer_is_settled(&events, &timer_id));
    assert!(!timer_is_settled(&events, &TimerId::anonymous(7)));
}

#[test]
fn a_sweep_stops_at_a_workflow_that_is_not_live() {
    let (mut bridge, recovery) = recovery();
    let id = WorkflowId::new(9);
    bridge
        .store
        .schedule_timer(&id, &TimerId::anonymous(1), instant(10))
        .unwrap();
    let mut delivered = Vec::new();
    assert_eq!(
        recovery.recover_on_startup(&mut bridge, instant(20), &mut delivered),
        Err(TimerRecoveryError::Timer(TimerServiceError::Engine(
            EngineSeamError::UnknownWorkflow { workflow_id: id }
        )))
    );
}

#[test]
fn the_bridge_records_only_the_ends_of_timers() {
    let (mut bridge, _) = service();
    let id = workflow_id();
    set_resident(&mut bridge, id, WorkflowProcessHandle::new(1));
    let refused = bridge.record_workflow_event(
        &id,
        Event::SignalReceived {
            envelope: EventEnvelope {
                seq: 1,
                recorded_at: instant(1),
                workflow_id: id,
            },
            name: String::from("go"),
            payload: Payload::new(ContentType::Json, b"{}".to_vec()),
        },
    );
    assert_eq!(
        refused,
        Err(EngineSeamError::Recorder {
            reason: String::from("timer NIF bridge cannot record non-timer")
        })
    );
    assert!(bridge.spawn_child_workflow("checkout").is_err());
    assert!(bridge
        .terminate_linked_child_workflow(&id, WorkflowProcessHandle::new(1), 1)
        .is_err());
    assert!(bridge.terminate_linked_activity(&id, 1, 1).is_err());
    assert_eq!(
        bridge.resolve_workflow(&WorkflowId::new(77)),
        Ok(WorkflowResidency::Unknown)
    );
}

fn started_bridge(id: WorkflowId) -> TimerNifBridge<InMemoryStore> {
    let mut bridge = TimerNifBridge {
        registry: Registry::new(),
        store: InMemoryStore::new(),
    };
    let mut live = handle(id, 42, HandleResidency::Resident);
    live.recorder
        .record_workflow_started(
            &mut bridge.store,
            &mut InMemoryStore::new(),
            instant(5),
            String::from("checkout"),
            Payload::new(ContentType::Json, b"{}".to_vec()),
            RunId::new(1),
        )
        .unwrap();
    bridge.registry.insert(live);
    bridge
}

fn arg(text: &str) -> Result<String, String> {
    Ok(String::from(text))
}

#[test]
fn arguments_of_timer_calls_are_decoded() {
    assert_eq!(
        decode_duration_arg("sleep duration", arg("1500")),
        Ok(Span::from_millis(1500))
    );
    assert_eq!(
        decode_duration_arg("sleep duration", arg("soon")),
        Err(NifTimerError::Argument(String::from(
            "sleep duration: invalid digit found in string"
        )))
    );
    assert_eq!(
        decode_duration_arg("sleep duration", Err(String::from("sleep duration: not text"))),
        Err(NifTimerError::Argument(String::from(
            "sleep duration: not text"
        )))
    );
    assert_eq!(
        decode_timer_id_arg("start_timer timer_id", arg("deadline")),
        Ok(TimerId::named("deadline").unwrap())
    );
    assert_eq!(
        decode_timer_id_arg("start_timer timer_id", arg("timer:named:deadline")),
        Ok(TimerId::named("deadline").unwrap())
    );
    assert_eq!(
        decode_timer_id_arg("start_timer timer_id", arg("timer:named:")),
        Err(NifTimerError::Argument(String::from(
            "start_timer timer_id: timer name must not be empty"
        )))
    );
    assert_eq!(timer_ref(&TimerId::named("deadline").unwrap()), "deadline");
    assert_eq!(timer_ref(&TimerId::anonymous(3)), "anonymous");
}

#[test]
fn calls_are_checked_for_their_arity() {
    assert_eq!(check_arity("sleep/1", 1, 1), ArityCheck::Accepted);
    assert!(!matches!(
        check_arity("sleep/1", 1, 2),
        ArityCheck::Accepted
    ));
}

#[test]
fn calls_need_a_registered_process() {
    let bridge = started_bridge(WorkflowId::new(1));
    assert_eq!(build_context(&bridge, Some(42)), Ok(0));
    assert_eq!(
        build_context(&bridge, None),
        Err(NifTimerError::Context(String::from("missing calling pid")))
    );
    assert_eq!(
        build_context(&bridge, Some(7)),
        Err(NifTimerError::Context(String::from(
            "no workflow is registered for process 7"
        )))
    );
}

#[test]
fn recorded_time_is_that_of_the_last_event() {
    let bridge = started_bridge(WorkflowId::new(1));
    assert_eq!(recorded_now(&bridge, 0), Ok(instant(5)));
    let (mut empty, _) = service();
    set_resident(&mut empty, WorkflowId::new(2), WorkflowProcessHandle::new(3));
    assert_eq!(recorded_now(&empty, 0), Ok(Timestamp::unix_epoch()));
    assert_eq!(add_duration(instant(5), Span::from_secs(2)), Ok(instant(7)));
    assert_eq!(
        add_duration(instant(5), Span::from_secs(u64::MAX)),
        Err(NifTimerError::Argument(String::from(
            "duration is out of range"
        )))
    );
}

#[test]
fn a_sleep_starts_its_timer_and_fires_it() {
    let id = WorkflowId::new(1);
    let mut bridge = started_bridge(id);
    let plan = plan_anonymous(&bridge, 0, "sleep duration", arg("3000")).unwrap();
    assert_eq!(plan.timer_id(), &TimerId::anonymous(1));
    assert_eq!(plan.fire_at(), instant(8));
    assert_eq!(
        plan.command(),
        Command::StartTimer {
            key: CorrelationKey::Timer(TimerId::anonymous(1)),
            fire_at: instant(8)
        }
    );
    assert_eq!(
        resume_sleep(&mut bridge, 0, &plan, Ok(ResolveOutcome::ResumeLive)),
        Ok(SleepStep::Wait(Span::from_secs(3)))
    );
    assert_eq!(
        finish_sleep(&mut bridge, 0, &plan),
        Ok(NifResult::Value(String::from("fired")))
    );
    let events = history(&bridge, &id);
    assert_eq!(events.len(), 3);
    assert!(matches!(&events[1], Event::TimerStarted { fire_at, .. } if *fire_at == instant(8)));
    assert!(matches!(&events[2], Event::TimerFired { .. }));
    assert_eq!(events[2].recorded_at(), instant(8));
}

#[test]
fn a_recorded_sleep_is_not_run_again() {
    let mut bridge = started_bridge(WorkflowId::new(1));
    let plan = plan_anonymous(&bridge, 0, "sleep duration", arg("3000")).unwrap();
    let replayed = |resolution: Resolution| Ok(ResolveOutcome::Recorded(resolution));
    assert_eq!(
        resume_sleep(&mut bridge, 0, &plan, replayed(Resolution::TimerFired)),
        Ok(SleepStep::Done(NifResult::Value(String::from("fired"))))
    );
    assert_eq!(
        resume_sleep(&mut bridge, 0, &plan, replayed(Resolution::TimerCancelled)),
        Ok(SleepStep::Done(NifResult::Failure(String::from(
            "cancelled"
        ))))
    );
    assert_eq!(
        resume_sleep(&mut bridge, 0, &plan, replayed(Resolution::TimerStarted)),
        Ok(SleepStep::Done(NifResult::Failure(String::from(
            "sleep history mismatch"
        ))))
    );
    assert_eq!(history(&bridge, &WorkflowId::new(1)).len(), 1);
}

#[test]
fn a_named_timer_is_started_and_cancelled() {
    let id = WorkflowId::new(1);
    let mut bridge = started_bridge(id);
    let plan = plan_named(&bridge, 0, arg("deadline"), arg("1000")).unwrap();
    assert_eq!(
        resume_start_timer(&mut bridge, 0, &plan, Ok(ResolveOutcome::ResumeLive)),
        Ok(NifResult::Value(String::from("deadline")))
    );
    let (timer_id, _) = plan_cancel(&bridge, 0, arg("deadline")).unwrap();
    assert_eq!(
        resume_cancel_timer(&mut bridge, 0, &timer_id, Ok(ResolveOutcome::ResumeLive)),
        Ok(NifResult::Value(String::from("cancelled")))
    );
    let events = history(&bridge, &id);
    assert!(matches!(&events[1], Event::TimerStarted { .. }));
    assert!(matches!(&events[2], Event::TimerCancelled { .. }));
}

#[test]
fn a_timeout_settles_its_timer() {
    let id = WorkflowId::new(1);
    let mut bridge = started_bridge(id);
    let plan = plan_anonymous(&bridge, 0, "with_timeout duration", arg("1000")).unwrap();
    assert_eq!(
        resume_with_timeout(&mut bridge, 0, &plan, "done", Ok(ResolveOutcome::ResumeLive)),
        Ok(NifResult::Value(String::from("done")))
    );
    let next = plan_anonymous(&bridge, 0, "with_timeout duration", arg("1000")).unwrap();
    assert_eq!(
        resume_with_timeout(
            &mut bridge,
            0,
            &next,
            "timeout",
            Ok(ResolveOutcome::ResumeLive)
        ),
        Ok(NifResult::Failure(String::from("timeout")))
    );
    let events = history(&bridge, &id);
    assert!(timer_is_settled(&events, plan.timer_id()));
    assert!(timer_is_settled(&events, next.timer_id()));
    let zero = plan_anonymous(&bridge, 0, "with_timeout duration", arg("0")).unwrap();
    assert_eq!(
        resume_with_timeout(&mut bridge, 0, &zero, "done", Ok(ResolveOutcome::ResumeLive)),
        Ok(NifResult::Failure(String::from("timeout")))
    );
}

#[test]
fn call_errors_become_failures() {
    assert_eq!(
        call_result(Err(NifTimerError::Context(String::from(
            "missing calling pid"
        )))),
        NifResult::Failure(String::from("context:missing calling pid"))
    );
    assert_eq!(
        call_result(Ok(NifResult::Value(String::from("fired")))),
        NifResult::Value(String::from("fired"))
    );
    assert_eq!(
        NifTimerError::Argument(String::from("bad")).to_string(),
        "argument:bad"
    );
    assert!(NifTimerError::Durability(DurabilityError::Store(
        StoreError::SequenceConflict {
            expected: 1,
            found: 2
        }
    ))
    .to_string()
    .starts_with("durability:"));
    assert_eq!(
        NifTimerError::Sleep(SleepTimerError::DurationOutOfRange).to_string(),
        "sleep:sleep duration cannot be represented as a chrono duration"
    );
    assert!(NifTimerError::Timer(TimerServiceError::AnonymousTimerNotCancellable {
        timer_id: TimerId::anonymous(3)
    })
    .to_string()
    .starts_with("timer:"));
}

#[test]
fn durations_are_read_as_numbers() {
    assert_eq!(
        decode_duration_arg("sleep duration", arg("+5")),
        Ok(Span::from_millis(5))
    );
    assert_eq!(
        decode_duration_arg("sleep duration", arg("0018446744073709551615")),
        Ok(Span::from_millis(u64::MAX))
    );
    assert_eq!(
        decode_duration_arg("sleep duration", arg("18446744073709551616")),
        Err(NifTimerError::Argument(String::from(
            "sleep duration: number too large to fit in target type"
        )))
    );
    for text in ["", "+", "-1", "1 ", "1.5"] {
        assert!(decode_duration_arg("sleep duration", arg(text)).is_err());
    }
}

#[test]
fn a_timer_that_cannot_be_disarmed_is_not_cancelled() {
    let process = WorkflowProcessHandle::new(42);
    let (mut bridge, service) = service();
    let workflow_id = workflow_id();
    let timer_id = TimerId::named("deadline").unwrap();
    set_resident(&mut bridge, workflow_id, process);
    start_timer(&service, &mut bridge, &workflow_id, &timer_id, instant(20)).unwrap();

    let asked = cancel_timer(&service, &mut bridge, &workflow_id, &timer_id, CancelEvent::Asked);
    assert_eq!(asked, Ok(CancelStep::Disarm(process)));
    assert!(history(&bridge, &workflow_id).is_empty());

    let refusal = || EngineSeamError::TimerWheel {
        reason: String::from("wheel is gone"),
    };
    let refused = cancel_timer(
        &service,
        &mut bridge,
        &workflow_id,
        &timer_id,
        CancelEvent::Disarmed(Err(refusal())),
    );
    assert_eq!(refused, Err(TimerServiceError::Engine(refusal())));
    assert!(history(&bridge, &workflow_id).is_empty());
}
