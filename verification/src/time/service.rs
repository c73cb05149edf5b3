//! Scheduling, cancelling and firing of durable timers.

use vstd::prelude::*;
use vstd::string::*;

use crate::engine::handles::{first_place, first_place_in_range, of_workflow, own_recorders};
use crate::error::{EngineSeamError, TimerServiceError, TimerServiceErrorView};
use crate::event::{event_views, Event, EventBody, EventEnvelope, EventView};
use crate::ids::{TimerId, TimerIdView, WorkflowId};
use crate::recorder::next_event;
use crate::runtime::timer_bridge::{bridge_recorded, BridgeView, TimerNifBridge};
use crate::seam::{
    residency_in, resolve_in, EngineHandle, MailboxDelivery, MailboxMessageView, TimerWheelEntry,
    TimerWheelEntryView, WorkflowMailboxMessage, WorkflowProcessHandle, WorkflowResidency,
};
use crate::store::{appended_events_are_read_back, failing, history_in, EventStore, StoreCall};
use crate::timestamp::Timestamp;

verus! {

/// The event settles the timer: it fired or was cancelled.
pub open spec fn settles(body: EventBody, timer_id: TimerIdView) -> bool {
    match body {
        EventBody::TimerFired { timer_id: settled } => settled == timer_id,
        EventBody::TimerCancelled { timer_id: settled } => settled == timer_id,
        _ => false,
    }
}

/// The timer fired or was cancelled.
pub open spec fn is_settled(history: Seq<EventView>, timer_id: TimerIdView) -> bool {
    exists|i: int| 0 <= i < history.len() && settles((#[trigger] history[i]).body, timer_id)
}

/// Whether a timer fired or was cancelled.
pub fn timer_is_settled(history: &[Event], timer_id: &TimerId) -> (settled: bool)
    ensures
        settled == is_settled(event_views(history@), timer_id@),
{
    let ghost views = event_views(history@);
    let mut i: usize = 0;
    while i < history.len()
        invariant
            i <= history.len(),
            views == event_views(history@),
            forall|j: int| 0 <= j < i ==> !settles((#[trigger] views[j]).body, timer_id@),
        decreases history.len() - i,
    {
        assert(views[i as int] == history@[i as int]@);
        let settled = match &history[i] {
            Event::TimerFired { timer_id: settled, .. } => settled.same(timer_id),
            Event::TimerCancelled { timer_id: settled, .. } => settled.same(timer_id),
            _ => false,
        };
        if settled {
            return true;
        }
        i += 1;
    }
    false
}

/// A message on its way to a process.
pub struct DeliveryView {
    /// The process.
    pub process: WorkflowProcessHandle,
    /// The message.
    pub message: MailboxMessageView,
}

impl View for MailboxDelivery {
    type V = DeliveryView;

    open spec fn view(&self) -> DeliveryView {
        DeliveryView { process: self.process, message: self.message@ }
    }
}

/// What scheduling a timer comes to: the row is written, and a resident workflow's timer is to be
/// armed.
pub open spec fn scheduled_timer(
    bridge: BridgeView,
    workflow_id: WorkflowId,
    timer_id: TimerIdView,
    fire_at: Timestamp,
) -> (BridgeView, Result<Option<TimerWheelEntryView>, TimerServiceErrorView>) {
    match failing(
        bridge.failures,
        StoreCall::ScheduleTimer { workflow_id, timer_id, fire_at },
    ) {
        Some(error) => (bridge, Err(TimerServiceErrorView::Store(error))),
        None => (
            BridgeView { timers: bridge.timers.insert((workflow_id, timer_id), fire_at), ..bridge },
            Ok(
                match residency_in(bridge.handles, workflow_id) {
                    WorkflowResidency::Resident(process) => Some(
                        TimerWheelEntryView { process, timer_id, fire_at },
                    ),
                    _ => None,
                },
            ),
        ),
    }
}

/// What recording the end of a timer comes to.
pub open spec fn settled_timer(
    bridge: BridgeView,
    workflow_id: WorkflowId,
    recorded_at: Timestamp,
    body: EventBody,
) -> (BridgeView, Result<(), TimerServiceErrorView>) {
    let (after, outcome) = bridge_recorded(bridge, workflow_id, recorded_at, body);
    (
        after,
        match outcome {
            Ok(()) => Ok(()),
            Err(error) => Err(TimerServiceErrorView::Engine(error)),
        },
    )
}

/// What is known of a cancellation.
#[derive(Debug, PartialEq, Eq)]
pub enum CancelEvent {
    /// It is asked for.
    Asked,
    /// The wheel entry of the resident process was to be disarmed, with this outcome.
    Disarmed(Result<(), EngineSeamError>),
}

/// What a caller that cancels a timer does next.
#[derive(Clone, Copy, Debug, PartialEq, Eq)]
pub enum CancelStep {
    /// Nothing: the timer is settled.
    Done,
    /// Disarm the wheel entry of the process.
    Disarm(WorkflowProcessHandle),
}

/// One step of a cancellation. Sleeps are refused; a timer that fired or was cancelled is left alone.
/// The timer of a resident workflow is disarmed first, and recorded as cancelled only behind a
/// disarming that succeeded; any other is recorded right away.
pub open spec fn cancel_step(
    bridge: BridgeView,
    recorded_at: Timestamp,
    workflow_id: WorkflowId,
    timer_id: TimerIdView,
    event: CancelEvent,
) -> (BridgeView, Result<CancelStep, TimerServiceErrorView>) {
    if timer_id is Anonymous {
        (bridge, Err(TimerServiceErrorView::AnonymousTimerNotCancellable { timer_id }))
    } else if let CancelEvent::Disarmed(Err(error)) = event {
        (bridge, Err(TimerServiceErrorView::Engine(error@)))
    } else {
        match failing(bridge.failures, StoreCall::ReadHistory { workflow_id }) {
            Some(error) => (bridge, Err(TimerServiceErrorView::Store(error))),
            None => if is_settled(history_in(bridge.histories, workflow_id), timer_id) {
                (bridge, Ok(CancelStep::Done))
            } else {
                match (event, residency_in(bridge.handles, workflow_id)) {
                    (CancelEvent::Asked, WorkflowResidency::Resident(process)) => (
                        bridge,
                        Ok(CancelStep::Disarm(process)),
                    ),
                    _ => {
                        let (after, outcome) = settled_timer(
                            bridge,
                            workflow_id,
                            recorded_at,
                            EventBody::TimerCancelled { timer_id },
                        );
                        (
                            after,
                            match outcome {
                                Ok(()) => Ok(CancelStep::Done),
                                Err(error) => Err(error),
                            },
                        )
                    },
                }
            },
        }
    }
}

/// What cancelling a timer comes to where disarming succeeds. Sleeps are refused; a timer that fired
/// or was cancelled is left alone; any other is disarmed in the process that is named and then
/// recorded as cancelled.
pub open spec fn cancelled_timer(
    bridge: BridgeView,
    recorded_at: Timestamp,
    workflow_id: WorkflowId,
    timer_id: TimerIdView,
) -> (BridgeView, Result<Option<WorkflowProcessHandle>, TimerServiceErrorView>) {
    if timer_id is Anonymous {
        (bridge, Err(TimerServiceErrorView::AnonymousTimerNotCancellable { timer_id }))
    } else {
        match failing(bridge.failures, StoreCall::ReadHistory { workflow_id }) {
            Some(error) => (bridge, Err(TimerServiceErrorView::Store(error))),
            None => if is_settled(history_in(bridge.histories, workflow_id), timer_id) {
                (bridge, Ok(None))
            } else {
                let (after, outcome) = settled_timer(
                    bridge,
                    workflow_id,
                    recorded_at,
                    EventBody::TimerCancelled { timer_id },
                );
                (
                    after,
                    match outcome {
                        Ok(()) => Ok(
                            match residency_in(bridge.handles, workflow_id) {
                                WorkflowResidency::Resident(process) => Some(process),
                                _ => None,
                            },
                        ),
                        Err(error) => Err(error),
                    },
                )
            },
        }
    }
}

/// What firing a timer comes to. A timer that fired or was cancelled is left alone; any other is
/// recorded as fired and, where the workflow is resident, delivered to its process.
pub open spec fn fired_timer(
    bridge: BridgeView,
    recorded_at: Timestamp,
    workflow_id: WorkflowId,
    timer_id: TimerIdView,
    fire_at: Timestamp,
) -> (BridgeView, Result<Option<DeliveryView>, TimerServiceErrorView>) {
    match failing(bridge.failures, StoreCall::ReadHistory { workflow_id }) {
        Some(error) => (bridge, Err(TimerServiceErrorView::Store(error))),
        None => if is_settled(history_in(bridge.histories, workflow_id), timer_id) {
            (bridge, Ok(None))
        } else {
            let (after, outcome) = settled_timer(
                bridge,
                workflow_id,
                recorded_at,
                EventBody::TimerFired { timer_id },
            );
            (
                after,
                match outcome {
                    Ok(()) => Ok(
                        match residency_in(bridge.handles, workflow_id) {
                            WorkflowResidency::Resident(process) => Some(
                                DeliveryView {
                                    process,
                                    message: MailboxMessageView::TimerFired { timer_id, fire_at },
                                },
                            ),
                            _ => None,
                        },
                    ),
                    Err(error) => Err(error),
                },
            )
        },
    }
}

/// Scheduling, cancelling and firing of durable timers, recorded at a given time.
#[derive(Clone, Copy, Debug)]
pub struct TimerService {
    /// When the events of the service are recorded.
    pub recorded_at: Timestamp,
}

impl TimerService {
    /// A service that records at the given time.
    pub fn with_recorded_at(recorded_at: Timestamp) -> (service: Self)
        ensures
            service.recorded_at == recorded_at,
    {
        TimerService { recorded_at }
    }

    fn envelope(&self, workflow_id: &WorkflowId) -> (envelope: EventEnvelope)
        ensures
            envelope.recorded_at == self.recorded_at,
    {
        EventEnvelope { seq: 0, recorded_at: self.recorded_at, workflow_id: *workflow_id }
    }

    /// Writes the row of a timer; returns the wheel entry of a resident workflow.
    pub fn schedule<S: EventStore>(
        &self,
        bridge: &mut TimerNifBridge<S>,
        workflow_id: &WorkflowId,
        timer_id: &TimerId,
        fire_at: Timestamp,
    ) -> (scheduled: Result<Option<TimerWheelEntry>, TimerServiceError>)
        ensures
            ({
                let (after, outcome) = scheduled_timer(
                    old(bridge)@,
                    *workflow_id,
                    timer_id@,
                    fire_at,
                );
                &&& final(bridge)@ == after
                &&& match outcome {
                    Ok(Some(entry)) => scheduled matches Ok(Some(e)) && e@ == entry,
                    Ok(None) => scheduled matches Ok(None),
                    Err(error) => scheduled matches Err(e) && e@ == error,
                }
            }),
    {
        match bridge.store.schedule_timer(workflow_id, timer_id, fire_at) {
            Ok(()) => {},
            Err(error) => {
                return Err(TimerServiceError::Store(error));
            },
        }
        match resolve_in(&bridge.registry, workflow_id) {
            WorkflowResidency::Resident(process) => Ok(
                Some(TimerWheelEntry { process, timer_id: timer_id.clone(), fire_at }),
            ),
            _ => Ok(None),
        }
    }

    /// Cancels a timer, unless it fired or was cancelled: one step, given what is known so far.
    pub fn cancel<S: EventStore>(
        &self,
        bridge: &mut TimerNifBridge<S>,
        workflow_id: &WorkflowId,
        timer_id: &TimerId,
        event: CancelEvent,
    ) -> (step: Result<CancelStep, TimerServiceError>)
        ensures
            ({
                let (after, outcome) = cancel_step(
                    old(bridge)@,
                    self.recorded_at,
                    *workflow_id,
                    timer_id@,
                    event,
                );
                &&& final(bridge)@ == after
                &&& match outcome {
                    Ok(next) => step == Ok::<CancelStep, TimerServiceError>(next),
                    Err(error) => step matches Err(e) && e@ == error,
                }
            }),
            step == Ok::<CancelStep, TimerServiceError>(CancelStep::Done) ==> is_settled(
                history_in(final(bridge)@.histories, *workflow_id),
                timer_id@,
            ),
            own_recorders(old(bridge)@.handles),
            own_recorders(final(bridge)@.handles),
    {
        proof {
            use_type_invariant(&bridge.registry);
            let before = bridge@;
            if cancel_step(before, self.recorded_at, *workflow_id, timer_id@, event).1
                == Ok::<CancelStep, TimerServiceErrorView>(CancelStep::Done) {
                done_cancellations_are_settled(
                    before,
                    self.recorded_at,
                    *workflow_id,
                    timer_id@,
                    event,
                );
            }
        }
        if timer_id.sequence_position().is_some() {
            return Err(
                TimerServiceError::AnonymousTimerNotCancellable { timer_id: timer_id.clone() },
            );
        }
        let asked = match event {
            CancelEvent::Asked => true,
            CancelEvent::Disarmed(Ok(())) => false,
            CancelEvent::Disarmed(Err(error)) => {
                return Err(TimerServiceError::Engine(error));
            },
        };
        let history = match bridge.store.read_history(workflow_id) {
            Ok(history) => history,
            Err(error) => {
                return Err(TimerServiceError::Store(error));
            },
        };
        if timer_is_settled(history.as_slice(), timer_id) {
            return Ok(CancelStep::Done);
        }
        if asked {
            match resolve_in(&bridge.registry, workflow_id) {
                WorkflowResidency::Resident(process) => {
                    return Ok(CancelStep::Disarm(process));
                },
                _ => {},
            }
        }
        let event = Event::TimerCancelled {
            envelope: self.envelope(workflow_id),
            timer_id: timer_id.clone(),
        };
        let recorded = bridge.record_workflow_event(workflow_id, event);
        proof {
            use_type_invariant(&bridge.registry);
        }
        match recorded {
            Ok(()) => Ok(CancelStep::Done),
            Err(error) => Err(TimerServiceError::Engine(error)),
        }
    }

    /// Fires a timer, unless it fired or was cancelled; returns the message for a resident workflow.
    pub fn fire_timer<S: EventStore>(
        &self,
        bridge: &mut TimerNifBridge<S>,
        workflow_id: &WorkflowId,
        timer_id: &TimerId,
        fire_at: Timestamp,
    ) -> (fired: Result<Option<MailboxDelivery>, TimerServiceError>)
        ensures
            ({
                let (after, outcome) = fired_timer(
                    old(bridge)@,
                    self.recorded_at,
                    *workflow_id,
                    timer_id@,
                    fire_at,
                );
                &&& final(bridge)@ == after
                &&& match outcome {
                    Ok(Some(delivery)) => fired matches Ok(Some(d)) && d@ == delivery,
                    Ok(None) => fired matches Ok(None),
                    Err(error) => fired matches Err(e) && e@ == error,
                }
            }),
            fired is Ok ==> is_settled(
                history_in(final(bridge)@.histories, *workflow_id),
                timer_id@,
            ),
            own_recorders(old(bridge)@.handles),
            own_recorders(final(bridge)@.handles),
    {
        proof {
            use_type_invariant(&bridge.registry);
            let before = bridge@;
            if fired_timer(before, self.recorded_at, *workflow_id, timer_id@, fire_at).1 is Ok {
                fired_timers_are_settled(
                    before,
                    self.recorded_at,
                    *workflow_id,
                    timer_id@,
                    fire_at,
                );
            }
        }
        let history = match bridge.store.read_history(workflow_id) {
            Ok(history) => history,
            Err(error) => {
                return Err(TimerServiceError::Store(error));
            },
        };
        if timer_is_settled(history.as_slice(), timer_id) {
            return Ok(None);
        }
        let residency = resolve_in(&bridge.registry, workflow_id);
        let event = Event::TimerFired {
            envelope: self.envelope(workflow_id),
            timer_id: timer_id.clone(),
        };
        let recorded = bridge.record_workflow_event(workflow_id, event);
        proof {
            use_type_invariant(&bridge.registry);
        }
        match recorded {
            Ok(()) => {},
            Err(error) => {
                return Err(TimerServiceError::Engine(error));
            },
        }
        match residency {
            WorkflowResidency::Resident(process) => Ok(
                Some(
                    MailboxDelivery {
                        process,
                        message: WorkflowMailboxMessage::TimerFired {
                            timer_id: timer_id.clone(),
                            fire_at,
                        },
                    },
                ),
            ),
            _ => Ok(None),
        }
    }
}

/// A timer that was settled stays settled, however its history grows.
pub proof fn settled_timers_stay_settled(
    history: Seq<EventView>,
    later: Seq<EventView>,
    timer_id: TimerIdView,
)
    requires
        is_settled(history, timer_id),
    ensures
        is_settled(history + later, timer_id),
{
    let i = choose|i: int| 0 <= i < history.len() && settles((#[trigger] history[i]).body, timer_id);
    assert((history + later)[i] == history[i]);
}

/// Behind a successful recording of a timer's end the timer is settled.
pub proof fn recorded_end_settles(
    bridge: BridgeView,
    workflow_id: WorkflowId,
    recorded_at: Timestamp,
    body: EventBody,
    timer_id: TimerIdView,
)
    requires
        own_recorders(bridge.handles),
        settles(body, timer_id),
        settled_timer(bridge, workflow_id, recorded_at, body).1 is Ok,
    ensures
        ({
            let after = settled_timer(bridge, workflow_id, recorded_at, body).0;
            &&& is_settled(history_in(after.histories, workflow_id), timer_id)
            &&& after.failures == bridge.failures
        }),
{
    first_place_in_range(bridge.handles, of_workflow(workflow_id));
    let place = first_place(bridge.handles, of_workflow(workflow_id));
    let recorder = bridge.handles[place].recorder;
    let event = next_event(recorder, recorded_at, body);
    assert(recorder.workflow_id == workflow_id);
    appended_events_are_read_back(bridge.histories, workflow_id, workflow_id, seq![event]);
    let before = history_in(bridge.histories, workflow_id);
    assert((before + seq![event])[before.len() as int] == event);
}

/// A timer fires at most once: firing it again records and delivers nothing.
pub proof fn timers_fire_once(
    bridge: BridgeView,
    recorded_at: Timestamp,
    later: Timestamp,
    workflow_id: WorkflowId,
    timer_id: TimerIdView,
    fire_at: Timestamp,
)
    requires
        own_recorders(bridge.handles),
        fired_timer(bridge, recorded_at, workflow_id, timer_id, fire_at).1 is Ok,
    ensures
        ({
            let after = fired_timer(bridge, recorded_at, workflow_id, timer_id, fire_at).0;
            fired_timer(after, later, workflow_id, timer_id, fire_at) == (
                after,
                Ok::<Option<DeliveryView>, TimerServiceErrorView>(None),
            )
        }),
{
    if !is_settled(history_in(bridge.histories, workflow_id), timer_id) {
        recorded_end_settles(
            bridge,
            workflow_id,
            recorded_at,
            EventBody::TimerFired { timer_id },
            timer_id,
        );
    }
}

/// A timer is recorded as cancelled only once it is disarmed: asking for the cancellation of a
/// resident workflow's timer, or failing to disarm it, changes nothing, and disarming it comes to the
/// whole cancellation.
pub proof fn disarming_comes_before_recording(
    bridge: BridgeView,
    recorded_at: Timestamp,
    workflow_id: WorkflowId,
    timer_id: TimerIdView,
    refusal: EngineSeamError,
)
    requires
        residency_in(bridge.handles, workflow_id) is Resident,
    ensures
        cancel_step(bridge, recorded_at, workflow_id, timer_id, CancelEvent::Asked).0 == bridge,
        cancel_step(
            bridge,
            recorded_at,
            workflow_id,
            timer_id,
            CancelEvent::Disarmed(Err(refusal)),
        ).0 == bridge,
        cancel_step(
            bridge,
            recorded_at,
            workflow_id,
            timer_id,
            CancelEvent::Disarmed(Ok(())),
        ).0 == cancelled_timer(bridge, recorded_at, workflow_id, timer_id).0,
{
}

/// A cancelled timer never fires.
pub proof fn cancelled_timers_never_fire(
    bridge: BridgeView,
    recorded_at: Timestamp,
    later: Timestamp,
    workflow_id: WorkflowId,
    timer_id: TimerIdView,
    fire_at: Timestamp,
)
    requires
        own_recorders(bridge.handles),
        cancelled_timer(bridge, recorded_at, workflow_id, timer_id).1 is Ok,
    ensures
        ({
            let after = cancelled_timer(bridge, recorded_at, workflow_id, timer_id).0;
            fired_timer(after, later, workflow_id, timer_id, fire_at) == (
                after,
                Ok::<Option<DeliveryView>, TimerServiceErrorView>(None),
            )
        }),
{
    if !is_settled(history_in(bridge.histories, workflow_id), timer_id) {
        recorded_end_settles(
            bridge,
            workflow_id,
            recorded_at,
            EventBody::TimerCancelled { timer_id },
            timer_id,
        );
    }
}

/// Behind a cancellation that is done the timer is settled.
pub proof fn done_cancellations_are_settled(
    bridge: BridgeView,
    recorded_at: Timestamp,
    workflow_id: WorkflowId,
    timer_id: TimerIdView,
    event: CancelEvent,
)
    requires
        own_recorders(bridge.handles),
        cancel_step(bridge, recorded_at, workflow_id, timer_id, event).1 == Ok::<
            CancelStep,
            TimerServiceErrorView,
        >(CancelStep::Done),
    ensures
        ({
            let after = cancel_step(bridge, recorded_at, workflow_id, timer_id, event).0;
            &&& is_settled(history_in(after.histories, workflow_id), timer_id)
            &&& after.failures == bridge.failures
        }),
{
    if !is_settled(history_in(bridge.histories, workflow_id), timer_id) {
        recorded_end_settles(
            bridge,
            workflow_id,
            recorded_at,
            EventBody::TimerCancelled { timer_id },
            timer_id,
        );
    }
}

/// Behind a firing that succeeds the timer is settled.
pub proof fn fired_timers_are_settled(
    bridge: BridgeView,
    recorded_at: Timestamp,
    workflow_id: WorkflowId,
    timer_id: TimerIdView,
    fire_at: Timestamp,
)
    requires
        own_recorders(bridge.handles),
        fired_timer(bridge, recorded_at, workflow_id, timer_id, fire_at).1 is Ok,
    ensures
        ({
            let after = fired_timer(bridge, recorded_at, workflow_id, timer_id, fire_at).0;
            &&& is_settled(history_in(after.histories, workflow_id), timer_id)
            &&& after.failures == bridge.failures
        }),
{
    if !is_settled(history_in(bridge.histories, workflow_id), timer_id) {
        recorded_end_settles(
            bridge,
            workflow_id,
            recorded_at,
            EventBody::TimerFired { timer_id },
            timer_id,
        );
    }
}

/// Cancelling a named timer that fired or was cancelled ends at once: nothing is disarmed, recorded or
/// changed. A sleep is refused, also without any effect.
pub proof fn settled_timers_are_left_alone(
    bridge: BridgeView,
    recorded_at: Timestamp,
    workflow_id: WorkflowId,
    timer_id: TimerIdView,
)
    requires
        failing(bridge.failures, StoreCall::ReadHistory { workflow_id }) is None,
        is_settled(history_in(bridge.histories, workflow_id), timer_id),
    ensures
        cancel_step(bridge, recorded_at, workflow_id, timer_id, CancelEvent::Asked) == (
            bridge,
            if timer_id is Named {
                Ok(CancelStep::Done)
            } else {
                Err(TimerServiceErrorView::AnonymousTimerNotCancellable { timer_id })
            },
        ),
{
}

/// Cancelling a timer behind a cancellation that is done, or behind a firing, ends at once: nothing is
/// disarmed, recorded or changed.
pub proof fn cancelling_is_idempotent(
    bridge: BridgeView,
    recorded_at: Timestamp,
    later: Timestamp,
    workflow_id: WorkflowId,
    timer_id: TimerIdView,
    event: CancelEvent,
    fire_at: Timestamp,
)
    requires
        own_recorders(bridge.handles),
        timer_id is Named,
    ensures
        ({
            let (after, outcome) = cancel_step(bridge, recorded_at, workflow_id, timer_id, event);
            outcome == Ok::<CancelStep, TimerServiceErrorView>(CancelStep::Done) ==> cancel_step(
                after,
                later,
                workflow_id,
                timer_id,
                CancelEvent::Asked,
            ) == (after, outcome)
        }),
        ({
            let (after, outcome) = fired_timer(
                bridge,
                recorded_at,
                workflow_id,
                timer_id,
                fire_at,
            );
            outcome is Ok ==> cancel_step(
                after,
                later,
                workflow_id,
                timer_id,
                CancelEvent::Asked,
            ) == (after, Ok::<CancelStep, TimerServiceErrorView>(CancelStep::Done))
        }),
{
    if cancel_step(bridge, recorded_at, workflow_id, timer_id, event).1 == Ok::<
        CancelStep,
        TimerServiceErrorView,
    >(CancelStep::Done) {
        done_cancellations_are_settled(bridge, recorded_at, workflow_id, timer_id, event);
    }
    if fired_timer(bridge, recorded_at, workflow_id, timer_id, fire_at).1 is Ok {
        fired_timers_are_settled(bridge, recorded_at, workflow_id, timer_id, fire_at);
    }
}

/// How often a history says that a timer fired or was cancelled.
pub open spec fn settled_count(history: Seq<EventView>, timer_id: TimerIdView) -> nat
    decreases history.len(),
{
    if history.len() == 0 {
        0
    } else {
        settled_count(history.drop_last(), timer_id) + (if settles(history.last().body, timer_id) {
            1nat
        } else {
            0nat
        })
    }
}

proof fn settled_timers_are_counted(history: Seq<EventView>, timer_id: TimerIdView)
    ensures
        is_settled(history, timer_id) <==> settled_count(history, timer_id) > 0,
    decreases history.len(),
{
    if history.len() > 0 {
        let rest = history.drop_last();
        settled_timers_are_counted(rest, timer_id);
        if is_settled(rest, timer_id) {
            let i = choose|i: int| 0 <= i < rest.len() && settles((#[trigger] rest[i]).body, timer_id);
            assert(history[i] == rest[i]);
        }
        if settles(history.last().body, timer_id) {
            assert(settles(history[history.len() - 1].body, timer_id));
        }
        if is_settled(history, timer_id) {
            let i = choose|i: int|
                0 <= i < history.len() && settles((#[trigger] history[i]).body, timer_id);
            if i < rest.len() {
                assert(rest[i] == history[i]);
            }
        }
    }
}

proof fn recording_an_end_counts_once(
    bridge: BridgeView,
    workflow_id: WorkflowId,
    recorded_at: Timestamp,
    body: EventBody,
    ended: TimerIdView,
    other: WorkflowId,
    timer_id: TimerIdView,
)
    requires
        own_recorders(bridge.handles),
        body == (EventBody::TimerFired { timer_id: ended }) || body == (EventBody::TimerCancelled {
            timer_id: ended,
        }),
        !is_settled(history_in(bridge.histories, workflow_id), ended),
        settled_count(history_in(bridge.histories, other), timer_id) <= 1,
    ensures
        settled_count(
            history_in(
                settled_timer(bridge, workflow_id, recorded_at, body).0.histories,
                other,
            ),
            timer_id,
        ) <= 1,
{
    let place = first_place(bridge.handles, of_workflow(workflow_id));
    first_place_in_range(bridge.handles, of_workflow(workflow_id));
    if place < bridge.handles.len() {
        let recorder = bridge.handles[place].recorder;
        assert(recorder.workflow_id == workflow_id);
        let event = next_event(recorder, recorded_at, body);
        appended_events_are_read_back(bridge.histories, workflow_id, other, seq![event]);
        let history = history_in(bridge.histories, other);
        assert((history + seq![event]).drop_last() =~= history);
        assert((history + seq![event]).last() == event);
        settled_timers_are_counted(history, timer_id);
    }
}

/// A timer is settled at most once: where a history tells of at most one end of a timer, it does so
/// behind any cancelling and any firing.
pub proof fn timers_are_settled_once(
    bridge: BridgeView,
    recorded_at: Timestamp,
    workflow_id: WorkflowId,
    ended: TimerIdView,
    event: CancelEvent,
    fire_at: Timestamp,
    other: WorkflowId,
    timer_id: TimerIdView,
)
    requires
        own_recorders(bridge.handles),
        settled_count(history_in(bridge.histories, other), timer_id) <= 1,
    ensures
        settled_count(
            history_in(
                cancel_step(bridge, recorded_at, workflow_id, ended, event).0.histories,
                other,
            ),
            timer_id,
        ) <= 1,
        settled_count(
            history_in(
                fired_timer(bridge, recorded_at, workflow_id, ended, fire_at).0.histories,
                other,
            ),
            timer_id,
        ) <= 1,
{
    if !is_settled(history_in(bridge.histories, workflow_id), ended) {
        recording_an_end_counts_once(
            bridge,
            workflow_id,
            recorded_at,
            EventBody::TimerCancelled { timer_id: ended },
            ended,
            other,
            timer_id,
        );
        recording_an_end_counts_once(
            bridge,
            workflow_id,
            recorded_at,
            EventBody::TimerFired { timer_id: ended },
            ended,
            other,
            timer_id,
        );
    }
}

/// A timer is settled exactly by its own firing or its own cancellation.
pub proof fn timers_are_settled_by_their_own_end(history: Seq<EventView>, timer_id: TimerIdView)
    ensures
        is_settled(history, timer_id) <==> exists|i: int|
            0 <= i < history.len() && ((#[trigger] history[i]).body == (EventBody::TimerFired {
                timer_id,
            }) || history[i].body == (EventBody::TimerCancelled { timer_id })),
{
    if is_settled(history, timer_id) {
        let i = choose|i: int|
            0 <= i < history.len() && settles((#[trigger] history[i]).body, timer_id);
        assert(history[i].body == (EventBody::TimerFired { timer_id }) || history[i].body == (
        EventBody::TimerCancelled { timer_id }));
    }
    if exists|i: int|
        0 <= i < history.len() && ((#[trigger] history[i]).body == (EventBody::TimerFired {
            timer_id,
        }) || history[i].body == (EventBody::TimerCancelled { timer_id })) {
        let i = choose|i: int|
            0 <= i < history.len() && ((#[trigger] history[i]).body == (EventBody::TimerFired {
                timer_id,
            }) || history[i].body == (EventBody::TimerCancelled { timer_id }));
        assert(settles(history[i].body, timer_id));
    }
}

/// A scheduled timer is kept with its due time, and the other timers stay as they were. It is armed,
/// for its process and that time, exactly where its workflow is resident. A store that fails keeps
/// nothing.
pub proof fn scheduled_timers_are_kept(
    bridge: BridgeView,
    workflow_id: WorkflowId,
    timer_id: TimerIdView,
    fire_at: Timestamp,
    other: (WorkflowId, TimerIdView),
)
    ensures
        ({
            let (after, outcome) = scheduled_timer(bridge, workflow_id, timer_id, fire_at);
            let failure = failing(
                bridge.failures,
                StoreCall::ScheduleTimer { workflow_id, timer_id, fire_at },
            );
            let residency = residency_in(bridge.handles, workflow_id);
            &&& outcome is Ok <==> failure is None
            &&& outcome matches Err(error) ==> after == bridge && error
                == TimerServiceErrorView::Store(failure->Some_0)
            &&& outcome is Ok ==> {
                &&& after.timers.contains_key((workflow_id, timer_id))
                &&& after.timers[(workflow_id, timer_id)] == fire_at
                &&& other != (workflow_id, timer_id) ==> (after.timers.contains_key(other)
                    <==> bridge.timers.contains_key(other))
                &&& other != (workflow_id, timer_id) && bridge.timers.contains_key(other)
                    ==> after.timers[other] == bridge.timers[other]
                &&& after.histories == bridge.histories
                &&& after.handles == bridge.handles
                &&& after.failures == bridge.failures
            }
            &&& outcome matches Ok(Some(entry)) ==> residency == WorkflowResidency::Resident(
                entry.process,
            ) && entry.timer_id == timer_id && entry.fire_at == fire_at
            &&& outcome matches Ok(None) ==> !(residency is Resident)
        }),
{
}

/// What recording an event for a workflow does: the event comes last in the history of that workflow,
/// numbered by the recorder of the workflow's first live run, and no other history and no timer
/// changes.
proof fn recorded_ends_come_last(
    bridge: BridgeView,
    workflow_id: WorkflowId,
    recorded_at: Timestamp,
    body: EventBody,
    other: WorkflowId,
)
    requires
        own_recorders(bridge.handles),
        settled_timer(bridge, workflow_id, recorded_at, body).1 is Ok,
    ensures
        ({
            let after = settled_timer(bridge, workflow_id, recorded_at, body).0;
            let history = history_in(after.histories, workflow_id);
            &&& history.len() > 0
            &&& history.drop_last() == history_in(bridge.histories, workflow_id)
            &&& history.last().body == body
            &&& history.last().envelope.recorded_at == recorded_at
            &&& history.last().envelope.workflow_id == workflow_id
            &&& other != workflow_id ==> history_in(after.histories, other) == history_in(
                bridge.histories,
                other,
            )
            &&& after.timers == bridge.timers
            &&& after.failures == bridge.failures
        }),
{
    first_place_in_range(bridge.handles, of_workflow(workflow_id));
    let place = first_place(bridge.handles, of_workflow(workflow_id));
    let recorder = bridge.handles[place].recorder;
    let event = next_event(recorder, recorded_at, body);
    assert(recorder.workflow_id == workflow_id);
    appended_events_are_read_back(bridge.histories, workflow_id, other, seq![event]);
    let before = history_in(bridge.histories, workflow_id);
    assert((before + seq![event]).drop_last() =~= before);
}

/// A timer that fires is recorded as fired, last in the history of its workflow and nowhere else. A
/// resident workflow is told which timer fired and when it was due, and a workflow that is not
/// resident is told nothing.
pub proof fn fired_timers_are_recorded_and_told(
    bridge: BridgeView,
    recorded_at: Timestamp,
    workflow_id: WorkflowId,
    timer_id: TimerIdView,
    fire_at: Timestamp,
    other: WorkflowId,
)
    requires
        own_recorders(bridge.handles),
        !is_settled(history_in(bridge.histories, workflow_id), timer_id),
        fired_timer(bridge, recorded_at, workflow_id, timer_id, fire_at).1 is Ok,
    ensures
        ({
            let (after, told) = fired_timer(bridge, recorded_at, workflow_id, timer_id, fire_at);
            let history = history_in(after.histories, workflow_id);
            let residency = residency_in(bridge.handles, workflow_id);
            &&& history.len() > 0
            &&& history.drop_last() == history_in(bridge.histories, workflow_id)
            &&& history.last().body == (EventBody::TimerFired { timer_id })
            &&& history.last().envelope.recorded_at == recorded_at
            &&& other != workflow_id ==> history_in(after.histories, other) == history_in(
                bridge.histories,
                other,
            )
            &&& after.timers == bridge.timers
            &&& told matches Ok(Some(delivery)) ==> residency == WorkflowResidency::Resident(
                delivery.process,
            ) && delivery.message == (MailboxMessageView::TimerFired { timer_id, fire_at })
            &&& told matches Ok(None) ==> !(residency is Resident)
        }),
{
    recorded_ends_come_last(
        bridge,
        workflow_id,
        recorded_at,
        EventBody::TimerFired { timer_id },
        other,
    );
}

/// A cancellation that goes through is recorded as one, last in the history of the timer's workflow and
/// nowhere else. Before that the process of a resident workflow is disarmed. A sleep is refused.
pub proof fn cancelled_timers_are_recorded(
    bridge: BridgeView,
    recorded_at: Timestamp,
    workflow_id: WorkflowId,
    timer_id: TimerIdView,
    event: CancelEvent,
    other: WorkflowId,
)
    requires
        own_recorders(bridge.handles),
        !is_settled(history_in(bridge.histories, workflow_id), timer_id),
    ensures
        ({
            let (after, step) = cancel_step(bridge, recorded_at, workflow_id, timer_id, event);
            let history = history_in(after.histories, workflow_id);
            let residency = residency_in(bridge.handles, workflow_id);
            &&& timer_id is Anonymous ==> after == bridge && step == Err::<
                CancelStep,
                TimerServiceErrorView,
            >(TimerServiceErrorView::AnonymousTimerNotCancellable { timer_id })
            &&& step matches Ok(CancelStep::Disarm(process)) ==> after == bridge && event is Asked
                && residency == WorkflowResidency::Resident(process)
            &&& event is Asked && residency is Resident ==> !(step matches Ok(CancelStep::Done))
            &&& step matches Ok(CancelStep::Done) ==> {
                &&& history.len() > 0
                &&& history.drop_last() == history_in(bridge.histories, workflow_id)
                &&& history.last().body == (EventBody::TimerCancelled { timer_id })
                &&& history.last().envelope.recorded_at == recorded_at
                &&& other != workflow_id ==> history_in(after.histories, other) == history_in(
                    bridge.histories,
                    other,
                )
                &&& after.timers == bridge.timers
            }
        }),
{
    let (after, step) = cancel_step(bridge, recorded_at, workflow_id, timer_id, event);
    if step matches Ok(CancelStep::Done) {
        recorded_ends_come_last(
            bridge,
            workflow_id,
            recorded_at,
            EventBody::TimerCancelled { timer_id },
            other,
        );
    }
}

/// A cancellation in one go tells the process to disarm, exactly where it recorded the cancellation of a
/// resident workflow's timer.
pub proof fn cancellations_tell_what_to_disarm(
    bridge: BridgeView,
    recorded_at: Timestamp,
    workflow_id: WorkflowId,
    timer_id: TimerIdView,
)
    ensures
        ({
            let (after, outcome) = cancelled_timer(bridge, recorded_at, workflow_id, timer_id);
            let settled = is_settled(history_in(bridge.histories, workflow_id), timer_id);
            let residency = residency_in(bridge.handles, workflow_id);
            &&& timer_id is Anonymous ==> outcome is Err && after == bridge
            &&& outcome is Ok && settled ==> outcome->Ok_0 is None && after == bridge
            &&& outcome matches Ok(Some(process)) ==> !settled && residency
                == WorkflowResidency::Resident(process)
            &&& outcome matches Ok(None) ==> settled || !(residency is Resident)
        }),
{
}

} // verus!
