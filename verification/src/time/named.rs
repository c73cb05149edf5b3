//! Named, cancellable timers and anonymous sleeps.

use vstd::prelude::*;
use vstd::string::*;

use crate::engine::handles::own_recorders;
use crate::error::{TimerServiceError, TimerServiceErrorView};
use crate::ids::{TimerId, TimerIdView, WorkflowId};
use crate::runtime::timer_bridge::TimerNifBridge;
use crate::seam::{TimerWheelEntry, TimerWheelEntryView};
use crate::store::{history_in, EventStore};
use crate::text::joined;
use crate::time::service::{
    cancel_step, is_settled, scheduled_timer, CancelEvent, CancelStep, TimerService,
};
use crate::timestamp::{
    spans_are_added_to_instants, Span, SpanError, Timestamp, MAX_SECS, MAX_SPAN_NANOS,
    MAX_SPAN_SECS,
};

verus! {

/// A sleep that was scheduled.
#[derive(Debug, PartialEq, Eq)]
pub struct SleepTimer {
    /// Anonymous timer, named by its position.
    pub timer_id: TimerId,
    /// When the sleep ends.
    pub fire_at: Timestamp,
}

/// Failure of a sleep.
#[derive(Debug, PartialEq, Eq)]
pub enum SleepTimerError {
    /// The duration is too long to be represented.
    DurationOutOfRange,
    /// The sleep would end behind the last representable instant.
    FireAtOutOfRange,
    /// The timer could not be scheduled.
    Timer(TimerServiceError),
}

/// Mathematical value of a [`SleepTimerError`].
pub enum SleepTimerErrorView {
    /// The duration is too long to be represented.
    DurationOutOfRange,
    /// The sleep would end behind the last representable instant.
    FireAtOutOfRange,
    /// The timer could not be scheduled.
    Timer(TimerServiceErrorView),
}

impl View for SleepTimerError {
    type V = SleepTimerErrorView;

    open spec fn view(&self) -> SleepTimerErrorView {
        match self {
            SleepTimerError::DurationOutOfRange => SleepTimerErrorView::DurationOutOfRange,
            SleepTimerError::FireAtOutOfRange => SleepTimerErrorView::FireAtOutOfRange,
            SleepTimerError::Timer(error) => SleepTimerErrorView::Timer(error@),
        }
    }
}

impl SleepTimerErrorView {
    /// The text under which the failure is reported.
    pub open spec fn text(self) -> Seq<char> {
        match self {
            SleepTimerErrorView::DurationOutOfRange =>
                "sleep duration cannot be represented as a chrono duration"@,
            SleepTimerErrorView::FireAtOutOfRange =>
                "sleep fire_at timestamp overflowed recorded workflow time"@,
            SleepTimerErrorView::Timer(error) => "sleep timer scheduling failed: "@ + error.text(),
        }
    }
}

impl SleepTimerError {
    /// The text under which the failure is reported.
    pub fn to_string(&self) -> (text: String)
        ensures
            text@ == self@.text(),
    {
        match self {
            SleepTimerError::DurationOutOfRange =>
                "sleep duration cannot be represented as a chrono duration".to_owned(),
            SleepTimerError::FireAtOutOfRange =>
                "sleep fire_at timestamp overflowed recorded workflow time".to_owned(),
            SleepTimerError::Timer(error) => joined(
                "sleep timer scheduling failed: ",
                error.to_string().as_str(),
            ),
        }
    }
}

/// Starts a named timer; its name is kept as it is. Returns the wheel entry of a resident workflow.
pub fn start_timer<S: EventStore>(
    service: &TimerService,
    bridge: &mut TimerNifBridge<S>,
    workflow_id: &WorkflowId,
    timer_id: &TimerId,
    fire_at: Timestamp,
) -> (started: Result<Option<TimerWheelEntry>, TimerServiceError>)
    ensures
        ({
            let (after, outcome) = scheduled_timer(
                old(bridge)@,
                *workflow_id,
                timer_id@,
                fire_at,
            );
            &&& final(bridge)@ == after
            &&& match outcome {
                Ok(Some(entry)) => started matches Ok(Some(e)) && e@ == entry,
                Ok(None) => started matches Ok(None),
                Err(error) => started matches Err(e) && e@ == error,
            }
        }),
{
    service.schedule(bridge, workflow_id, timer_id, fire_at)
}

/// Cancels a named timer, unless it fired or was cancelled: one step, given what is known so far. The
/// timer of a resident workflow is disarmed before its cancellation is recorded.
pub fn cancel_timer<S: EventStore>(
    service: &TimerService,
    bridge: &mut TimerNifBridge<S>,
    workflow_id: &WorkflowId,
    timer_id: &TimerId,
    event: CancelEvent,
) -> (step: Result<CancelStep, TimerServiceError>)
    ensures
        ({
            let (after, outcome) = cancel_step(
                old(bridge)@,
                service.recorded_at,
                *workflow_id,
                timer_id@,
                event,
            );
            &&& final(bridge)@ == after
            &&& match outcome {
                Ok(next) => step == Ok::<CancelStep, TimerServiceError>(next),
                Err(error) => step matches Err(e) && e@ == error,
            }
        }),
        step == Ok::<CancelStep, TimerServiceError>(CancelStep::Done) ==> is_settled(
            history_in(final(bridge)@.histories, *workflow_id),
            timer_id@,
        ),
        own_recorders(old(bridge)@.handles),
        own_recorders(final(bridge)@.handles),
{
    service.cancel(bridge, workflow_id, timer_id, event)
}

/// The timer of a sleep: named by its position, and due the duration after the recorded time.
pub open spec fn sleep_ends(recorded_now: Timestamp, duration: Span) -> Result<
    (int, int),
    SleepTimerErrorView,
> {
    match recorded_now.after_spec(duration) {
        Ok(end) => Ok(end),
        Err(SpanError::SpanOutOfRange) => Err(SleepTimerErrorView::DurationOutOfRange),
        Err(SpanError::InstantOutOfRange) => Err(SleepTimerErrorView::FireAtOutOfRange),
    }
}

/// Mathematical value of a wheel entry that there may be.
pub open spec fn wheel_view(entry: Option<TimerWheelEntry>) -> Option<TimerWheelEntryView> {
    match entry {
        Some(entry) => Some(entry@),
        None => None,
    }
}

/// Schedules a sleep from the recorded time and the position of the calling workflow, so that a
/// replay arrives at the same timer. Returns the wheel entry of a resident workflow beside it.
pub fn sleep<S: EventStore>(
    service: &TimerService,
    bridge: &mut TimerNifBridge<S>,
    workflow_id: &WorkflowId,
    duration: Span,
    recorded_now: Timestamp,
    sequence_position: u64,
) -> (sleep: Result<(SleepTimer, Option<TimerWheelEntry>), SleepTimerError>)
    ensures
        match sleep_ends(recorded_now, duration) {
            Err(error) => sleep matches Err(e) && e@ == error && final(bridge)@ == old(bridge)@,
            Ok((secs, nanos)) => exists|fire_at: Timestamp|
                #![trigger fire_at.seconds()]
                {
                    let timer_id = TimerIdView::Anonymous(sequence_position);
                    let (after, outcome) = scheduled_timer(
                        old(bridge)@,
                        *workflow_id,
                        timer_id,
                        fire_at,
                    );
                    &&& fire_at.seconds() == secs
                    &&& fire_at.subsec_nanos() == nanos
                    &&& final(bridge)@ == after
                    &&& match outcome {
                        Ok(entry) => sleep matches Ok((slept, armed)) && slept.timer_id@ == timer_id
                            && slept.fire_at == fire_at && wheel_view(armed) == entry,
                        Err(error) => sleep matches Err(e) && e@ == SleepTimerErrorView::Timer(
                            error,
                        ),
                    }
                },
        },
{
    let fire_at = match recorded_now.after(duration) {
        Ok(fire_at) => fire_at,
        Err(SpanError::SpanOutOfRange) => {
            return Err(SleepTimerError::DurationOutOfRange);
        },
        Err(SpanError::InstantOutOfRange) => {
            return Err(SleepTimerError::FireAtOutOfRange);
        },
    };
    let ghost seconds = fire_at.seconds();
    let timer_id = TimerId::anonymous(sequence_position);
    match service.schedule(bridge, workflow_id, &timer_id, fire_at) {
        Ok(entry) => Ok((SleepTimer { timer_id, fire_at }, entry)),
        Err(error) => Err(SleepTimerError::Timer(error)),
    }
}

/// A sleep ends its duration behind the recorded time. It is refused exactly where the duration is too
/// long, or where it would end behind the last representable instant.
pub proof fn sleeps_end_their_duration_later(recorded_now: Timestamp, duration: Span)
    requires
        0 <= recorded_now.subsec_nanos() < 1_000_000_000,
        0 <= duration.sub_nanos() < 1_000_000_000,
    ensures
        ({
            let length = duration.whole_secs() * 1_000_000_000 + duration.sub_nanos();
            let end = recorded_now.seconds() * 1_000_000_000 + recorded_now.subsec_nanos() + length;
            let longest = MAX_SPAN_SECS * 1_000_000_000 + MAX_SPAN_NANOS;
            match sleep_ends(recorded_now, duration) {
                Ok((secs, nanos)) => secs * 1_000_000_000 + nanos == end && length <= longest
                    && end < (MAX_SECS + 1) * 1_000_000_000,
                Err(SleepTimerErrorView::DurationOutOfRange) => length > longest,
                Err(SleepTimerErrorView::FireAtOutOfRange) => length <= longest && end >= (MAX_SECS
                    + 1) * 1_000_000_000,
                Err(SleepTimerErrorView::Timer(_)) => false,
            }
        }),
{
    spans_are_added_to_instants(recorded_now, duration);
}

/// The text of a failed sleep says why it could not be scheduled.
pub proof fn failed_sleeps_say_why(error: TimerServiceErrorView)
    ensures
        SleepTimerErrorView::Timer(error).text() == "sleep timer scheduling failed: "@
            + error.text(),
        SleepTimerErrorView::DurationOutOfRange.text()
            == "sleep duration cannot be represented as a chrono duration"@,
        SleepTimerErrorView::FireAtOutOfRange.text()
            == "sleep fire_at timestamp overflowed recorded workflow time"@,
{
}

} // verus!
