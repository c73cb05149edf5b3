//! Timer calls of workflow code: `sleep`, `start_timer`, `cancel_timer` and `with_timeout`.
//!
//! Each call plans its timer from the arguments and the recorded history, asks whether the history
//! already resolves it, and only carries it out where it does not.

use vstd::prelude::*;
use vstd::string::*;

use crate::durability::{timer_command, Command, CorrelationKey, Resolution, ResolveOutcome};
use crate::engine::handles::{
    first_place, first_place_in_range, of_process, of_workflow, own_recorders,
};
use crate::error::{
    DurabilityError, DurabilityErrorView, StoreErrorView, TimerServiceError, TimerServiceErrorView,
};
use crate::event::{event_views, EventBody, EventView};
use crate::ids::{IdError, Pid, TimerId, TimerIdView};
use crate::recorder::next_event;
use crate::runtime::timer_bridge::{recorded_at_place, BridgeView, TimerNifBridge};
use crate::seam::EngineHandle;
use crate::store::{appended_events_are_read_back, failing, history_in, EventStore, StoreCall};
use crate::text::{
    decimal, decimal_text, decimals_are_read_back, joined, parse_refusal, parse_u64, parsed_u64,
    same_text, without_prefix,
};
use crate::time::named::{
    cancel_timer as cancel_named, sleep as schedule_sleep, start_timer as start_named,
    wheel_view, SleepTimerError, SleepTimerErrorView,
};
use crate::time::service::{
    cancelled_timer, is_settled, recorded_end_settles, scheduled_timer, CancelEvent, CancelStep,
    TimerService,
};
use crate::timestamp::{moved, timestamp_by_parts, Span, SpanError, Timestamp};

verus! {

/// What a timer call hands back to workflow code.
#[derive(Debug, PartialEq, Eq)]
pub enum NifResult {
    /// Success, with a text.
    Value(String),
    /// Failure, with a text.
    Failure(String),
}

/// Mathematical value of a [`NifResult`].
pub enum NifResultView {
    /// Success, with a text.
    Value(Seq<char>),
    /// Failure, with a text.
    Failure(Seq<char>),
}

impl View for NifResult {
    type V = NifResultView;

    open spec fn view(&self) -> NifResultView {
        match self {
            NifResult::Value(text) => NifResultView::Value(text@),
            NifResult::Failure(text) => NifResultView::Failure(text@),
        }
    }
}

fn ok_result(text: &str) -> (result: NifResult)
    ensures
        result@ == NifResultView::Value(text@),
{
    NifResult::Value(text.to_owned())
}

fn error_result(text: &str) -> (result: NifResult)
    ensures
        result@ == NifResultView::Failure(text@),
{
    NifResult::Failure(text.to_owned())
}

/// Failure of a timer call.
#[derive(Debug, PartialEq, Eq)]
pub enum NifTimerError {
    /// An argument is malformed.
    Argument(String),
    /// The calling process cannot be served.
    Context(String),
    /// The recorder failed.
    Durability(DurabilityError),
    /// The timer service failed.
    Timer(TimerServiceError),
    /// A sleep could not be scheduled.
    Sleep(SleepTimerError),
}

/// Mathematical value of a [`NifTimerError`].
pub enum NifTimerErrorView {
    /// An argument is malformed.
    Argument(Seq<char>),
    /// The calling process cannot be served.
    Context(Seq<char>),
    /// The recorder failed.
    Durability(DurabilityErrorView),
    /// The timer service failed.
    Timer(TimerServiceErrorView),
    /// A sleep could not be scheduled.
    Sleep(SleepTimerErrorView),
}

impl View for NifTimerError {
    type V = NifTimerErrorView;

    open spec fn view(&self) -> NifTimerErrorView {
        match self {
            NifTimerError::Argument(reason) => NifTimerErrorView::Argument(reason@),
            NifTimerError::Context(reason) => NifTimerErrorView::Context(reason@),
            NifTimerError::Durability(error) => NifTimerErrorView::Durability(error@),
            NifTimerError::Timer(error) => NifTimerErrorView::Timer(error@),
            NifTimerError::Sleep(error) => NifTimerErrorView::Sleep(error@),
        }
    }
}

impl NifTimerErrorView {
    /// The text under which the failure is reported.
    pub open spec fn text(self) -> Seq<char> {
        match self {
            NifTimerErrorView::Argument(reason) => "argument:"@ + reason,
            NifTimerErrorView::Context(reason) => "context:"@ + reason,
            NifTimerErrorView::Durability(error) => "durability:"@ + error.text(),
            NifTimerErrorView::Timer(error) => "timer:"@ + error.text(),
            NifTimerErrorView::Sleep(error) => "sleep:"@ + error.text(),
        }
    }
}

impl NifTimerError {
    /// The text under which the failure is reported.
    pub fn to_string(&self) -> (text: String)
        ensures
            text@ == self@.text(),
    {
        match self {
            NifTimerError::Argument(reason) => joined("argument:", reason.as_str()),
            NifTimerError::Context(reason) => joined("context:", reason.as_str()),
            NifTimerError::Durability(error) => joined("durability:", error.to_string().as_str()),
            NifTimerError::Timer(error) => joined("timer:", error.to_string().as_str()),
            NifTimerError::Sleep(error) => joined("sleep:", error.to_string().as_str()),
        }
    }
}

/// Mathematical value of what a timer call returns.
pub open spec fn call_view(result: Result<NifResult, NifTimerError>) -> Result<
    NifResultView,
    NifTimerErrorView,
> {
    match result {
        Ok(value) => Ok(value@),
        Err(error) => Err(error@),
    }
}

/// What workflow code gets of a timer call: a failure becomes an error text.
pub fn call_result(result: Result<NifResult, NifTimerError>) -> (returned: NifResult)
    ensures
        returned@ == (match call_view(result) {
            Ok(value) => value,
            Err(error) => NifResultView::Failure(error.text()),
        }),
{
    match result {
        Ok(value) => value,
        Err(error) => NifResult::Failure(error.to_string()),
    }
}

/// Whether a call may go ahead, by its number of arguments.
#[derive(Debug, PartialEq, Eq)]
pub enum ArityCheck {
    /// As many as declared.
    Accepted,
    /// Another number; the error text is returned.
    Refused(String),
    /// More than any call can have.
    Invalid,
}

/// Checks the number of arguments of a call.
pub fn check_arity(name: &str, arity: usize, given: usize) -> (check: ArityCheck)
    ensures
        given > 255 ==> check == ArityCheck::Invalid,
        given <= 255 && given == arity ==> check == ArityCheck::Accepted,
        given <= 255 && given != arity ==> (check matches ArityCheck::Refused(text) && text@ == name@
            + ": expected "@ + decimal(arity as nat) + " arguments, got "@ + decimal(
            given as nat,
        )),
{
    if given > 255 {
        return ArityCheck::Invalid;
    }
    if given != arity {
        let mut text = joined(name, ": expected ");
        text.append(decimal_text(arity as u128).as_str());
        text.append(" arguments, got ");
        text.append(decimal_text(given as u128).as_str());
        return ArityCheck::Refused(text);
    }
    ArityCheck::Accepted
}

/// Place of the live run that a process belongs to.
pub fn build_context<S: EventStore>(bridge: &TimerNifBridge<S>, pid: Option<Pid>) -> (place: Result<
    usize,
    NifTimerError,
>)
    ensures
        match pid {
            None => place matches Err(e) && e@ == NifTimerErrorView::Context(
                "missing calling pid"@,
            ),
            Some(pid) => {
                let found = first_place(bridge@.handles, of_process(pid));
                if found < bridge@.handles.len() {
                    place matches Ok(p) && p == found
                } else {
                    place matches Err(e) && e@ == NifTimerErrorView::Context(
                        "no workflow is registered for process "@ + decimal(pid as nat),
                    )
                }
            },
        },
{
    match pid {
        None => Err(NifTimerError::Context("missing calling pid".to_owned())),
        Some(pid) => match bridge.registry.place_of_process(pid) {
            Some(place) => Ok(place),
            None => Err(
                NifTimerError::Context(
                    joined(
                        "no workflow is registered for process ",
                        decimal_text(pid as u128).as_str(),
                    ),
                ),
            ),
        },
    }
}

/// Mathematical value of an argument: its text, or why it is none.
pub open spec fn argument_view(argument: Result<String, String>) -> Result<Seq<char>, Seq<char>> {
    match argument {
        Ok(text) => Ok(text@),
        Err(reason) => Err(reason@),
    }
}

/// The milliseconds that an argument denotes.
pub open spec fn duration_argument(
    label: Seq<char>,
    argument: Result<Seq<char>, Seq<char>>,
) -> Result<u64, NifTimerErrorView> {
    match argument {
        Err(reason) => Err(NifTimerErrorView::Argument(reason)),
        Ok(text) => match parsed_u64(text) {
            Some(millis) => Ok(millis),
            None => Err(NifTimerErrorView::Argument(label + ": "@ + parse_refusal(text))),
        },
    }
}

/// The span is that many milliseconds long.
pub open spec fn lasts_millis(span: Span, millis: u64) -> bool {
    &&& span.whole_secs() == millis as int / 1000
    &&& span.sub_nanos() == (millis as int % 1000) * 1_000_000
}

/// Reads a duration in milliseconds.
pub fn decode_duration_arg(label: &str, argument: Result<String, String>) -> (duration: Result<
    Span,
    NifTimerError,
>)
    ensures
        match duration_argument(label@, argument_view(argument)) {
            Ok(millis) => duration matches Ok(span) && lasts_millis(span, millis),
            Err(error) => duration matches Err(e) && e@ == error,
        },
{
    match argument {
        Err(reason) => Err(NifTimerError::Argument(reason)),
        Ok(text) => match parse_u64(text.as_str()) {
            Ok(millis) => Ok(Span::from_millis(millis)),
            Err(reason) => {
                let mut message = joined(label, ": ");
                message.append(reason.as_str());
                Err(NifTimerError::Argument(message))
            },
        },
    }
}

/// The name in a timer reference: the reference itself, without the prefix of listed timers.
pub open spec fn referenced_name(text: Seq<char>) -> Seq<char> {
    if "timer:named:"@.is_prefix_of(text) {
        text.skip("timer:named:"@.len() as int)
    } else {
        text
    }
}

/// The named timer that an argument denotes; an empty name is refused.
pub open spec fn timer_argument(
    label: Seq<char>,
    argument: Result<Seq<char>, Seq<char>>,
) -> Result<TimerIdView, NifTimerErrorView> {
    match argument {
        Err(reason) => Err(NifTimerErrorView::Argument(reason)),
        Ok(text) => if referenced_name(text).len() > 0 {
            Ok(TimerIdView::Named(referenced_name(text)))
        } else {
            Err(NifTimerErrorView::Argument(label + ": "@ + IdError::EmptyTimerName.text()))
        },
    }
}

/// Reads a reference to a named timer.
pub fn decode_timer_id_arg(label: &str, argument: Result<String, String>) -> (timer_id: Result<
    TimerId,
    NifTimerError,
>)
    ensures
        match timer_argument(label@, argument_view(argument)) {
            Ok(view) => timer_id matches Ok(id) && id@ == view,
            Err(error) => timer_id matches Err(e) && e@ == error,
        },
{
    let raw = match argument {
        Ok(raw) => raw,
        Err(reason) => {
            return Err(NifTimerError::Argument(reason));
        },
    };
    let ghost text = raw@;
    let name = match without_prefix(raw.as_str(), "timer:named:") {
        Some(rest) => {
            assert(text.skip("timer:named:"@.len() as int) =~= rest@);
            rest
        },
        None => raw,
    };
    match TimerId::named(name.as_str()) {
        Ok(id) => Ok(id),
        Err(error) => {
            let mut message = joined(label, ": ");
            message.append(error.to_string().as_str());
            Err(NifTimerError::Argument(message))
        },
    }
}

/// How workflow code refers to a timer.
pub open spec fn reference_of(timer_id: TimerIdView) -> Seq<char> {
    match timer_id {
        TimerIdView::Named(name) => name,
        TimerIdView::Anonymous(_) => "anonymous"@,
    }
}

/// How workflow code refers to a timer.
pub fn timer_ref(timer_id: &TimerId) -> (reference: &str)
    ensures
        reference@ == reference_of(timer_id@),
{
    match timer_id.name() {
        Some(name) => name,
        None => "anonymous",
    }
}

/// The instant is the recorded time of a history: that of its last event, or the start of 1970.
pub open spec fn is_recorded_time(history: Seq<EventView>, now: Timestamp) -> bool {
    if history.len() == 0 {
        now.seconds() == 0 && now.subsec_nanos() == 0
    } else {
        now == history.last().envelope.recorded_at
    }
}

/// The history that the live run at a place writes.
pub open spec fn history_at(bridge: BridgeView, place: int) -> Seq<EventView> {
    history_in(bridge.histories, bridge.handles[place].recorder.workflow_id)
}

/// The failure that reading the history at a place meets, if it does.
pub open spec fn read_failure(bridge: BridgeView, place: int) -> Option<StoreErrorView> {
    failing(
        bridge.failures,
        StoreCall::ReadHistory { workflow_id: bridge.handles[place].recorder.workflow_id },
    )
}

/// The recorded time of the live run at a place.
pub fn recorded_now<S: EventStore>(bridge: &TimerNifBridge<S>, place: usize) -> (now: Result<
    Timestamp,
    NifTimerError,
>)
    requires
        place < bridge@.handles.len(),
    ensures
        match read_failure(bridge@, place as int) {
            Some(error) => now matches Err(e) && e@ == NifTimerErrorView::Durability(
                DurabilityErrorView::Store(error),
            ),
            None => now matches Ok(t) && is_recorded_time(history_at(bridge@, place as int), t),
        },
{
    let handles = bridge.registry.list();
    assert(bridge@.handles[place as int] == handles@[place as int]@);
    match handles[place].recorder.read_history(&bridge.store) {
        Ok(history) => {
            if history.len() == 0 {
                Ok(Timestamp::unix_epoch())
            } else {
                let last = history.len() - 1;
                assert(event_views(history@).last() == history@[last as int]@);
                Ok(history[last].recorded_at())
            }
        },
        Err(error) => Err(NifTimerError::Durability(error)),
    }
}

/// Where a timer fires, or why it cannot.
pub open spec fn fire_time(now: Timestamp, duration: Span) -> Result<(int, int), NifTimerErrorView> {
    match now.after_spec(duration) {
        Ok(parts) => Ok(parts),
        Err(SpanError::SpanOutOfRange) => Err(
            NifTimerErrorView::Argument("duration is out of range"@),
        ),
        Err(SpanError::InstantOutOfRange) => Err(
            NifTimerErrorView::Argument("timer fire_at overflowed"@),
        ),
    }
}

/// The instant the duration behind the recorded time.
pub fn add_duration(now: Timestamp, duration: Span) -> (fire_at: Result<Timestamp, NifTimerError>)
    ensures
        match fire_time(now, duration) {
            Ok((secs, nanos)) => fire_at matches Ok(t) && t.seconds() == secs && t.subsec_nanos()
                == nanos,
            Err(error) => fire_at matches Err(e) && e@ == error,
        },
{
    match now.after(duration) {
        Ok(fire_at) => Ok(fire_at),
        Err(SpanError::SpanOutOfRange) => Err(
            NifTimerError::Argument("duration is out of range".to_owned()),
        ),
        Err(SpanError::InstantOutOfRange) => Err(
            NifTimerError::Argument("timer fire_at overflowed".to_owned()),
        ),
    }
}

/// A timer that a call asks for.
#[derive(Debug, PartialEq, Eq)]
pub struct TimerPlan {
    timer_id: TimerId,
    duration: Span,
    recorded_now: Timestamp,
    fire_at: Timestamp,
}

/// Mathematical value of a [`TimerPlan`].
pub struct TimerPlanView {
    /// The timer.
    pub timer_id: TimerIdView,
    /// How long it runs.
    pub duration: Span,
    /// The recorded time of the call.
    pub recorded_now: Timestamp,
    /// When it fires.
    pub fire_at: Timestamp,
}

impl View for TimerPlan {
    type V = TimerPlanView;

    closed spec fn view(&self) -> TimerPlanView {
        TimerPlanView {
            timer_id: self.timer_id@,
            duration: self.duration,
            recorded_now: self.recorded_now,
            fire_at: self.fire_at,
        }
    }
}

/// The timer fires its duration behind the recorded time of the call.
pub open spec fn fires_in_time(plan: TimerPlanView) -> bool {
    fire_time(plan.recorded_now, plan.duration) == Ok::<(int, int), NifTimerErrorView>(
        (plan.fire_at.seconds(), plan.fire_at.subsec_nanos()),
    )
}

impl TimerPlan {
    #[verifier::type_invariant]
    spec fn in_time(self) -> bool {
        fires_in_time(self@)
    }

    /// The timer.
    pub fn timer_id(&self) -> (timer_id: &TimerId)
        ensures
            timer_id@ == self@.timer_id,
    {
        &self.timer_id
    }

    /// How long the timer runs.
    pub fn duration(&self) -> (duration: Span)
        ensures
            duration == self@.duration,
    {
        self.duration
    }

    /// When the timer fires.
    pub fn fire_at(&self) -> (fire_at: Timestamp)
        ensures
            fire_at == self@.fire_at,
    {
        self.fire_at
    }

    /// The command that asks whether the history resolves the timer.
    pub fn command(&self) -> (command: Command)
        ensures
            match command {
                Command::StartTimer { key: CorrelationKey::Timer(id), fire_at } => id@
                    == self@.timer_id && fire_at == self@.fire_at,
                _ => false,
            },
    {
        timer_command(self.timer_id.clone(), self.fire_at)
    }
}

/// A plan follows from its inputs: the timer, the recorded time and the milliseconds decide it, or
/// say why there is none.
pub open spec fn planned(
    bridge: BridgeView,
    place: int,
    timer_id: TimerIdView,
    millis: u64,
    plan: Result<TimerPlan, NifTimerError>,
) -> bool {
    match read_failure(bridge, place) {
        Some(error) => plan matches Err(e) && e@ == NifTimerErrorView::Durability(
            DurabilityErrorView::Store(error),
        ),
        None => exists|now: Timestamp, duration: Span|
            #![trigger fire_time(now, duration)]
            {
                &&& is_recorded_time(history_at(bridge, place), now)
                &&& lasts_millis(duration, millis)
                &&& match fire_time(now, duration) {
                    Ok(_) => {
                        &&& plan matches Ok(p) && p@.timer_id == timer_id && p@.recorded_now == now
                            && p@.duration == duration && fires_in_time(p@)
                    },
                    Err(error) => plan matches Err(e) && e@ == error,
                }
            },
    }
}

/// Plans the timer of a sleep or a timeout: it is named by the head of the history.
pub fn plan_anonymous<S: EventStore>(
    bridge: &TimerNifBridge<S>,
    place: usize,
    label: &str,
    duration: Result<String, String>,
) -> (plan: Result<TimerPlan, NifTimerError>)
    requires
        place < bridge@.handles.len(),
    ensures
        match duration_argument(label@, argument_view(duration)) {
            Err(error) => plan matches Err(e) && e@ == error,
            Ok(millis) => planned(
                bridge@,
                place as int,
                TimerIdView::Anonymous(bridge@.handles[place as int].recorder.head),
                millis,
                plan,
            ),
        },
{
    let duration = match decode_duration_arg(label, duration) {
        Ok(duration) => duration,
        Err(error) => {
            return Err(error);
        },
    };
    let now = match recorded_now(bridge, place) {
        Ok(now) => now,
        Err(error) => {
            return Err(error);
        },
    };
    let handles = bridge.registry.list();
    assert(bridge@.handles[place as int] == handles@[place as int]@);
    let timer_id = TimerId::anonymous(handles[place].recorder.current_head());
    match add_duration(now, duration) {
        Ok(fire_at) => Ok(TimerPlan { timer_id, duration, recorded_now: now, fire_at }),
        Err(error) => Err(error),
    }
}

/// Plans the timer of a `start_timer` call.
pub fn plan_named<S: EventStore>(
    bridge: &TimerNifBridge<S>,
    place: usize,
    timer_id: Result<String, String>,
    duration: Result<String, String>,
) -> (plan: Result<TimerPlan, NifTimerError>)
    requires
        place < bridge@.handles.len(),
    ensures
        match timer_argument("start_timer timer_id"@, argument_view(timer_id)) {
            Err(error) => plan matches Err(e) && e@ == error,
            Ok(id) => match duration_argument("start_timer duration"@, argument_view(duration)) {
                Err(error) => plan matches Err(e) && e@ == error,
                Ok(millis) => planned(bridge@, place as int, id, millis, plan),
            },
        },
{
    let timer_id = match decode_timer_id_arg("start_timer timer_id", timer_id) {
        Ok(timer_id) => timer_id,
        Err(error) => {
            return Err(error);
        },
    };
    let duration = match decode_duration_arg("start_timer duration", duration) {
        Ok(duration) => duration,
        Err(error) => {
            return Err(error);
        },
    };
    let now = match recorded_now(bridge, place) {
        Ok(now) => now,
        Err(error) => {
            return Err(error);
        },
    };
    match add_duration(now, duration) {
        Ok(fire_at) => Ok(TimerPlan { timer_id, duration, recorded_now: now, fire_at }),
        Err(error) => Err(error),
    }
}

/// The command of a `cancel_timer` call: it names the timer at the recorded time.
pub fn plan_cancel<S: EventStore>(
    bridge: &TimerNifBridge<S>,
    place: usize,
    timer_id: Result<String, String>,
) -> (plan: Result<(TimerId, Timestamp), NifTimerError>)
    requires
        place < bridge@.handles.len(),
    ensures
        match timer_argument("cancel_timer timer_id"@, argument_view(timer_id)) {
            Err(error) => plan matches Err(e) && e@ == error,
            Ok(id) => match read_failure(bridge@, place as int) {
                Some(error) => plan matches Err(e) && e@ == NifTimerErrorView::Durability(
                    DurabilityErrorView::Store(error),
                ),
                None => plan matches Ok(p) && p.0@ == id && is_recorded_time(
                    history_at(bridge@, place as int),
                    p.1,
                ),
            },
        },
{
    let timer_id = match decode_timer_id_arg("cancel_timer timer_id", timer_id) {
        Ok(timer_id) => timer_id,
        Err(error) => {
            return Err(error);
        },
    };
    match recorded_now(bridge, place) {
        Ok(now) => Ok((timer_id, now)),
        Err(error) => Err(error),
    }
}

/// Records an event of the live run at a place as a timer call sees it.
pub open spec fn call_recorded(
    bridge: BridgeView,
    place: int,
    recorded_at: Timestamp,
    body: EventBody,
) -> (BridgeView, Result<(), NifTimerErrorView>) {
    let (after, decided) = recorded_at_place(bridge, place, recorded_at, body);
    (
        after,
        match decided {
            Ok(()) => Ok(()),
            Err(error) => Err(NifTimerErrorView::Durability(error)),
        },
    )
}

/// What a recording of a timer call returned.
pub open spec fn step_view(step: Result<(), NifTimerError>) -> Result<(), NifTimerErrorView> {
    match step {
        Ok(()) => Ok(()),
        Err(error) => Err(error@),
    }
}

fn record_started<S: EventStore>(
    bridge: &mut TimerNifBridge<S>,
    place: usize,
    recorded_at: Timestamp,
    timer_id: TimerId,
    fire_at: Timestamp,
) -> (step: Result<(), NifTimerError>)
    requires
        place < old(bridge)@.handles.len(),
    ensures
        (final(bridge)@, step_view(step)) == call_recorded(
            old(bridge)@,
            place as int,
            recorded_at,
            EventBody::TimerStarted { timer_id: timer_id@, fire_at },
        ),
        final(bridge)@.handles.len() == old(bridge)@.handles.len(),
{
    match bridge.registry.record_timer_started(
        place,
        &mut bridge.store,
        recorded_at,
        timer_id,
        fire_at,
    ) {
        Ok(()) => Ok(()),
        Err(error) => Err(NifTimerError::Durability(error)),
    }
}

fn record_fired<S: EventStore>(
    bridge: &mut TimerNifBridge<S>,
    place: usize,
    recorded_at: Timestamp,
    timer_id: TimerId,
) -> (step: Result<(), NifTimerError>)
    requires
        place < old(bridge)@.handles.len(),
    ensures
        (final(bridge)@, step_view(step)) == call_recorded(
            old(bridge)@,
            place as int,
            recorded_at,
            EventBody::TimerFired { timer_id: timer_id@ },
        ),
        final(bridge)@.handles.len() == old(bridge)@.handles.len(),
{
    match bridge.registry.record_timer_fired(
        place,
        &mut bridge.store,
        recorded_at,
        timer_id,
    ) {
        Ok(()) => Ok(()),
        Err(error) => Err(NifTimerError::Durability(error)),
    }
}

fn record_cancelled<S: EventStore>(
    bridge: &mut TimerNifBridge<S>,
    place: usize,
    recorded_at: Timestamp,
    timer_id: TimerId,
) -> (step: Result<(), NifTimerError>)
    requires
        place < old(bridge)@.handles.len(),
    ensures
        (final(bridge)@, step_view(step)) == call_recorded(
            old(bridge)@,
            place as int,
            recorded_at,
            EventBody::TimerCancelled { timer_id: timer_id@ },
        ),
        final(bridge)@.handles.len() == old(bridge)@.handles.len(),
{
    match bridge.registry.record_timer_cancelled(
        place,
        &mut bridge.store,
        recorded_at,
        timer_id,
    ) {
        Ok(()) => Ok(()),
        Err(error) => Err(NifTimerError::Durability(error)),
    }
}

/// The failure of a timer's row, as a call reports it.
pub open spec fn scheduling_failure(
    timer_id: TimerIdView,
    error: TimerServiceErrorView,
) -> NifTimerErrorView {
    match timer_id {
        TimerIdView::Anonymous(_) => NifTimerErrorView::Sleep(SleepTimerErrorView::Timer(error)),
        TimerIdView::Named(_) => NifTimerErrorView::Timer(error),
    }
}

/// Carrying out a timer: its start is recorded, then its row written.
pub open spec fn started_live(
    bridge: BridgeView,
    place: int,
    plan: TimerPlanView,
) -> (BridgeView, Result<(), NifTimerErrorView>) {
    let (begun, recorded) = call_recorded(
        bridge,
        place,
        plan.recorded_now,
        EventBody::TimerStarted { timer_id: plan.timer_id, fire_at: plan.fire_at },
    );
    match recorded {
        Err(error) => (begun, Err(error)),
        Ok(()) => {
            let (after, scheduled) = scheduled_timer(
                begun,
                begun.handles[place].workflow_id,
                plan.timer_id,
                plan.fire_at,
            );
            (
                after,
                match scheduled {
                    Ok(_) => Ok(()),
                    Err(error) => Err(scheduling_failure(plan.timer_id, error)),
                },
            )
        },
    }
}

/// Carries out a timer. The calling process waits by itself, so that there is no wheel to arm.
fn start_live<S: EventStore>(
    bridge: &mut TimerNifBridge<S>,
    place: usize,
    plan: &TimerPlan,
) -> (step: Result<(), NifTimerError>)
    requires
        place < old(bridge)@.handles.len(),
    ensures
        (final(bridge)@, step_view(step)) == started_live(old(bridge)@, place as int, plan@),
        final(bridge)@.handles.len() == old(bridge)@.handles.len(),
{
    proof {
        use_type_invariant(plan);
    }
    match record_started(
        bridge,
        place,
        plan.recorded_now,
        plan.timer_id.clone(),
        plan.fire_at,
    ) {
        Ok(()) => {},
        Err(error) => {
            return Err(error);
        },
    }
    let workflow_id = {
        let handles = bridge.registry.list();
        assert(bridge@.handles[place as int] == handles@[place as int]@);
        handles[place].workflow_id
    };
    let service = TimerService::with_recorded_at(Timestamp::unix_epoch());
    let ghost begun = bridge@;
    match plan.timer_id.sequence_position() {
        Some(position) => {
            let slept = schedule_sleep(
                &service,
                bridge,
                &workflow_id,
                plan.duration,
                plan.recorded_now,
                position,
            );
            proof {
                let parts = (plan.fire_at.seconds(), plan.fire_at.subsec_nanos());
                assert(plan.recorded_now.after_spec(plan.duration) == Ok::<(int, int), SpanError>(
                    parts,
                ));
                let fire_at = choose|fire_at: Timestamp|
                    #![trigger fire_at.seconds()]
                    {
                        let (after, outcome) = scheduled_timer(
                            begun,
                            workflow_id,
                            TimerIdView::Anonymous(position),
                            fire_at,
                        );
                        &&& fire_at.seconds() == parts.0
                        &&& fire_at.subsec_nanos() == parts.1
                        &&& bridge@ == after
                        &&& match outcome {
                            Ok(entry) => slept matches Ok((s, armed)) && s.timer_id@
                                == TimerIdView::Anonymous(position) && s.fire_at == fire_at
                                && wheel_view(armed) == entry,
                            Err(error) => slept matches Err(e) && e@ == SleepTimerErrorView::Timer(
                                error,
                            ),
                        }
                    };
                timestamp_by_parts(fire_at, plan.fire_at);
            }
            match slept {
                Ok((slept, _)) => {
                    if slept.timer_id.same(&plan.timer_id) {
                        Ok(())
                    } else {
                        Err(
                            NifTimerError::Context(
                                "AT sleep service returned a mismatched timer id".to_owned(),
                            ),
                        )
                    }
                },
                Err(error) => Err(NifTimerError::Sleep(error)),
            }
        },
        None => match start_named(&service, bridge, &workflow_id, &plan.timer_id, plan.fire_at) {
            Ok(_) => Ok(()),
            Err(error) => Err(NifTimerError::Timer(error)),
        },
    }
}

/// How a sleep goes on.
#[derive(Debug, PartialEq, Eq)]
pub enum SleepStep {
    /// Hand this back.
    Done(NifResult),
    /// Wait this long, then finish the sleep.
    Wait(Span),
}

/// What the history already says of a sleep.
pub open spec fn recorded_sleep(resolution: Resolution) -> NifResultView {
    match resolution {
        Resolution::TimerFired => NifResultView::Value("fired"@),
        Resolution::TimerCancelled => NifResultView::Failure("cancelled"@),
        _ => NifResultView::Failure("sleep history mismatch"@),
    }
}

/// Goes on with a sleep once it is known whether the history resolves it.
pub fn resume_sleep<S: EventStore>(
    bridge: &mut TimerNifBridge<S>,
    place: usize,
    plan: &TimerPlan,
    resolved: Result<ResolveOutcome, NifTimerError>,
) -> (step: Result<SleepStep, NifTimerError>)
    requires
        place < old(bridge)@.handles.len(),
    ensures
        match resolved {
            Err(error) => step == Err::<SleepStep, NifTimerError>(error) && final(bridge)@
                == old(bridge)@,
            Ok(ResolveOutcome::Recorded(resolution)) => step matches Ok(SleepStep::Done(result))
                && result@ == recorded_sleep(resolution) && final(bridge)@ == old(bridge)@,
            Ok(ResolveOutcome::ResumeLive) => {
                let (after, started) = started_live(old(bridge)@, place as int, plan@);
                &&& final(bridge)@ == after
                &&& match started {
                    Ok(()) => step == Ok::<SleepStep, NifTimerError>(
                        SleepStep::Wait(plan@.duration),
                    ),
                    Err(error) => step matches Err(e) && e@ == error,
                }
            },
        },
        final(bridge)@.handles.len() == old(bridge)@.handles.len(),
{
    match resolved {
        Err(error) => Err(error),
        Ok(ResolveOutcome::Recorded(resolution)) => {
            let result = match resolution {
                Resolution::TimerFired => ok_result("fired"),
                Resolution::TimerCancelled => error_result("cancelled"),
                _ => error_result("sleep history mismatch"),
            };
            Ok(SleepStep::Done(result))
        },
        Ok(ResolveOutcome::ResumeLive) => match start_live(bridge, place, plan) {
            Ok(()) => Ok(SleepStep::Wait(plan.duration())),
            Err(error) => Err(error),
        },
    }
}

/// What finishing a sleep comes to: its timer is recorded as fired when it was due.
pub open spec fn finished_sleep(bridge: BridgeView, place: int, plan: TimerPlanView) -> (
    BridgeView,
    Result<NifResultView, NifTimerErrorView>,
) {
    let (after, recorded) = call_recorded(
        bridge,
        place,
        plan.fire_at,
        EventBody::TimerFired { timer_id: plan.timer_id },
    );
    (
        after,
        match recorded {
            Ok(()) => Ok(NifResultView::Value("fired"@)),
            Err(error) => Err(error),
        },
    )
}

/// Finishes a sleep whose wait is over.
pub fn finish_sleep<S: EventStore>(
    bridge: &mut TimerNifBridge<S>,
    place: usize,
    plan: &TimerPlan,
) -> (result: Result<NifResult, NifTimerError>)
    requires
        place < old(bridge)@.handles.len(),
    ensures
        (final(bridge)@, call_view(result)) == finished_sleep(old(bridge)@, place as int, plan@),
        final(bridge)@.handles.len() == old(bridge)@.handles.len(),
{
    match record_fired(bridge, place, plan.fire_at(), plan.timer_id().clone()) {
        Ok(()) => Ok(ok_result("fired")),
        Err(error) => Err(error),
    }
}

/// What the history already says of a started timer.
pub open spec fn recorded_start(timer_id: TimerIdView, resolution: Resolution) -> NifResultView {
    match resolution {
        Resolution::TimerStarted => NifResultView::Value(reference_of(timer_id)),
        Resolution::TimerFired => NifResultView::Value(reference_of(timer_id)),
        Resolution::TimerCancelled => NifResultView::Failure("cancelled"@),
        _ => NifResultView::Failure("start_timer history mismatch"@),
    }
}

/// Carrying out a `start_timer` call: the timer is started, and workflow code gets its reference.
pub open spec fn timer_begun(bridge: BridgeView, place: int, plan: TimerPlanView) -> (
    BridgeView,
    Result<NifResultView, NifTimerErrorView>,
) {
    let (after, started) = started_live(bridge, place, plan);
    (
        after,
        match started {
            Ok(()) => Ok(NifResultView::Value(reference_of(plan.timer_id))),
            Err(error) => Err(error),
        },
    )
}

/// Goes on with a `start_timer` call once it is known whether the history resolves it.
pub fn resume_start_timer<S: EventStore>(
    bridge: &mut TimerNifBridge<S>,
    place: usize,
    plan: &TimerPlan,
    resolved: Result<ResolveOutcome, NifTimerError>,
) -> (result: Result<NifResult, NifTimerError>)
    requires
        place < old(bridge)@.handles.len(),
    ensures
        match resolved {
            Err(error) => result == Err::<NifResult, NifTimerError>(error) && final(bridge)@
                == old(bridge)@,
            Ok(ResolveOutcome::Recorded(resolution)) => result matches Ok(r) && r@
                == recorded_start(plan@.timer_id, resolution) && final(bridge)@ == old(bridge)@,
            Ok(ResolveOutcome::ResumeLive) => (final(bridge)@, call_view(result)) == timer_begun(
                old(bridge)@,
                place as int,
                plan@,
            ),
        },
{
    match resolved {
        Err(error) => Err(error),
        Ok(ResolveOutcome::Recorded(resolution)) => {
            let result = match resolution {
                Resolution::TimerStarted => ok_result(timer_ref(plan.timer_id())),
                Resolution::TimerFired => ok_result(timer_ref(plan.timer_id())),
                Resolution::TimerCancelled => error_result("cancelled"),
                _ => error_result("start_timer history mismatch"),
            };
            Ok(result)
        },
        Ok(ResolveOutcome::ResumeLive) => match start_live(bridge, place, plan) {
            Ok(()) => Ok(ok_result(timer_ref(plan.timer_id()))),
            Err(error) => Err(error),
        },
    }
}

/// What the history already says of a cancelled timer.
pub open spec fn recorded_cancel(resolution: Resolution) -> NifResultView {
    match resolution {
        Resolution::TimerCancelled => NifResultView::Value("cancelled"@),
        Resolution::TimerFired => NifResultView::Value("cancelled"@),
        _ => NifResultView::Failure("cancel_timer history mismatch"@),
    }
}

/// Carrying out a `cancel_timer` call at the given time.
pub open spec fn timer_given_up(
    bridge: BridgeView,
    place: int,
    recorded_at: Timestamp,
    timer_id: TimerIdView,
) -> (BridgeView, Result<NifResultView, NifTimerErrorView>) {
    let (after, cancelled) = cancelled_timer(
        bridge,
        recorded_at,
        bridge.handles[place].workflow_id,
        timer_id,
    );
    (
        after,
        match cancelled {
            Ok(_) => Ok(NifResultView::Value("cancelled"@)),
            Err(error) => Err(NifTimerErrorView::Timer(error)),
        },
    )
}

/// Goes on with a `cancel_timer` call once it is known whether the history resolves it.
pub fn resume_cancel_timer<S: EventStore>(
    bridge: &mut TimerNifBridge<S>,
    place: usize,
    timer_id: &TimerId,
    resolved: Result<ResolveOutcome, NifTimerError>,
) -> (result: Result<NifResult, NifTimerError>)
    requires
        place < old(bridge)@.handles.len(),
    ensures
        match resolved {
            Err(error) => result == Err::<NifResult, NifTimerError>(error) && final(bridge)@
                == old(bridge)@,
            Ok(ResolveOutcome::Recorded(resolution)) => result matches Ok(r) && r@
                == recorded_cancel(resolution) && final(bridge)@ == old(bridge)@,
            Ok(ResolveOutcome::ResumeLive) => exists|epoch: Timestamp|
                #![trigger epoch.seconds()]
                {
                    &&& epoch.seconds() == 0
                    &&& epoch.subsec_nanos() == 0
                    &&& (final(bridge)@, call_view(result)) == timer_given_up(
                        old(bridge)@,
                        place as int,
                        epoch,
                        timer_id@,
                    )
                },
        },
{
    match resolved {
        Err(error) => Err(error),
        Ok(ResolveOutcome::Recorded(resolution)) => {
            let result = match resolution {
                Resolution::TimerCancelled => ok_result("cancelled"),
                Resolution::TimerFired => ok_result("cancelled"),
                _ => error_result("cancel_timer history mismatch"),
            };
            Ok(result)
        },
        Ok(ResolveOutcome::ResumeLive) => {
            let workflow_id = {
                let handles = bridge.registry.list();
                assert(bridge@.handles[place as int] == handles@[place as int]@);
                handles[place].workflow_id
            };
            let epoch = Timestamp::unix_epoch();
            let ghost seconds = epoch.seconds();
            let service = TimerService::with_recorded_at(epoch);
            let asked = cancel_named(
                &service,
                bridge,
                &workflow_id,
                timer_id,
                CancelEvent::Asked,
            );
            let ended = match asked {
                Ok(CancelStep::Disarm(process)) => {
                    let disarmed = bridge.disarm_timer(process, timer_id);
                    cancel_named(
                        &service,
                        bridge,
                        &workflow_id,
                        timer_id,
                        CancelEvent::Disarmed(disarmed),
                    )
                },
                other => other,
            };
            match ended {
                Ok(_) => Ok(ok_result("cancelled")),
                Err(error) => Err(NifTimerError::Timer(error)),
            }
        },
    }
}

/// What the history already says of a timeout.
pub open spec fn recorded_timeout(operation: Seq<char>, resolution: Resolution) -> NifResultView {
    match resolution {
        Resolution::TimerFired => NifResultView::Failure("timeout"@),
        Resolution::TimerCancelled => NifResultView::Value(operation),
        Resolution::TimerStarted => NifResultView::Value(operation),
        _ => NifResultView::Failure("with_timeout history mismatch"@),
    }
}

/// The operation ran out of time: it says so itself, or had none.
pub open spec fn out_of_time(operation: Seq<char>, duration: Span) -> bool {
    operation == "timeout"@ || (duration.whole_secs() == 0 && duration.sub_nanos() == 0)
}

/// Carrying out a timeout: its timer is started and then settled, by firing if the operation ran
/// out of time and by cancelling if it did not.
pub open spec fn timed_live(
    bridge: BridgeView,
    place: int,
    plan: TimerPlanView,
    operation: Seq<char>,
) -> (BridgeView, Result<NifResultView, NifTimerErrorView>) {
    let (begun, started) = started_live(bridge, place, plan);
    match started {
        Err(error) => (begun, Err(error)),
        Ok(()) => {
            let expired = out_of_time(operation, plan.duration);
            let (after, recorded) = if expired {
                call_recorded(
                    begun,
                    place,
                    plan.fire_at,
                    EventBody::TimerFired { timer_id: plan.timer_id },
                )
            } else {
                call_recorded(
                    begun,
                    place,
                    plan.recorded_now,
                    EventBody::TimerCancelled { timer_id: plan.timer_id },
                )
            };
            (
                after,
                match recorded {
                    Err(error) => Err(error),
                    Ok(()) => Ok(
                        if expired {
                            NifResultView::Failure("timeout"@)
                        } else {
                            NifResultView::Value(operation)
                        },
                    ),
                },
            )
        },
    }
}

/// Goes on with a `with_timeout` call once it is known whether the history resolves it.
pub fn resume_with_timeout<S: EventStore>(
    bridge: &mut TimerNifBridge<S>,
    place: usize,
    plan: &TimerPlan,
    operation: &str,
    resolved: Result<ResolveOutcome, NifTimerError>,
) -> (result: Result<NifResult, NifTimerError>)
    requires
        place < old(bridge)@.handles.len(),
    ensures
        match resolved {
            Err(error) => result == Err::<NifResult, NifTimerError>(error) && final(bridge)@
                == old(bridge)@,
            Ok(ResolveOutcome::Recorded(resolution)) => result matches Ok(r) && r@
                == recorded_timeout(operation@, resolution) && final(bridge)@ == old(bridge)@,
            Ok(ResolveOutcome::ResumeLive) => (final(bridge)@, call_view(result)) == timed_live(
                old(bridge)@,
                place as int,
                plan@,
                operation@,
            ),
        },
{
    match resolved {
        Err(error) => Err(error),
        Ok(ResolveOutcome::Recorded(resolution)) => {
            let result = match resolution {
                Resolution::TimerFired => error_result("timeout"),
                Resolution::TimerCancelled => ok_result(operation),
                Resolution::TimerStarted => ok_result(operation),
                _ => error_result("with_timeout history mismatch"),
            };
            Ok(result)
        },
        Ok(ResolveOutcome::ResumeLive) => {
            match start_live(bridge, place, plan) {
                Ok(()) => {},
                Err(error) => {
                    return Err(error);
                },
            }
            if same_text(operation, "timeout") || plan.duration().is_zero() {
                match record_fired(bridge, place, plan.fire_at(), plan.timer_id().clone()) {
                    Ok(()) => Ok(error_result("timeout")),
                    Err(error) => Err(error),
                }
            } else {
                match record_cancelled(
                    bridge,
                    place,
                    plan.recorded_now,
                    plan.timer_id().clone(),
                ) {
                    Ok(()) => Ok(ok_result(operation)),
                    Err(error) => Err(error),
                }
            }
        },
    }
}

/// A timeout that was carried out leaves its timer settled in the history of its run.
pub proof fn timeouts_settle_their_timer(
    bridge: BridgeView,
    place: int,
    plan: TimerPlanView,
    operation: Seq<char>,
)
    requires
        0 <= place < bridge.handles.len(),
        timed_live(bridge, place, plan, operation).1 is Ok,
    ensures
        is_settled(
            history_at(timed_live(bridge, place, plan, operation).0, place),
            plan.timer_id,
        ),
{
    let begun = started_live(bridge, place, plan).0;
    let recorder = begun.handles[place].recorder;
    let expired = out_of_time(operation, plan.duration);
    let event = if expired {
        next_event(recorder, plan.fire_at, EventBody::TimerFired { timer_id: plan.timer_id })
    } else {
        next_event(
            recorder,
            plan.recorded_now,
            EventBody::TimerCancelled { timer_id: plan.timer_id },
        )
    };
    let before = history_in(begun.histories, recorder.workflow_id);
    appended_events_are_read_back(
        begun.histories,
        recorder.workflow_id,
        recorder.workflow_id,
        seq![event],
    );
    assert((before + seq![event])[before.len() as int] == event);
}

/// An event that was recorded for the run at a place is the last of its history, with the recorded
/// time that was given, and nothing else of the history changed.
pub proof fn recorded_events_come_last(
    bridge: BridgeView,
    place: int,
    recorded_at: Timestamp,
    body: EventBody,
)
    requires
        0 <= place < bridge.handles.len(),
        call_recorded(bridge, place, recorded_at, body).1 is Ok,
    ensures
        ({
            let after = call_recorded(bridge, place, recorded_at, body).0;
            let history = history_at(after, place);
            &&& history.len() == history_at(bridge, place).len() + 1
            &&& history.drop_last() == history_at(bridge, place)
            &&& history.last().body == body
            &&& history.last().envelope.recorded_at == recorded_at
            &&& after.timers == bridge.timers
            &&& after.handles[place].workflow_id == bridge.handles[place].workflow_id
            &&& after.handles.len() == bridge.handles.len()
        }),
{
    let recorder = bridge.handles[place].recorder;
    let event = next_event(recorder, recorded_at, body);
    appended_events_are_read_back(
        bridge.histories,
        recorder.workflow_id,
        recorder.workflow_id,
        seq![event],
    );
    let before = history_at(bridge, place);
    assert((before + seq![event]).drop_last() =~= before);
    assert((before + seq![event]).last() == event);
}

/// A timer that a call carries out is recorded as started, at the recorded time of the call and with
/// its due time, behind what the history held, and its row holds the due time.
pub proof fn live_timers_are_recorded_and_scheduled(
    bridge: BridgeView,
    place: int,
    plan: TimerPlanView,
)
    requires
        0 <= place < bridge.handles.len(),
        started_live(bridge, place, plan).1 is Ok,
    ensures
        ({
            let after = started_live(bridge, place, plan).0;
            let history = history_at(after, place);
            let row = (bridge.handles[place].workflow_id, plan.timer_id);
            &&& history.len() == history_at(bridge, place).len() + 1
            &&& history.drop_last() == history_at(bridge, place)
            &&& history.last().body == (EventBody::TimerStarted {
                timer_id: plan.timer_id,
                fire_at: plan.fire_at,
            })
            &&& history.last().envelope.recorded_at == plan.recorded_now
            &&& after.timers.contains_key(row)
            &&& after.timers[row] == plan.fire_at
            &&& after.handles.len() == bridge.handles.len()
        }),
{
    recorded_events_come_last(
        bridge,
        place,
        plan.recorded_now,
        EventBody::TimerStarted { timer_id: plan.timer_id, fire_at: plan.fire_at },
    );
}

/// What a history resolves a timer to, by the event that settled it.
pub open spec fn end_resolution(body: EventBody) -> Option<Resolution> {
    match body {
        EventBody::TimerFired { .. } => Some(Resolution::TimerFired),
        EventBody::TimerCancelled { .. } => Some(Resolution::TimerCancelled),
        _ => None,
    }
}

/// Replaying a timeout gives what carrying it out gave. A timeout that was carried out settles its
/// timer with the last event of the history. It hands its operation back exactly where that event
/// says that the timer was cancelled, and fails exactly where it says that the timer fired; and a
/// replay that resolves the call by that event, or by one that only started the timer where the
/// operation came back, gives the same.
pub proof fn replayed_timeouts_end_as_they_did(
    bridge: BridgeView,
    place: int,
    plan: TimerPlanView,
    operation: Seq<char>,
)
    requires
        0 <= place < bridge.handles.len(),
        timed_live(bridge, place, plan, operation).1 is Ok,
    ensures
        ({
            let (after, ended) = timed_live(bridge, place, plan, operation);
            let history = history_at(after, place);
            let end = history.last().body;
            let ran_out = operation == "timeout"@ || (plan.duration.whole_secs() == 0
                && plan.duration.sub_nanos() == 0);
            &&& history.len() == history_at(bridge, place).len() + 2
            &&& history.take(history_at(bridge, place).len() as int) == history_at(bridge, place)
            &&& end == (EventBody::TimerFired { timer_id: plan.timer_id }) || end == (
            EventBody::TimerCancelled { timer_id: plan.timer_id })
            &&& ran_out <==> end is TimerFired
            &&& end is TimerFired ==> history.last().envelope.recorded_at == plan.fire_at
            &&& end is TimerCancelled ==> history.last().envelope.recorded_at == plan.recorded_now
            &&& end is TimerFired <==> ended == Ok::<NifResultView, NifTimerErrorView>(
                NifResultView::Failure("timeout"@),
            )
            &&& end is TimerCancelled <==> ended == Ok::<NifResultView, NifTimerErrorView>(
                NifResultView::Value(operation),
            )
            &&& ended == Ok::<NifResultView, NifTimerErrorView>(
                recorded_timeout(operation, end_resolution(end)->Some_0),
            )
            &&& end is TimerCancelled ==> ended == Ok::<NifResultView, NifTimerErrorView>(
                recorded_timeout(operation, Resolution::TimerStarted),
            )
        }),
{
    let begun = started_live(bridge, place, plan).0;
    live_timers_are_recorded_and_scheduled(bridge, place, plan);
    if out_of_time(operation, plan.duration) {
        recorded_events_come_last(
            begun,
            place,
            plan.fire_at,
            EventBody::TimerFired { timer_id: plan.timer_id },
        );
    } else {
        recorded_events_come_last(
            begun,
            place,
            plan.recorded_now,
            EventBody::TimerCancelled { timer_id: plan.timer_id },
        );
    }
    let after = timed_live(bridge, place, plan, operation).0;
    let history = history_at(after, place);
    let n = history_at(bridge, place).len() as int;
    assert(history.take(n) =~= history.drop_last().drop_last());
}

/// A replayed timeout hands back its operation or fails: whatever the history resolves it to, no other
/// value comes of it, and only a timer that was started and did not fire lets the operation through.
pub proof fn replayed_timeouts_invent_no_value(operation: Seq<char>, resolution: Resolution)
    ensures
        match recorded_timeout(operation, resolution) {
            NifResultView::Value(text) => text == operation && (resolution is TimerStarted
                || resolution is TimerCancelled),
            NifResultView::Failure(_) => !(resolution is TimerStarted) && !(
            resolution is TimerCancelled),
        },
{
}

/// Replaying a sleep gives what finishing it gave. A sleep that is finished leaves its timer as fired,
/// at its due time, as the last event of the history, and succeeds; a replay that resolves it by that
/// event gives the same, and one that finds anything else fails.
pub proof fn replayed_sleeps_end_as_they_did(
    bridge: BridgeView,
    place: int,
    plan: TimerPlanView,
    resolution: Resolution,
)
    requires
        0 <= place < bridge.handles.len(),
        finished_sleep(bridge, place, plan).1 is Ok,
    ensures
        ({
            let (after, ended) = finished_sleep(bridge, place, plan);
            let history = history_at(after, place);
            let end = history.last();
            &&& history.drop_last() == history_at(bridge, place)
            &&& end.body == (EventBody::TimerFired { timer_id: plan.timer_id })
            &&& end.envelope.recorded_at == plan.fire_at
            &&& ended == Ok::<NifResultView, NifTimerErrorView>(NifResultView::Value("fired"@))
            &&& ended == Ok::<NifResultView, NifTimerErrorView>(
                recorded_sleep(end_resolution(end.body)->Some_0),
            )
            &&& recorded_sleep(resolution) is Value <==> resolution is TimerFired
        }),
{
    recorded_events_come_last(
        bridge,
        place,
        plan.fire_at,
        EventBody::TimerFired { timer_id: plan.timer_id },
    );
}

/// Replaying a `start_timer` call gives what carrying it out gave, whether the timer has fired since
/// or not; where it was cancelled, or the history does not tell of a timer, the replay fails.
pub proof fn replayed_starts_end_as_they_did(
    bridge: BridgeView,
    place: int,
    plan: TimerPlanView,
    resolution: Resolution,
)
    requires
        timer_begun(bridge, place, plan).1 is Ok,
    ensures
        ({
            let started = timer_begun(bridge, place, plan).1;
            &&& started == Ok::<NifResultView, NifTimerErrorView>(
                recorded_start(plan.timer_id, Resolution::TimerStarted),
            )
            &&& started == Ok::<NifResultView, NifTimerErrorView>(
                recorded_start(plan.timer_id, Resolution::TimerFired),
            )
            &&& plan.timer_id matches TimerIdView::Named(name) ==> started == Ok::<
                NifResultView,
                NifTimerErrorView,
            >(NifResultView::Value(name))
            &&& recorded_start(plan.timer_id, resolution) is Value <==> resolution is TimerStarted
                || resolution is TimerFired
        }),
{
}

/// The reference that `start_timer` hands out denotes the timer that was started, so that
/// `cancel_timer` finds it. A name with the prefix of listed timers is not handed out as it was given:
/// it would lose the prefix again.
pub proof fn references_denote_their_timer(label: Seq<char>, name: Seq<char>)
    requires
        name.len() > 0,
        !"timer:named:"@.is_prefix_of(name),
    ensures
        timer_argument(label, Ok(reference_of(TimerIdView::Named(name)))) == Ok::<
            TimerIdView,
            NifTimerErrorView,
        >(TimerIdView::Named(name)),
        timer_argument(label, Ok("timer:named:"@ + name)) == Ok::<TimerIdView, NifTimerErrorView>(
            TimerIdView::Named(name),
        ),
        timer_argument(label, Ok(Seq::empty())) is Err,
{
    let prefix = "timer:named:"@;
    reveal_strlit("timer:named:");
    assert(prefix.is_prefix_of(prefix + name)) by {
        assert((prefix + name).subrange(0, prefix.len() as int) =~= prefix);
    }
    assert((prefix + name).skip(prefix.len() as int) =~= name);
}

/// Replaying a `cancel_timer` call gives what carrying it out gave. Carried out, it leaves the timer
/// settled and succeeds, whether it cancelled the timer or found it settled; a replay that finds the
/// timer fired or cancelled gives the same, and any other fails.
pub proof fn replayed_cancellations_end_as_they_did(
    bridge: BridgeView,
    place: int,
    recorded_at: Timestamp,
    timer_id: TimerIdView,
    resolution: Resolution,
)
    requires
        own_recorders(bridge.handles),
        0 <= place < bridge.handles.len(),
        timer_given_up(bridge, place, recorded_at, timer_id).1 is Ok,
    ensures
        ({
            let (after, ended) = timer_given_up(bridge, place, recorded_at, timer_id);
            let workflow_id = bridge.handles[place].workflow_id;
            &&& is_settled(history_in(after.histories, workflow_id), timer_id)
            &&& is_settled(history_in(bridge.histories, workflow_id), timer_id) ==> after == bridge
            &&& !is_settled(history_in(bridge.histories, workflow_id), timer_id) ==> history_in(
                after.histories,
                workflow_id,
            ).last().body == (EventBody::TimerCancelled { timer_id })
            &&& timer_id is Named
            &&& ended == Ok::<NifResultView, NifTimerErrorView>(
                NifResultView::Value("cancelled"@),
            )
            &&& ended == Ok::<NifResultView, NifTimerErrorView>(
                recorded_cancel(Resolution::TimerCancelled),
            )
            &&& ended == Ok::<NifResultView, NifTimerErrorView>(
                recorded_cancel(Resolution::TimerFired),
            )
            &&& recorded_cancel(resolution) is Value <==> resolution is TimerCancelled
                || resolution is TimerFired
        }),
{
    let workflow_id = bridge.handles[place].workflow_id;
    if !is_settled(history_in(bridge.histories, workflow_id), timer_id) {
        let body = EventBody::TimerCancelled { timer_id };
        recorded_end_settles(bridge, workflow_id, recorded_at, body, timer_id);
        let first = first_place(bridge.handles, of_workflow(workflow_id));
        first_place_in_range(bridge.handles, of_workflow(workflow_id));
        recorded_events_come_last(bridge, first, recorded_at, body);
    }
}

/// A planned timer is due exactly the milliseconds that were asked for behind the recorded time, which
/// is that of the last event of the history, or the start of 1970 where there is none.
pub proof fn planned_timers_are_due_in_time(
    bridge: BridgeView,
    place: int,
    timer_id: TimerIdView,
    millis: u64,
    plan: TimerPlan,
)
    requires
        planned(bridge, place, timer_id, millis, Ok(plan)),
        0 <= plan@.recorded_now.subsec_nanos() < 1_000_000_000,
    ensures
        plan@.timer_id == timer_id,
        plan@.fire_at.seconds() * 1_000_000_000 + plan@.fire_at.subsec_nanos()
            == plan@.recorded_now.seconds() * 1_000_000_000 + plan@.recorded_now.subsec_nanos()
            + millis * 1_000_000,
        history_at(bridge, place).len() > 0 ==> plan@.recorded_now == history_at(
            bridge,
            place,
        ).last().envelope.recorded_at,
        history_at(bridge, place).len() == 0 ==> plan@.recorded_now.seconds() == 0
            && plan@.recorded_now.subsec_nanos() == 0,
{
    let now = plan@.recorded_now;
    let span = plan@.duration;
    assert(now.after_spec(span) == Ok::<(int, int), SpanError>(
        moved(now.seconds(), now.subsec_nanos(), span.whole_secs(), span.sub_nanos()),
    ));
    assert(millis == (millis / 1000) * 1000 + millis % 1000);
}

/// A replay that finds no value says why: the timer was cancelled, it ran out, or the history tells of
/// something else.
pub proof fn replays_explain_their_failures(
    timer_id: TimerIdView,
    operation: Seq<char>,
    resolution: Resolution,
)
    ensures
        recorded_sleep(Resolution::TimerCancelled) == NifResultView::Failure("cancelled"@),
        recorded_start(timer_id, Resolution::TimerCancelled) == NifResultView::Failure(
            "cancelled"@,
        ),
        recorded_timeout(operation, Resolution::TimerFired) == NifResultView::Failure("timeout"@),
        !(resolution is TimerFired || resolution is TimerCancelled || resolution is TimerStarted)
            ==> recorded_sleep(resolution) == NifResultView::Failure("sleep history mismatch"@)
            && recorded_start(timer_id, resolution) == NifResultView::Failure(
            "start_timer history mismatch"@,
        ) && recorded_cancel(resolution) == NifResultView::Failure(
            "cancel_timer history mismatch"@,
        ) && recorded_timeout(operation, resolution) == NifResultView::Failure(
            "with_timeout history mismatch"@,
        ),
{
}

/// A duration that was written in decimal is read as that many milliseconds. An argument that could not
/// be fetched fails with its own reason, and one that is no number names the argument.
pub proof fn durations_are_read_as_written(
    label: Seq<char>,
    millis: u64,
    argument: Result<Seq<char>, Seq<char>>,
)
    ensures
        duration_argument(label, Ok(decimal(millis as nat))) == Ok::<u64, NifTimerErrorView>(millis),
        argument matches Err(reason) ==> duration_argument(label, argument) == Err::<
            u64,
            NifTimerErrorView,
        >(NifTimerErrorView::Argument(reason)),
        duration_argument(label, argument) is Ok <==> argument is Ok && parsed_u64(
            argument->Ok_0,
        ) is Some,
        argument is Ok && parsed_u64(argument->Ok_0) is None ==> (duration_argument(
            label,
            argument,
        ) matches Err(NifTimerErrorView::Argument(reason)) && label.is_prefix_of(reason)),
{
    decimals_are_read_back(millis);
    if argument is Ok && parsed_u64(argument->Ok_0) is None {
        let reason = label + ": "@ + parse_refusal(argument->Ok_0);
        assert(label =~= reason.take(label.len() as int));
    }
}

/// A timer that could not be started left no row, and says which step failed: the recording, or the
/// scheduling, which a sleep tells as its own.
pub proof fn failed_starts_schedule_nothing(
    bridge: BridgeView,
    place: int,
    plan: TimerPlanView,
)
    requires
        0 <= place < bridge.handles.len(),
        started_live(bridge, place, plan).1 is Err,
    ensures
        ({
            let (after, started) = started_live(bridge, place, plan);
            let (begun, recorded) = call_recorded(
                bridge,
                place,
                plan.recorded_now,
                EventBody::TimerStarted { timer_id: plan.timer_id, fire_at: plan.fire_at },
            );
            &&& after.timers == bridge.timers
            &&& recorded is Err ==> after.histories == bridge.histories
                && started->Err_0 is Durability
            &&& recorded is Ok && plan.timer_id is Named ==> started->Err_0 is Timer
            &&& recorded is Ok && plan.timer_id is Anonymous ==> started->Err_0 is Sleep
        }),
{
}

/// A timer is not planned where its history cannot be read, or where its time cannot be represented;
/// the failure is told.
pub proof fn unplanned_timers_tell_why(
    bridge: BridgeView,
    place: int,
    timer_id: TimerIdView,
    millis: u64,
    refusal: NifTimerError,
)
    requires
        planned(bridge, place, timer_id, millis, Err(refusal)),
    ensures
        ({
            let failure = failing(
                bridge.failures,
                StoreCall::ReadHistory { workflow_id: bridge.handles[place].recorder.workflow_id },
            );
            &&& failure matches Some(error) ==> refusal@ == NifTimerErrorView::Durability(
                DurabilityErrorView::Store(error),
            )
            &&& failure is None ==> refusal@ == NifTimerErrorView::Argument(
                "duration is out of range"@,
            ) || refusal@ == NifTimerErrorView::Argument("timer fire_at overflowed"@)
        }),
{
}

/// The text of a failed timer call says which step failed, followed by the reason.
pub proof fn failed_calls_say_which_step(
    reason: Seq<char>,
    durability: DurabilityErrorView,
    timer: TimerServiceErrorView,
    sleep: SleepTimerErrorView,
)
    ensures
        NifTimerErrorView::Argument(reason).text() == "argument:"@ + reason,
        NifTimerErrorView::Context(reason).text() == "context:"@ + reason,
        NifTimerErrorView::Durability(durability).text() == "durability:"@ + durability.text(),
        NifTimerErrorView::Timer(timer).text() == "timer:"@ + timer.text(),
        NifTimerErrorView::Sleep(sleep).text() == "sleep:"@ + sleep.text(),
{
}

} // verus!
