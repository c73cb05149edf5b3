//! Terminal outcomes of workflow runs.

use vstd::prelude::*;
use vstd::string::*;

use crate::error::{EngineError, EngineErrorView};
use crate::event::{event_views, Event, EventBody, EventView};
use crate::ids::{hyphenated, hyphenated_is_injective, RunId, WorkflowId};
use crate::payload::{Payload, PayloadView, WorkflowError, WorkflowErrorView};
use crate::projection::{lifecycle_status, status_of, WorkflowStatus};
use crate::text::{clone_optional_text, joined, optional_text};

verus! {

/// How a run ended.
#[derive(Debug, PartialEq, Eq)]
pub enum TerminalOutcome {
    /// With a result.
    Completed(Payload),
    /// With a failure.
    Failed(WorkflowError),
    /// By cancellation, for a reason.
    Cancelled(String),
    /// By a timeout.
    TimedOut(String),
    /// By continuing as a new run.
    ContinuedAsNew {
        /// Input of the new run.
        input: Payload,
        /// Type of the new run, where it differs.
        workflow_type: Option<String>,
        /// The run that ended.
        parent_run_id: RunId,
    },
}

/// Mathematical value of a [`TerminalOutcome`].
pub enum TerminalOutcomeView {
    /// With a result.
    Completed(PayloadView),
    /// With a failure.
    Failed(WorkflowErrorView),
    /// By cancellation, for a reason.
    Cancelled(Seq<char>),
    /// By a timeout.
    TimedOut(Seq<char>),
    /// By continuing as a new run.
    ContinuedAsNew {
        /// Input of the new run.
        input: PayloadView,
        /// Type of the new run, where it differs.
        workflow_type: Option<Seq<char>>,
        /// The run that ended.
        parent_run_id: RunId,
    },
}

impl View for TerminalOutcome {
    type V = TerminalOutcomeView;

    open spec fn view(&self) -> TerminalOutcomeView {
        match self {
            TerminalOutcome::Completed(result) => TerminalOutcomeView::Completed(result@),
            TerminalOutcome::Failed(error) => TerminalOutcomeView::Failed(error@),
            TerminalOutcome::Cancelled(reason) => TerminalOutcomeView::Cancelled(reason@),
            TerminalOutcome::TimedOut(timeout) => TerminalOutcomeView::TimedOut(timeout@),
            TerminalOutcome::ContinuedAsNew {
                input,
                workflow_type,
                parent_run_id,
            } => TerminalOutcomeView::ContinuedAsNew {
                input: input@,
                workflow_type: optional_text(*workflow_type),
                parent_run_id: *parent_run_id,
            },
        }
    }
}

/// The outcome that a terminal event stands for.
pub open spec fn outcome_of(body: EventBody) -> Option<TerminalOutcomeView> {
    match body {
        EventBody::WorkflowCompleted { result } => Some(TerminalOutcomeView::Completed(result)),
        EventBody::WorkflowFailed { error } => Some(TerminalOutcomeView::Failed(error)),
        EventBody::WorkflowCancelled { reason } => Some(TerminalOutcomeView::Cancelled(reason)),
        EventBody::WorkflowTimedOut { timeout } => Some(TerminalOutcomeView::TimedOut(timeout)),
        EventBody::WorkflowContinuedAsNew { input, workflow_type, parent_run_id } => Some(
            TerminalOutcomeView::ContinuedAsNew { input, workflow_type, parent_run_id },
        ),
        _ => None,
    }
}

/// The outcome of the latest run of a history: that of its last lifecycle event, if that ended the
/// run.
pub open spec fn terminal_outcome(history: Seq<EventView>) -> Option<TerminalOutcomeView>
    decreases history.len(),
{
    if history.len() == 0 {
        None
    } else if lifecycle_status(history.last().body) is Some {
        outcome_of(history.last().body)
    } else {
        terminal_outcome(history.drop_last())
    }
}

/// A history has an outcome exactly when its projected status is not running.
pub proof fn outcome_agrees_with_status(history: Seq<EventView>)
    ensures
        terminal_outcome(history) is Some <==> status_of(history) != WorkflowStatus::Running,
    decreases history.len(),
{
    if history.len() > 0 {
        outcome_agrees_with_status(history.drop_last());
    }
}

/// The outcome that a terminal event stands for.
fn outcome_of_event(event: &Event) -> (outcome: Option<TerminalOutcome>)
    ensures
        match outcome_of(event@.body) {
            Some(view) => outcome matches Some(o) && o@ == view,
            None => outcome is None,
        },
{
    match event {
        Event::WorkflowCompleted { result, .. } => Some(TerminalOutcome::Completed(result.clone())),
        Event::WorkflowFailed { error, .. } => Some(TerminalOutcome::Failed(error.clone())),
        Event::WorkflowCancelled { reason, .. } => Some(TerminalOutcome::Cancelled(reason.clone())),
        Event::WorkflowTimedOut { timeout, .. } => Some(TerminalOutcome::TimedOut(timeout.clone())),
        Event::WorkflowContinuedAsNew { input, workflow_type, parent_run_id, .. } => Some(
            TerminalOutcome::ContinuedAsNew {
                input: input.clone(),
                workflow_type: clone_optional_text(workflow_type),
                parent_run_id: *parent_run_id,
            },
        ),
        _ => None,
    }
}

/// The run that a history started last.
pub open spec fn latest_run(history: Seq<EventView>) -> Option<RunId>
    decreases history.len(),
{
    if history.len() == 0 {
        None
    } else {
        match history.last().body {
            EventBody::WorkflowStarted { run_id, .. } => Some(run_id),
            _ => latest_run(history.drop_last()),
        }
    }
}

/// A terminal event behind `earlier` ends the run: the run was started last, or the event continues
/// it as a new one.
pub open spec fn ends_run(earlier: Seq<EventView>, body: EventBody, run: RunId) -> bool {
    outcome_of(body) is Some && (latest_run(earlier) == Some(run) || (
    body matches EventBody::WorkflowContinuedAsNew { parent_run_id, .. } && parent_run_id == run))
}

/// The outcome of one run of a history: that of the event that ended it, unless it was started
/// again.
pub open spec fn run_outcome(history: Seq<EventView>, run: RunId) -> Option<TerminalOutcomeView>
    decreases history.len(),
{
    if history.len() == 0 {
        None
    } else {
        let earlier = history.drop_last();
        let body = history.last().body;
        if ends_run(earlier, body, run) {
            outcome_of(body)
        } else if body matches EventBody::WorkflowStarted { run_id, .. } && run_id == run {
            None
        } else {
            run_outcome(earlier, run)
        }
    }
}

/// The outcome of a history is that of the run that it started last.
pub proof fn latest_run_answers_for_its_history(history: Seq<EventView>, run: RunId)
    requires
        latest_run(history) == Some(run),
    ensures
        run_outcome(history, run) == terminal_outcome(history),
    decreases history.len(),
{
    if history.len() > 0 && !(history.last().body is WorkflowStarted) {
        latest_run_answers_for_its_history(history.drop_last(), run);
    }
}

/// An event speaks of the run: it starts it, or continues it as a new one.
pub open spec fn speaks_of(body: EventBody, run: RunId) -> bool {
    ||| body matches EventBody::WorkflowStarted { run_id, .. } && run_id == run
    ||| body matches EventBody::WorkflowContinuedAsNew { parent_run_id, .. } && parent_run_id
        == run
}

/// A run of which a history does not speak has no outcome in it.
pub proof fn unknown_runs_have_no_outcome(history: Seq<EventView>, run: RunId)
    requires
        forall|i: int| 0 <= i < history.len() ==> !speaks_of((#[trigger] history[i]).body, run),
    ensures
        run_outcome(history, run) is None,
        latest_run(history) != Some(run),
    decreases history.len(),
{
    if history.len() > 0 {
        let earlier = history.drop_last();
        assert forall|i: int| 0 <= i < earlier.len() implies !speaks_of(
            (#[trigger] earlier[i]).body,
            run,
        ) by {
            assert(earlier[i] == history[i]);
        }
        assert(!speaks_of(history[history.len() - 1].body, run));
        unknown_runs_have_no_outcome(earlier, run);
    }
}

/// The outcome of one run of a history, if it ended.
pub fn run_outcome_from_history(events: &[Event], run: &RunId) -> (outcome: Option<TerminalOutcome>)
    ensures
        match run_outcome(event_views(events@), *run) {
            Some(view) => outcome matches Some(o) && o@ == view,
            None => outcome is None,
        },
{
    let ghost views = event_views(events@);
    let mut latest: Option<RunId> = None;
    let mut outcome: Option<TerminalOutcome> = None;
    let mut i: usize = 0;
    assert(views.take(0) =~= Seq::empty());
    while i < events.len()
        invariant
            i <= events.len(),
            views == event_views(events@),
            latest == latest_run(views.take(i as int)),
            match run_outcome(views.take(i as int), *run) {
                Some(view) => outcome matches Some(o) && o@ == view,
                None => outcome is None,
            },
        decreases events.len() - i,
    {
        assert(views.take(i + 1).drop_last() =~= views.take(i as int));
        assert(views.take(i + 1).last() == events@[i as int]@);
        match &events[i] {
            Event::WorkflowStarted { run_id, .. } => {
                latest = Some(*run_id);
                if *run_id == *run {
                    outcome = None;
                }
            },
            event => {
                let continued = match event {
                    Event::WorkflowContinuedAsNew { parent_run_id, .. } => *parent_run_id == *run,
                    _ => false,
                };
                match outcome_of_event(event) {
                    Some(ended) => if continued || latest == Some(*run) {
                        outcome = Some(ended);
                    },
                    None => {},
                }
            },
        }
        i += 1;
    }
    assert(views.take(i as int) =~= views);
    outcome
}

/// The outcome of the latest run of a history, if it ended.
pub fn terminal_outcome_from_history(events: &[Event]) -> (outcome: Option<TerminalOutcome>)
    ensures
        match terminal_outcome(event_views(events@)) {
            Some(view) => outcome matches Some(o) && o@ == view,
            None => outcome is None,
        },
{
    let ghost views = event_views(events@);
    let mut i: usize = events.len();
    assert(views.take(i as int) =~= views);
    while i > 0
        invariant
            i <= events.len(),
            views == event_views(events@),
            terminal_outcome(views) == terminal_outcome(views.take(i as int)),
        decreases i,
    {
        assert(views.take(i as int).drop_last() =~= views.take(i - 1));
        assert(views.take(i as int).last() == events@[i - 1]@);
        i -= 1;
        match outcome_of_event(&events[i]) {
            Some(outcome) => {
                return Some(outcome);
            },
            None => match &events[i] {
                Event::WorkflowStarted { .. } => {
                    return None;
                },
                _ => {},
            },
        }
    }
    assert(views.take(0) =~= Seq::empty());
    None
}

/// A failure that consists of a message.
pub open spec fn failure(message: Seq<char>) -> WorkflowErrorView {
    WorkflowErrorView { message, details: None }
}

/// What a caller that waits for a run gets of its outcome.
pub open spec fn result_of(outcome: TerminalOutcomeView) -> Result<PayloadView, WorkflowErrorView> {
    match outcome {
        TerminalOutcomeView::Completed(payload) => Ok(payload),
        TerminalOutcomeView::Failed(error) => Err(error),
        TerminalOutcomeView::Cancelled(reason) => Err(failure("workflow cancelled: "@ + reason)),
        TerminalOutcomeView::TimedOut(timeout) => Err(failure("workflow timed out: "@ + timeout)),
        TerminalOutcomeView::ContinuedAsNew { parent_run_id, .. } => Err(
            failure(
                "workflow continued as new from run "@ + hyphenated(parent_run_id.value),
            ),
        ),
    }
}

/// Mathematical value of a run's result.
pub open spec fn result_view(result: Result<Payload, WorkflowError>) -> Result<
    PayloadView,
    WorkflowErrorView,
> {
    match result {
        Ok(payload) => Ok(payload@),
        Err(error) => Err(error@),
    }
}

/// What a caller that waits for a run gets of its outcome.
pub fn outcome_to_result(outcome: TerminalOutcome) -> (result: Result<Payload, WorkflowError>)
    ensures
        result_view(result) == result_of(outcome@),
{
    match outcome {
        TerminalOutcome::Completed(payload) => Ok(payload),
        TerminalOutcome::Failed(error) => Err(error),
        TerminalOutcome::Cancelled(reason) => Err(
            WorkflowError {
                message: joined("workflow cancelled: ", reason.as_str()),
                details: None,
            },
        ),
        TerminalOutcome::TimedOut(timeout) => Err(
            WorkflowError {
                message: joined("workflow timed out: ", timeout.as_str()),
                details: None,
            },
        ),
        TerminalOutcome::ContinuedAsNew { parent_run_id, .. } => Err(
            WorkflowError {
                message: joined(
                    "workflow continued as new from run ",
                    parent_run_id.to_string().as_str(),
                ),
                details: None,
            },
        ),
    }
}

/// Workflow and run, as they appear in messages.
pub open spec fn run_text(id: WorkflowId, run: RunId) -> Seq<char> {
    hyphenated(id.value) + "/"@ + hyphenated(run.value)
}

/// Workflow and run, as they appear in messages.
pub fn run_label(id: &WorkflowId, run: &RunId) -> (label: String)
    ensures
        label@ == run_text(*id, *run),
{
    let mut label = id.to_string();
    label.append("/");
    label.append(run.to_string().as_str());
    label
}

/// The refusal of an unknown run.
pub fn workflow_not_found(id: &WorkflowId, run: &RunId) -> (error: EngineError)
    ensures
        error@ == (EngineErrorView::WorkflowNotFound { workflow_type: run_text(*id, *run) }),
{
    EngineError::WorkflowNotFound { workflow_type: run_label(id, run) }
}

/// A caller gets a result exactly of a run that completed, and then the recorded one. Of a run that
/// failed it gets the recorded error, message and details unchanged. Of any other end it gets a failure
/// without details, whose message ends in what was recorded.
pub proof fn callers_get_what_was_recorded(outcome: TerminalOutcomeView)
    ensures
        result_of(outcome) is Ok <==> outcome is Completed,
        outcome matches TerminalOutcomeView::Completed(payload) ==> result_of(outcome) == Ok::<
            PayloadView,
            WorkflowErrorView,
        >(payload),
        outcome matches TerminalOutcomeView::Failed(error) ==> result_of(outcome) == Err::<
            PayloadView,
            WorkflowErrorView,
        >(error),
        outcome matches TerminalOutcomeView::Cancelled(reason) ==> result_of(outcome) == Err::<
            PayloadView,
            WorkflowErrorView,
        >(WorkflowErrorView { message: "workflow cancelled: "@ + reason, details: None }),
        outcome matches TerminalOutcomeView::TimedOut(timeout) ==> result_of(outcome) == Err::<
            PayloadView,
            WorkflowErrorView,
        >(WorkflowErrorView { message: "workflow timed out: "@ + timeout, details: None }),
        outcome matches TerminalOutcomeView::ContinuedAsNew { parent_run_id, .. } ==> result_of(
            outcome,
        ) == Err::<PayloadView, WorkflowErrorView>(
            WorkflowErrorView {
                message: "workflow continued as new from run "@ + hyphenated(
                    parent_run_id.value,
                ),
                details: None,
            },
        ),
{
}

/// The event starts a run.
pub open spec fn starts(event: EventView) -> bool {
    event.body is WorkflowStarted
}

/// The event ends a run: with a result, a failure, a cancellation or a timeout, or by continuing.
pub open spec fn ends(event: EventView) -> bool {
    ||| event.body is WorkflowCompleted
    ||| event.body is WorkflowFailed
    ||| event.body is WorkflowCancelled
    ||| event.body is WorkflowTimedOut
    ||| event.body is WorkflowContinuedAsNew
}

/// The history starts the run at `from`, ends it at `to` and does not start or end anything in between
/// or behind, nor continue the run elsewhere behind.
pub open spec fn spans_run(history: Seq<EventView>, run: RunId, from: int, to: int) -> bool {
    &&& 0 <= from < to < history.len()
    &&& history[from].body matches EventBody::WorkflowStarted { run_id, .. } && run_id == run
    &&& ends(history[to])
    &&& forall|i: int| from < i < to ==> !starts(#[trigger] history[i])
    &&& forall|i: int| to < i < history.len() ==> !speaks_of((#[trigger] history[i]).body, run)
    &&& forall|i: int|
        to < i < history.len() && ends(#[trigger] history[i]) ==> exists|k: int|
            to < k < i && starts(#[trigger] history[k])
}

/// What an event that ends a run stands for, by what it recorded.
pub open spec fn recorded_end(body: EventBody, outcome: TerminalOutcomeView) -> bool {
    match body {
        EventBody::WorkflowCompleted { result } => outcome == TerminalOutcomeView::Completed(
            result,
        ),
        EventBody::WorkflowFailed { error } => outcome == TerminalOutcomeView::Failed(error),
        EventBody::WorkflowCancelled { reason } => outcome == TerminalOutcomeView::Cancelled(
            reason,
        ),
        EventBody::WorkflowTimedOut { timeout } => outcome == TerminalOutcomeView::TimedOut(
            timeout,
        ),
        EventBody::WorkflowContinuedAsNew { input, workflow_type, parent_run_id } => outcome == (
        TerminalOutcomeView::ContinuedAsNew { input, workflow_type, parent_run_id }),
        _ => false,
    }
}

proof fn latest_run_is_the_last_start(history: Seq<EventView>, from: int)
    requires
        0 <= from < history.len(),
        starts(history[from]),
        forall|i: int| from < i < history.len() ==> !starts(#[trigger] history[i]),
    ensures
        latest_run(history) == Some(history[from].body->WorkflowStarted_run_id),
    decreases history.len(),
{
    if from < history.len() - 1 {
        assert(!starts(history[history.len() - 1]));
        let earlier = history.drop_last();
        assert(forall|i: int| from < i < earlier.len() ==> #[trigger] earlier[i] == history[i]);
        latest_run_is_the_last_start(earlier, from);
    }
}

proof fn later_starts_hide_the_run(history: Seq<EventView>, run: RunId, start: int)
    requires
        0 <= start < history.len(),
        starts(history[start]),
        forall|i: int| start <= i < history.len() ==> !speaks_of((#[trigger] history[i]).body, run),
    ensures
        latest_run(history) != Some(run),
    decreases history.len(),
{
    if !starts(history.last()) {
        let earlier = history.drop_last();
        assert(forall|i: int| start <= i < earlier.len() ==> #[trigger] earlier[i] == history[i]);
        later_starts_hide_the_run(earlier, run, start);
    } else {
        assert(!speaks_of(history[history.len() - 1].body, run));
    }
}

/// The outcome of a run is what the event that ended it recorded, whatever the history tells behind it
/// of other runs or of anything else.
pub proof fn runs_end_as_recorded(history: Seq<EventView>, run: RunId, from: int, to: int)
    requires
        spans_run(history, run, from, to),
    ensures
        run_outcome(history, run) matches Some(outcome) && recorded_end(history[to].body, outcome),
    decreases history.len(),
{
    let earlier = history.drop_last();
    if to == history.len() - 1 {
        assert(forall|i: int| from < i < earlier.len() ==> #[trigger] earlier[i] == history[i]);
        assert(starts(earlier[from]));
        latest_run_is_the_last_start(earlier, from);
    } else {
        assert(!speaks_of(history[history.len() - 1].body, run));
        assert(earlier[to] == history[to]);
        assert(earlier[from] == history[from]);
        assert(forall|i: int| from < i < earlier.len() ==> #[trigger] earlier[i] == history[i]);
        assert forall|i: int| to < i < earlier.len() && ends(#[trigger] earlier[i]) implies exists|
            k: int,
        | to < k < i && starts(#[trigger] earlier[k]) by {
            assert(ends(history[i]));
            let k = choose|k: int| to < k < i && starts(#[trigger] history[k]);
            assert(starts(earlier[k]));
        }
        runs_end_as_recorded(earlier, run, from, to);
        if ends(history.last()) {
            assert(ends(history[history.len() - 1]));
            let k = choose|k: int| to < k < history.len() - 1 && starts(#[trigger] history[k]);
            assert(starts(earlier[k]));
            assert forall|i: int| k <= i < earlier.len() implies !speaks_of(
                (#[trigger] earlier[i]).body,
                run,
            ) by {
                assert(earlier[i] == history[i]);
            }
            later_starts_hide_the_run(earlier, run, k);
        }
    }
}

/// A run that was started and of which no end is recorded has no outcome.
pub proof fn open_runs_have_no_outcome(history: Seq<EventView>, run: RunId, from: int)
    requires
        0 <= from < history.len(),
        history[from].body matches EventBody::WorkflowStarted { run_id, .. } && run_id == run,
        forall|i: int|
            from < i < history.len() ==> !starts(#[trigger] history[i]) && !ends(history[i]),
    ensures
        run_outcome(history, run) is None,
    decreases history.len(),
{
    if from < history.len() - 1 {
        let earlier = history.drop_last();
        assert(!starts(history[history.len() - 1]) && !ends(history[history.len() - 1]));
        assert(forall|i: int| from <= i < earlier.len() ==> #[trigger] earlier[i] == history[i]);
        open_runs_have_no_outcome(earlier, run, from);
    }
}

/// The text of a run names its workflow and the run, so that no two runs share one.
pub proof fn run_texts_name_their_run(id: WorkflowId, run: RunId, other: WorkflowId, other_run: RunId)
    requires
        run_text(id, run) == run_text(other, other_run),
    ensures
        id == other,
        run == other_run,
{
    reveal_strlit("/");
    let a = hyphenated(id.value);
    let b = hyphenated(run.value);
    let c = hyphenated(other.value);
    let d = hyphenated(other_run.value);
    assert(run_text(id, run).take(36) =~= a);
    assert(run_text(other, other_run).take(36) =~= c);
    assert(run_text(id, run).skip(37) =~= b);
    assert(run_text(other, other_run).skip(37) =~= d);
    hyphenated_is_injective(id.value, other.value);
    hyphenated_is_injective(run.value, other_run.value);
}

/// A history ends as its last start or end says: it has the outcome of an end, and none behind a start or
/// before anything happened.
pub proof fn histories_end_as_their_last_turn(history: Seq<EventView>, last: int)
    requires
        -1 <= last < history.len(),
        last >= 0 ==> starts(history[last]) || ends(history[last]),
        forall|i: int|
            last < i < history.len() ==> !starts(#[trigger] history[i]) && !ends(history[i]),
    ensures
        last < 0 || starts(history[last]) ==> terminal_outcome(history) is None,
        last >= 0 && ends(history[last]) ==> (terminal_outcome(history) matches Some(outcome)
            && recorded_end(history[last].body, outcome)),
    decreases history.len(),
{
    if history.len() > 0 {
        let rest = history.drop_last();
        if last < rest.len() {
            assert(!starts(history[history.len() - 1]) && !ends(history[history.len() - 1]));
            assert(forall|i: int| 0 <= i < rest.len() ==> #[trigger] rest[i] == history[i]);
            histories_end_as_their_last_turn(rest, last);
        }
    }
}

/// The run that a history started last is that of its last start.
pub proof fn latest_runs_started_last(history: Seq<EventView>, last: int)
    requires
        -1 <= last < history.len(),
        last >= 0 ==> starts(history[last]),
        forall|i: int| last < i < history.len() ==> !starts(#[trigger] history[i]),
    ensures
        last < 0 ==> latest_run(history) is None,
        last >= 0 ==> (history[last].body matches EventBody::WorkflowStarted { run_id, .. }
            && latest_run(history) == Some(run_id)),
    decreases history.len(),
{
    if history.len() > 0 {
        let rest = history.drop_last();
        if last < rest.len() {
            assert(!starts(history[history.len() - 1]));
            assert(forall|i: int| 0 <= i < rest.len() ==> #[trigger] rest[i] == history[i]);
            latest_runs_started_last(rest, last);
        }
    }
}

/// A run that is continued as a new one ends there, also where another run was started since. An event
/// that neither ends the latest run, nor continues or starts the run, leaves its outcome as it was.
pub proof fn continued_runs_end_there(history: Seq<EventView>, event: EventView, run: RunId)
    ensures
        event.body matches EventBody::WorkflowContinuedAsNew { parent_run_id, .. } && parent_run_id
            == run ==> (run_outcome(history.push(event), run) matches Some(outcome)
            && recorded_end(event.body, outcome)),
        event.body matches EventBody::WorkflowStarted { run_id, .. } && run_id == run ==> run_outcome(
            history.push(event),
            run,
        ) is None,
        !starts(event) && !ends(event) ==> run_outcome(history.push(event), run) == run_outcome(
            history,
            run,
        ),
        latest_run(history) != Some(run) && !speaks_of(event.body, run) ==> run_outcome(
            history.push(event),
            run,
        ) == run_outcome(history, run),
{
    assert(history.push(event).drop_last() =~= history);
}

} // verus!
