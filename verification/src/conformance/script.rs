//! Scripts: what a scenario asks of a store, and which answers it takes.

use vstd::prelude::*;
use vstd::seq_lib::*;
use vstd::string::*;

use crate::conformance::expect::{
    checked, checked_count, expect, expect_contains_exactly, expect_count, expect_empty,
    expect_events, expect_numbers, expect_runs, expect_summary_workflows, expect_timer_entries,
    expect_values, number_list, summary_workflows, with_values,
};
use crate::conformance::trial::{
    after_append, append_reply, keeps, Exchange, StoreUnderTest, Trial, World,
};
use crate::error::{store_outcome, StoreError, StoreErrorView};
use crate::event::{event_views, Event, EventView};
use crate::ids::{TimerId, TimerIdView, WorkflowId};
use crate::order::{
    listings_hold_the_same, lists, mapped_elements_are_the_same, same_elements_contain,
};
use crate::projection::{
    run_chain, RunSummary, WorkflowFilter, WorkflowFilterView, WorkflowStatus, WorkflowSummary,
    WorkflowSummaryView,
};
use crate::store::{
    active_workflows, due_timers, failing, history_in, selected_summaries, timer_views,
    workflow_summary_views, StoreCall, TimerEntry, TimerEntryView,
};
use crate::text::{decimal, joined, quoted, quoted_text, same_text};
use crate::timestamp::Timestamp;

verus! {

/// What is expected of one part of a summary.
pub enum SummaryPart {
    /// It is of this workflow.
    Workflow(WorkflowId),
    /// It has this type.
    Type(&'static str),
    /// It has this status.
    Status(WorkflowStatus),
    /// It was started at this time.
    StartedAt(Timestamp),
    /// It ended at this time.
    EndedAt(Timestamp),
}

/// A check of one part of a summary.
pub struct SummaryCheck {
    /// What is expected.
    pub part: SummaryPart,
    /// What is said where it is not so.
    pub message: &'static str,
}

/// One request of a script, with the answer that is expected.
pub enum Step {
    /// A batch is accepted.
    Append {
        /// The workflow.
        workflow_id: WorkflowId,
        /// The batch.
        events: Vec<Event>,
        /// Head that the history is expected to have.
        expected_seq: u64,
    },
    /// A batch is refused, because the head is another.
    Conflict {
        /// The workflow.
        workflow_id: WorkflowId,
        /// The batch.
        events: Vec<Event>,
        /// Head that the batch expects.
        expected_seq: u64,
        /// Head that is reported.
        found: u64,
        /// What is said where it is not so.
        message: &'static str,
    },
    /// A workflow has no history.
    NoHistory {
        /// The workflow.
        workflow_id: WorkflowId,
        /// What is said where it is not so.
        message: &'static str,
    },
    /// A history holds these events.
    History {
        /// The workflow.
        workflow_id: WorkflowId,
        /// The events.
        events: Vec<Event>,
        /// What is said where it is not so.
        message: &'static str,
    },
    /// A long history holds these events, which are numbered from one.
    LongHistory {
        /// The workflow.
        workflow_id: WorkflowId,
        /// The events.
        events: Vec<Event>,
    },
    /// A workflow has no runs.
    NoRuns {
        /// The workflow.
        workflow_id: WorkflowId,
        /// What is said where it is not so.
        message: &'static str,
    },
    /// A workflow has these runs.
    Runs {
        /// The workflow.
        workflow_id: WorkflowId,
        /// The runs.
        runs: Vec<RunSummary>,
        /// What is said where it is not so.
        message: &'static str,
    },
    /// No workflow is active.
    NoneActive {
        /// What is said where it is not so.
        message: &'static str,
    },
    /// These workflows are active.
    Active {
        /// The workflows.
        workflows: Vec<WorkflowId>,
        /// What is said where it is not so.
        message: &'static str,
    },
    /// A filter selects no workflow.
    NoSummaries {
        /// The filter.
        filter: WorkflowFilter,
        /// What is said where it is not so.
        message: &'static str,
    },
    /// A filter selects these workflows.
    Summaries {
        /// The filter.
        filter: WorkflowFilter,
        /// The workflows.
        workflows: Vec<WorkflowId>,
        /// What is said where it is not so.
        message: &'static str,
    },
    /// A filter selects one workflow, whose summary passes the checks.
    SoleSummary {
        /// The filter.
        filter: WorkflowFilter,
        /// What is said where it is not one.
        message: &'static str,
        /// The checks, in order.
        checks: Vec<SummaryCheck>,
    },
    /// A timer is scheduled.
    ScheduleTimer {
        /// The workflow.
        workflow_id: WorkflowId,
        /// The timer.
        timer_id: TimerId,
        /// When it is due.
        fire_at: Timestamp,
    },
    /// No timer is due.
    NoTimers {
        /// At this time.
        as_of: Timestamp,
        /// What is said where it is not so.
        message: &'static str,
    },
    /// These timers are due.
    Timers {
        /// At this time.
        as_of: Timestamp,
        /// The timers.
        entries: Vec<TimerEntry>,
        /// What is said where it is not so.
        message: &'static str,
    },
}

/// Mathematical value of a [`SummaryPart`].
pub enum SummaryPartView {
    /// It is of this workflow.
    Workflow(WorkflowId),
    /// It has this type.
    Type(Seq<char>),
    /// It has this status.
    Status(WorkflowStatus),
    /// It was started at this time.
    StartedAt(Timestamp),
    /// It ended at this time.
    EndedAt(Timestamp),
}

/// Mathematical value of a [`SummaryCheck`].
pub struct SummaryCheckView {
    /// What is expected.
    pub part: SummaryPartView,
    /// What is said where it is not so.
    pub message: Seq<char>,
}

/// Mathematical value of a [`Step`].
pub enum StepView {
    /// A batch is accepted.
    Append { workflow_id: WorkflowId, events: Seq<EventView>, expected_seq: u64 },
    /// A batch is refused, because the head is another.
    Conflict {
        workflow_id: WorkflowId,
        events: Seq<EventView>,
        expected_seq: u64,
        found: u64,
        message: Seq<char>,
    },
    /// A workflow has no history.
    NoHistory { workflow_id: WorkflowId, message: Seq<char> },
    /// A history holds these events.
    History { workflow_id: WorkflowId, events: Seq<EventView>, message: Seq<char> },
    /// A long history holds these events, which are numbered from one.
    LongHistory { workflow_id: WorkflowId, events: Seq<EventView> },
    /// A workflow has no runs.
    NoRuns { workflow_id: WorkflowId, message: Seq<char> },
    /// A workflow has these runs.
    Runs { workflow_id: WorkflowId, runs: Seq<RunSummary>, message: Seq<char> },
    /// No workflow is active.
    NoneActive { message: Seq<char> },
    /// These workflows are active.
    Active { workflows: Seq<WorkflowId>, message: Seq<char> },
    /// A filter selects no workflow.
    NoSummaries { filter: WorkflowFilterView, message: Seq<char> },
    /// A filter selects these workflows.
    Summaries { filter: WorkflowFilterView, workflows: Seq<WorkflowId>, message: Seq<char> },
    /// A filter selects one workflow, whose summary passes the checks.
    SoleSummary {
        filter: WorkflowFilterView,
        message: Seq<char>,
        checks: Seq<SummaryCheckView>,
    },
    /// A timer is scheduled.
    ScheduleTimer { workflow_id: WorkflowId, timer_id: TimerIdView, fire_at: Timestamp },
    /// No timer is due.
    NoTimers { as_of: Timestamp, message: Seq<char> },
    /// These timers are due.
    Timers { as_of: Timestamp, entries: Seq<TimerEntryView>, message: Seq<char> },
}

impl View for SummaryCheck {
    type V = SummaryCheckView;

    open spec fn view(&self) -> SummaryCheckView {
        SummaryCheckView {
            part: match self.part {
                SummaryPart::Workflow(id) => SummaryPartView::Workflow(id),
                SummaryPart::Type(name) => SummaryPartView::Type(name@),
                SummaryPart::Status(status) => SummaryPartView::Status(status),
                SummaryPart::StartedAt(at) => SummaryPartView::StartedAt(at),
                SummaryPart::EndedAt(at) => SummaryPartView::EndedAt(at),
            },
            message: self.message@,
        }
    }
}

/// Mathematical values of a list of checks.
pub open spec fn check_views(checks: Seq<SummaryCheck>) -> Seq<SummaryCheckView> {
    checks.map_values(|check: SummaryCheck| check@)
}

impl View for Step {
    type V = StepView;

    open spec fn view(&self) -> StepView {
        match *self {
            Step::Append { workflow_id, events, expected_seq } => StepView::Append {
                workflow_id,
                events: event_views(events@),
                expected_seq,
            },
            Step::Conflict { workflow_id, events, expected_seq, found, message } => {
                StepView::Conflict {
                    workflow_id,
                    events: event_views(events@),
                    expected_seq,
                    found,
                    message: message@,
                }
            },
            Step::NoHistory { workflow_id, message } => StepView::NoHistory {
                workflow_id,
                message: message@,
            },
            Step::History { workflow_id, events, message } => StepView::History {
                workflow_id,
                events: event_views(events@),
                message: message@,
            },
            Step::LongHistory { workflow_id, events } => StepView::LongHistory {
                workflow_id,
                events: event_views(events@),
            },
            Step::NoRuns { workflow_id, message } => StepView::NoRuns {
                workflow_id,
                message: message@,
            },
            Step::Runs { workflow_id, runs, message } => StepView::Runs {
                workflow_id,
                runs: runs@,
                message: message@,
            },
            Step::NoneActive { message } => StepView::NoneActive { message: message@ },
            Step::Active { workflows, message } => StepView::Active {
                workflows: workflows@,
                message: message@,
            },
            Step::NoSummaries { filter, message } => StepView::NoSummaries {
                filter: filter@,
                message: message@,
            },
            Step::Summaries { filter, workflows, message } => StepView::Summaries {
                filter: filter@,
                workflows: workflows@,
                message: message@,
            },
            Step::SoleSummary { filter, message, checks } => StepView::SoleSummary {
                filter: filter@,
                message: message@,
                checks: check_views(checks@),
            },
            Step::ScheduleTimer { workflow_id, timer_id, fire_at } => StepView::ScheduleTimer {
                workflow_id,
                timer_id: timer_id@,
                fire_at,
            },
            Step::NoTimers { as_of, message } => StepView::NoTimers { as_of, message: message@ },
            Step::Timers { as_of, entries, message } => StepView::Timers {
                as_of,
                entries: timer_views(entries@),
                message: message@,
            },
        }
    }
}

/// Mathematical values of a list of steps.
pub open spec fn step_views(steps: Seq<Step>) -> Seq<StepView> {
    steps.map_values(|step: Step| step@)
}

/// The first of two checks decides, unless it passes.
pub open spec fn both(
    first: Result<(), StoreErrorView>,
    second: Result<(), StoreErrorView>,
) -> Result<(), StoreErrorView> {
    match first {
        Ok(()) => second,
        Err(error) => Err(error),
    }
}

/// The check that nothing was returned.
pub open spec fn checked_empty(len: nat, message: Seq<char>) -> Result<(), StoreErrorView> {
    checked(len == 0, message + " (got "@ + decimal(len) + " items)"@)
}

/// Sequence numbers of events.
pub open spec fn sequences(events: Seq<EventView>) -> Seq<u64> {
    events.map_values(|event: EventView| event.envelope.seq)
}

/// The numbers from one on.
pub open spec fn counted_up(count: nat) -> Seq<u64> {
    Seq::new(count, |i: int| (i + 1) as u64)
}

/// The check of a long history.
pub open spec fn long_history_check(
    history: Seq<EventView>,
    events: Seq<EventView>,
) -> Result<(), StoreErrorView> {
    both(
        checked_count(
            history.len(),
            events.len(),
            "large history read should return the full appended event count"@,
        ),
        both(
            checked(
                sequences(history) == counted_up(events.len()),
                with_values(
                    "large history read should return events in ascending sequence order"@,
                    number_list(counted_up(events.len())),
                    number_list(sequences(history)),
                ),
            ),
            checked(
                history == events,
                "large history read should round-trip all appended batches"@,
            ),
        ),
    )
}

/// The part of a summary is as expected.
pub open spec fn part_holds(part: SummaryPartView, summary: WorkflowSummaryView) -> bool {
    match part {
        SummaryPartView::Workflow(id) => summary.workflow_id == id,
        SummaryPartView::Type(name) => summary.workflow_type == name,
        SummaryPartView::Status(status) => summary.status == status,
        SummaryPartView::StartedAt(at) => summary.started_at == at,
        SummaryPartView::EndedAt(at) => summary.ended_at == Some(at),
    }
}

/// Text of an instant that there may be.
pub open spec fn optional_instant_label(at: Option<Timestamp>) -> Seq<char> {
    match at {
        Some(at) => "Some("@ + at.label() + ")"@,
        None => "None"@,
    }
}

/// What is said where a part of a summary is not as expected: texts and times stand behind the
/// message.
pub open spec fn part_message(check: SummaryCheckView, summary: WorkflowSummaryView) -> Seq<char> {
    match check.part {
        SummaryPartView::Type(name) => with_values(
            check.message,
            quoted(name),
            quoted(summary.workflow_type),
        ),
        SummaryPartView::StartedAt(at) => with_values(
            check.message,
            at.label(),
            summary.started_at.label(),
        ),
        SummaryPartView::EndedAt(at) => with_values(
            check.message,
            optional_instant_label(Some(at)),
            optional_instant_label(summary.ended_at),
        ),
        _ => check.message,
    }
}

/// The checks of a summary, in order.
pub open spec fn summary_check(checks: Seq<SummaryCheckView>, summary: WorkflowSummaryView) -> Result<
    (),
    StoreErrorView,
>
    decreases checks.len(),
{
    if checks.len() == 0 {
        Ok(())
    } else {
        both(
            summary_check(checks.drop_last(), summary),
            checked(
                part_holds(checks.last().part, summary),
                part_message(checks.last(), summary),
            ),
        )
    }
}

/// Workflows of a list of summaries.
pub open spec fn workflows_of(summaries: Seq<WorkflowSummaryView>) -> Seq<WorkflowId> {
    summaries.map_values(|summary: WorkflowSummaryView| summary.workflow_id)
}

/// The check that one summary was returned, and that it is as expected.
pub open spec fn sole_summary_check(
    summaries: Seq<WorkflowSummaryView>,
    message: Seq<char>,
    checks: Seq<SummaryCheckView>,
) -> Result<(), StoreErrorView> {
    both(checked_count(summaries.len(), 1, message), summary_check(checks, summaries[0]))
}

/// What comes of an answer: its failure is handed back, and a value is checked.
pub open spec fn judged<T>(
    reply: Result<T, StoreErrorView>,
    check: spec_fn(T) -> Result<(), StoreErrorView>,
) -> Result<(), StoreErrorView> {
    match reply {
        Ok(value) => check(value),
        Err(error) => Err(error),
    }
}

/// What comes of an exchange, where it is the one that the step asks for.
pub open spec fn verdict(step: StepView, exchange: Exchange) -> Option<Result<(), StoreErrorView>> {
    match (step, exchange) {
        (
            StepView::Append { workflow_id, events, expected_seq },
            Exchange::Append { workflow_id: id, events: batch, expected_seq: head, reply },
        ) if id == workflow_id && batch == events && head == expected_seq => Some(reply),
        (
            StepView::Conflict { workflow_id, events, expected_seq, found, message },
            Exchange::Append { workflow_id: id, events: batch, expected_seq: head, reply },
        ) if id == workflow_id && batch == events && head == expected_seq => Some(
            checked(
                reply == Err::<(), StoreErrorView>(
                    StoreErrorView::SequenceConflict { expected: expected_seq, found },
                ),
                message,
            ),
        ),
        (
            StepView::NoHistory { workflow_id, message },
            Exchange::ReadHistory { workflow_id: id, reply },
        ) if id == workflow_id => Some(
            judged(reply, |history: Seq<EventView>| checked_empty(history.len(), message)),
        ),
        (
            StepView::History { workflow_id, events, message },
            Exchange::ReadHistory { workflow_id: id, reply },
        ) if id == workflow_id => Some(
            judged(reply, |history: Seq<EventView>| checked(history == events, message)),
        ),
        (
            StepView::LongHistory { workflow_id, events },
            Exchange::ReadHistory { workflow_id: id, reply },
        ) if id == workflow_id => Some(
            judged(reply, |history: Seq<EventView>| long_history_check(history, events)),
        ),
        (
            StepView::NoRuns { workflow_id, message },
            Exchange::ReadRunChain { workflow_id: id, reply },
        ) if id == workflow_id => Some(
            judged(reply, |chain: Seq<RunSummary>| checked_empty(chain.len(), message)),
        ),
        (
            StepView::Runs { workflow_id, runs, message },
            Exchange::ReadRunChain { workflow_id: id, reply },
        ) if id == workflow_id => Some(
            judged(reply, |chain: Seq<RunSummary>| checked(chain == runs, message)),
        ),
        (StepView::NoneActive { message }, Exchange::ListActive { reply }) => Some(
            judged(reply, |ids: Seq<WorkflowId>| checked_empty(ids.len(), message)),
        ),
        (StepView::Active { workflows, message }, Exchange::ListActive { reply }) => Some(
            judged(
                reply,
                |ids: Seq<WorkflowId>|
                    checked(ids.to_multiset() == workflows.to_multiset(), message),
            ),
        ),
        (
            StepView::NoSummaries { filter, message },
            Exchange::Query { filter: selecting, reply },
        ) if selecting == filter => Some(
            judged(
                reply,
                |summaries: Seq<WorkflowSummaryView>| checked_empty(summaries.len(), message),
            ),
        ),
        (
            StepView::Summaries { filter, workflows, message },
            Exchange::Query { filter: selecting, reply },
        ) if selecting == filter => Some(
            judged(
                reply,
                |summaries: Seq<WorkflowSummaryView>|
                    checked(
                        workflows_of(summaries).to_multiset() == workflows.to_multiset(),
                        message,
                    ),
            ),
        ),
        (
            StepView::SoleSummary { filter, message, checks },
            Exchange::Query { filter: selecting, reply },
        ) if selecting == filter => Some(
            judged(
                reply,
                |summaries: Seq<WorkflowSummaryView>|
                    sole_summary_check(summaries, message, checks),
            ),
        ),
        (
            StepView::ScheduleTimer { workflow_id, timer_id, fire_at },
            Exchange::ScheduleTimer { workflow_id: id, timer_id: timer, fire_at: at, reply },
        ) if id == workflow_id && timer == timer_id && at == fire_at => Some(reply),
        (
            StepView::NoTimers { as_of, message },
            Exchange::ExpiredTimers { as_of: at, reply },
        ) if at == as_of => Some(
            judged(reply, |due: Seq<TimerEntryView>| checked_empty(due.len(), message)),
        ),
        (
            StepView::Timers { as_of, entries, message },
            Exchange::ExpiredTimers { as_of: at, reply },
        ) if at == as_of => Some(
            judged(
                reply,
                |due: Seq<TimerEntryView>|
                    checked(due.to_multiset() == entries.to_multiset(), message),
            ),
        ),
        _ => None,
    }
}

/// Every exchange is the one that its step asks for, and was taken.
pub open spec fn passed(script: Seq<StepView>, exchanges: Seq<Exchange>) -> bool {
    forall|i: int|
        0 <= i < exchanges.len() ==> verdict(script[i], #[trigger] exchanges[i]) == Some(
            Ok::<(), StoreErrorView>(()),
        )
}

/// The exchanges follow the script, and decide the outcome: it passes exactly where every answer is
/// taken, and else ends at the first answer that is not, with what comes of that answer.
pub open spec fn followed(
    script: Seq<StepView>,
    exchanges: Seq<Exchange>,
    outcome: Result<(), StoreErrorView>,
) -> bool {
    match outcome {
        Ok(()) => exchanges.len() == script.len() && passed(script, exchanges),
        Err(error) => {
            &&& 0 < exchanges.len() <= script.len()
            &&& passed(script, exchanges.drop_last())
            &&& verdict(script[exchanges.len() - 1], exchanges.last()) == Some(
                Err::<(), StoreErrorView>(error),
            )
        },
    }
}

/// Some list of the values of a map.
pub open spec fn listing_of<K, V>(wanted: Map<K, V>) -> Seq<V> {
    choose|values: Seq<V>| lists(values, wanted)
}

/// What a store that holds `world` answers to a reading request, if it does not fail.
pub open spec fn answer<T>(world: World, call: StoreCall, value: T) -> Result<T, StoreErrorView> {
    match failing(world.failures, call) {
        Some(error) => Err(error),
        None => Ok(value),
    }
}

/// The exchange that a step leads to with a store that keeps its contract. The order in which such
/// a store lists its values is left open.
pub open spec fn contracted(step: StepView, world: World) -> Exchange {
    match step {
        StepView::Append { workflow_id, events, expected_seq } => Exchange::Append {
            workflow_id,
            events,
            expected_seq,
            reply: append_reply(world, workflow_id, events, expected_seq),
        },
        StepView::Conflict { workflow_id, events, expected_seq, .. } => Exchange::Append {
            workflow_id,
            events,
            expected_seq,
            reply: append_reply(world, workflow_id, events, expected_seq),
        },
        StepView::NoHistory { workflow_id, .. } => Exchange::ReadHistory {
            workflow_id,
            reply: answer(
                world,
                StoreCall::ReadHistory { workflow_id },
                history_in(world.histories, workflow_id),
            ),
        },
        StepView::History { workflow_id, .. } => Exchange::ReadHistory {
            workflow_id,
            reply: answer(
                world,
                StoreCall::ReadHistory { workflow_id },
                history_in(world.histories, workflow_id),
            ),
        },
        StepView::LongHistory { workflow_id, .. } => Exchange::ReadHistory {
            workflow_id,
            reply: answer(
                world,
                StoreCall::ReadHistory { workflow_id },
                history_in(world.histories, workflow_id),
            ),
        },
        StepView::NoRuns { workflow_id, .. } => Exchange::ReadRunChain {
            workflow_id,
            reply: answer(
                world,
                StoreCall::ReadRunChain { workflow_id },
                run_chain(history_in(world.histories, workflow_id)),
            ),
        },
        StepView::Runs { workflow_id, .. } => Exchange::ReadRunChain {
            workflow_id,
            reply: answer(
                world,
                StoreCall::ReadRunChain { workflow_id },
                run_chain(history_in(world.histories, workflow_id)),
            ),
        },
        StepView::NoneActive { .. } => Exchange::ListActive {
            reply: answer(
                world,
                StoreCall::ListActive,
                listing_of(active_workflows(world.histories)),
            ),
        },
        StepView::Active { .. } => Exchange::ListActive {
            reply: answer(
                world,
                StoreCall::ListActive,
                listing_of(active_workflows(world.histories)),
            ),
        },
        StepView::NoSummaries { filter, .. } => Exchange::Query {
            filter,
            reply: answer(
                world,
                StoreCall::Query { filter },
                listing_of(selected_summaries(world.histories, filter)),
            ),
        },
        StepView::Summaries { filter, .. } => Exchange::Query {
            filter,
            reply: answer(
                world,
                StoreCall::Query { filter },
                listing_of(selected_summaries(world.histories, filter)),
            ),
        },
        StepView::SoleSummary { filter, .. } => Exchange::Query {
            filter,
            reply: answer(
                world,
                StoreCall::Query { filter },
                listing_of(selected_summaries(world.histories, filter)),
            ),
        },
        StepView::ScheduleTimer { workflow_id, timer_id, fire_at } => Exchange::ScheduleTimer {
            workflow_id,
            timer_id,
            fire_at,
            reply: answer(world, StoreCall::ScheduleTimer { workflow_id, timer_id, fire_at }, ()),
        },
        StepView::NoTimers { as_of, .. } => Exchange::ExpiredTimers {
            as_of,
            reply: answer(
                world,
                StoreCall::ExpiredTimers { as_of },
                listing_of(due_timers(world.timers, as_of)),
            ),
        },
        StepView::Timers { as_of, .. } => Exchange::ExpiredTimers {
            as_of,
            reply: answer(
                world,
                StoreCall::ExpiredTimers { as_of },
                listing_of(due_timers(world.timers, as_of)),
            ),
        },
    }
}

/// What a store that keeps its contract holds behind a step.
pub open spec fn after_step(step: StepView, world: World) -> World {
    match step {
        StepView::Append { workflow_id, events, expected_seq } => after_append(
            world,
            workflow_id,
            events,
            expected_seq,
        ),
        StepView::Conflict { workflow_id, events, expected_seq, .. } => after_append(
            world,
            workflow_id,
            events,
            expected_seq,
        ),
        StepView::ScheduleTimer { workflow_id, timer_id, fire_at } => match failing(
            world.failures,
            StoreCall::ScheduleTimer { workflow_id, timer_id, fire_at },
        ) {
            Some(_) => world,
            None => World {
                timers: world.timers.insert((workflow_id, timer_id), fire_at),
                ..world
            },
        },
        _ => world,
    }
}

/// What comes of a step with a store that keeps its contract.
pub open spec fn modelled(step: StepView, world: World) -> Result<(), StoreErrorView> {
    verdict(step, contracted(step, world))->Some_0
}

/// What comes of a script with a store that keeps its contract.
pub open spec fn scripted(script: Seq<StepView>, world: World) -> Result<(), StoreErrorView>
    decreases script.len(),
{
    if script.len() == 0 {
        Ok(())
    } else {
        match modelled(script[0], world) {
            Ok(()) => scripted(script.drop_first(), after_step(script[0], world)),
            Err(error) => Err(error),
        }
    }
}

/// A listing has the values that any other has.
pub proof fn listed_alike<K, V>(values: Seq<V>, wanted: Map<K, V>)
    requires
        lists(values, wanted),
    ensures
        lists(listing_of(wanted), wanted),
        values.to_multiset() == listing_of(wanted).to_multiset(),
        values.len() == listing_of(wanted).len(),
        values.len() == 1 ==> values[0] == listing_of(wanted)[0],
{
    broadcast use group_to_multiset_ensures;

    let other = listing_of(wanted);
    listings_hold_the_same(values, other, wanted);
    assert(values.len() == values.to_multiset().len());
    assert(other.len() == other.to_multiset().len());
    if values.len() == 1 {
        assert(values.contains(values[0]));
        same_elements_contain(values, other, values[0]);
    }
}

/// What a store that keeps its contract answers comes to what the contract says.
proof fn contract_decides(step: StepView, exchange: Exchange, before: World, after: World)
    requires
        verdict(step, exchange) is Some,
        keeps(before, exchange, after),
    ensures
        verdict(step, exchange) == Some(modelled(step, before)),
        after == after_step(step, before),
{
    match exchange {
        Exchange::ListActive { reply: Ok(ids) } => {
            if failing(before.failures, StoreCall::ListActive) is None {
                listed_alike(ids, active_workflows(before.histories));
            }
        },
        Exchange::Query { filter, reply: Ok(summaries) } => {
            if failing(before.failures, StoreCall::Query { filter }) is None {
                let wanted = selected_summaries(before.histories, filter);
                listed_alike(summaries, wanted);
                mapped_elements_are_the_same(
                    summaries,
                    listing_of(wanted),
                    |summary: WorkflowSummaryView| summary.workflow_id,
                );
            }
        },
        Exchange::ExpiredTimers { as_of, reply: Ok(due) } => {
            if failing(before.failures, StoreCall::ExpiredTimers { as_of }) is None {
                listed_alike(due, due_timers(before.timers, as_of));
            }
        },
        _ => {},
    }
}

/// A script was played: every exchange of it is behind those before, the exchanges follow the script
/// and decide the outcome, and with a store that keeps its contract the outcome is what comes of the
/// script by what the store holds.
pub open spec fn played<S: StoreUnderTest>(
    script: Seq<StepView>,
    before: Trial<S>,
    after: Trial<S>,
    outcome: Result<(), StoreError>,
) -> bool {
    &&& after.given() == before.given()
    &&& after.log().len() >= before.log().len()
    &&& after.log().take(before.log().len() as int) == before.log()
    &&& followed(
        script,
        after.log().skip(before.log().len() as int),
        store_outcome(outcome),
    )
    &&& S::keeps_contract() ==> store_outcome(outcome) == scripted(script, before.world())
}

/// Sequence numbers of events.
pub fn event_sequences(events: &Vec<Event>) -> (numbers: Vec<u64>)
    ensures
        numbers@ == sequences(event_views(events@)),
{
    let ghost all = sequences(event_views(events@));
    let mut numbers: Vec<u64> = Vec::new();
    let mut i: usize = 0;
    while i < events.len()
        invariant
            i <= events.len(),
            all == sequences(event_views(events@)),
            numbers@ == all.take(i as int),
        decreases events.len() - i,
    {
        numbers.push(events[i].seq());
        proof {
            assert(all.take(i + 1) =~= all.take(i as int).push(all[i as int]));
        }
        i += 1;
    }
    proof {
        assert(all.take(i as int) =~= all);
    }
    numbers
}

fn numbers_up_to(count: usize) -> (numbers: Vec<u64>)
    ensures
        numbers@ == counted_up(count as nat),
{
    let mut numbers: Vec<u64> = Vec::new();
    let mut n: usize = 0;
    while n < count
        invariant
            n <= count,
            numbers@ == counted_up(n as nat),
        decreases count - n,
    {
        let next: u64 = n as u64 + 1;
        numbers.push(next);
        n += 1;
        assert(numbers@ =~= counted_up(n as nat));
    }
    assert(numbers@ =~= counted_up(count as nat));
    numbers
}

fn check_long_history(history: &Vec<Event>, events: &Vec<Event>) -> (check: Result<(), StoreError>)
    ensures
        store_outcome(check) == long_history_check(event_views(history@), event_views(events@)),
{
    assert(event_views(history@).len() == history@.len());
    assert(event_views(events@).len() == events@.len());
    expect_count(
        history.len(),
        events.len(),
        "large history read should return the full appended event count",
    )?;
    expect_numbers(
        &event_sequences(history),
        &numbers_up_to(events.len()),
        "large history read should return events in ascending sequence order",
    )?;
    expect_events(
        history,
        events,
        "large history read should round-trip all appended batches",
    )
}

fn optional_instant_text(at: &Option<Timestamp>) -> (text: String)
    ensures
        text@ == optional_instant_label(*at),
{
    match at {
        Some(at) => {
            let mut text = joined("Some(", at.to_label().as_str());
            text.append(")");
            text
        },
        None => "None".to_owned(),
    }
}

fn check_part(check: &SummaryCheck, summary: &WorkflowSummary) -> (outcome: Result<(), StoreError>)
    ensures
        store_outcome(outcome) == checked(
            part_holds(check@.part, summary@),
            part_message(check@, summary@),
        ),
{
    match &check.part {
        SummaryPart::Workflow(id) => expect(summary.workflow_id == *id, check.message),
        SummaryPart::Type(name) => expect_values(
            same_text(summary.workflow_type.as_str(), name),
            check.message,
            quoted_text(name).as_str(),
            quoted_text(summary.workflow_type.as_str()).as_str(),
        ),
        SummaryPart::Status(status) => expect(summary.status == *status, check.message),
        SummaryPart::StartedAt(at) => expect_values(
            summary.started_at == *at,
            check.message,
            at.to_label().as_str(),
            summary.started_at.to_label().as_str(),
        ),
        SummaryPart::EndedAt(at) => expect_values(
            summary.ended_at == Some(*at),
            check.message,
            optional_instant_text(&Some(*at)).as_str(),
            optional_instant_text(&summary.ended_at).as_str(),
        ),
    }
}

fn check_summary(checks: &Vec<SummaryCheck>, summary: &WorkflowSummary) -> (check: Result<
    (),
    StoreError,
>)
    ensures
        store_outcome(check) == summary_check(check_views(checks@), summary@),
{
    let ghost views = check_views(checks@);
    let mut i: usize = 0;
    assert(views.take(0) =~= Seq::empty());
    while i < checks.len()
        invariant
            i <= checks.len(),
            views == check_views(checks@),
            summary_check(views.take(i as int), summary@) is Ok,
        decreases checks.len() - i,
    {
        assert(views.take(i + 1).drop_last() =~= views.take(i as int));
        assert(views.take(i + 1).last() == checks@[i as int]@);
        match check_part(&checks[i], summary) {
            Ok(()) => {},
            Err(error) => {
                proof {
                    failed_check_decides(views, summary@, i + 1);
                }
                return Err(error);
            },
        }
        i += 1;
    }
    assert(views.take(i as int) =~= views);
    Ok(())
}

proof fn failed_check_decides(
    checks: Seq<SummaryCheckView>,
    summary: WorkflowSummaryView,
    done: int,
)
    requires
        0 <= done <= checks.len(),
        summary_check(checks.take(done), summary) is Err,
    ensures
        summary_check(checks, summary) == summary_check(checks.take(done), summary),
    decreases checks.len(),
{
    if done < checks.len() {
        assert(checks.drop_last().take(done) =~= checks.take(done));
        failed_check_decides(checks.drop_last(), summary, done);
    } else {
        assert(checks.take(done) =~= checks);
    }
}

fn check_sole_summary(
    summaries: &Vec<WorkflowSummary>,
    message: &str,
    checks: &Vec<SummaryCheck>,
) -> (check: Result<(), StoreError>)
    ensures
        store_outcome(check) == sole_summary_check(
            workflow_summary_views(summaries@),
            message@,
            check_views(checks@),
        ),
{
    assert(workflow_summary_views(summaries@).len() == summaries@.len());
    expect_count(summaries.len(), 1, message)?;
    assert(workflow_summary_views(summaries@)[0] == summaries@[0]@);
    check_summary(checks, &summaries[0])
}

/// Asks the store what a step asks for, and judges the answer.
pub fn perform<S: StoreUnderTest>(step: &Step, trial: &mut Trial<S>) -> (outcome: Result<
    (),
    StoreError,
>)
    ensures
        final(trial).given() == old(trial).given(),
        final(trial).log().len() == old(trial).log().len() + 1,
        final(trial).log().drop_last() == old(trial).log(),
        verdict(step@, final(trial).log().last()) == Some(store_outcome(outcome)),
        S::keeps_contract() ==> store_outcome(outcome) == modelled(step@, old(trial).world())
            && final(trial).world() == after_step(step@, old(trial).world()),
{
    let outcome = ask(step, trial);
    proof {
        if S::keeps_contract() {
            contract_decides(
                step@,
                trial.log().last(),
                old(trial).world(),
                trial.world(),
            );
        }
    }
    outcome
}

fn ask<S: StoreUnderTest>(step: &Step, trial: &mut Trial<S>) -> (outcome: Result<(), StoreError>)
    ensures
        final(trial).given() == old(trial).given(),
        final(trial).log().len() == old(trial).log().len() + 1,
        final(trial).log().drop_last() == old(trial).log(),
        verdict(step@, final(trial).log().last()) == Some(store_outcome(outcome)),
        S::keeps_contract() ==> keeps(
            old(trial).world(),
            final(trial).log().last(),
            final(trial).world(),
        ),
{
    match step {
        Step::Append { workflow_id, events, expected_seq } => {
            trial.append(workflow_id, events.as_slice(), *expected_seq)
        },
        Step::Conflict { workflow_id, events, expected_seq, found, message } => {
            let reply = trial.append(workflow_id, events.as_slice(), *expected_seq);
            let reported = match reply {
                Err(StoreError::SequenceConflict { expected, found: head }) => expected
                    == *expected_seq && head == *found,
                _ => false,
            };
            expect(reported, message)
        },
        Step::NoHistory { workflow_id, message } => {
            let history = trial.read_history(workflow_id)?;
            assert(event_views(history@).len() == history@.len());
            expect_empty(&history, message)
        },
        Step::History { workflow_id, events, message } => {
            let history = trial.read_history(workflow_id)?;
            expect_events(&history, events, message)
        },
        Step::LongHistory { workflow_id, events } => {
            let history = trial.read_history(workflow_id)?;
            check_long_history(&history, events)
        },
        Step::NoRuns { workflow_id, message } => {
            let chain = trial.read_run_chain(workflow_id)?;
            expect_empty(&chain, message)
        },
        Step::Runs { workflow_id, runs, message } => {
            let chain = trial.read_run_chain(workflow_id)?;
            expect_runs(&chain, runs, message)
        },
        Step::NoneActive { message } => {
            let ids = trial.list_active()?;
            expect_empty(&ids, message)
        },
        Step::Active { workflows, message } => {
            let ids = trial.list_active()?;
            expect_contains_exactly(ids, workflows, message)
        },
        Step::NoSummaries { filter, message } => {
            let summaries = trial.query(filter)?;
            assert(workflow_summary_views(summaries@).len() == summaries@.len());
            expect_empty(&summaries, message)
        },
        Step::Summaries { filter, workflows, message } => {
            let summaries = trial.query(filter)?;
            assert(workflows_of(workflow_summary_views(summaries@)) =~= summary_workflows(
                summaries@,
            ));
            expect_summary_workflows(summaries, workflows, message)
        },
        Step::SoleSummary { filter, message, checks } => {
            let summaries = trial.query(filter)?;
            check_sole_summary(&summaries, message, checks)
        },
        Step::ScheduleTimer { workflow_id, timer_id, fire_at } => {
            trial.schedule_timer(workflow_id, timer_id, *fire_at)
        },
        Step::NoTimers { as_of, message } => {
            let due = trial.expired_timers(*as_of)?;
            assert(timer_views(due@).len() == due@.len());
            expect_empty(&due, message)
        },
        Step::Timers { as_of, entries, message } => {
            let due = trial.expired_timers(*as_of)?;
            expect_timer_entries(due, entries, message)
        },
    }
}

/// Plays a script up to the first answer that is not taken.
pub fn play<S: StoreUnderTest>(steps: &Vec<Step>, trial: &mut Trial<S>) -> (outcome: Result<
    (),
    StoreError,
>)
    ensures
        played(step_views(steps@), *old(trial), *final(trial), outcome),
{
    let ghost script = step_views(steps@);
    let ghost from = trial.log().len() as int;
    let mut i: usize = 0;
    proof {
        assert(trial.log().take(from) =~= trial.log());
        assert(trial.log().skip(from) =~= Seq::empty());
        assert(script.skip(0) =~= script);
    }
    while i < steps.len()
        invariant
            i <= steps.len(),
            script == step_views(steps@),
            from == old(trial).log().len(),
            trial.given() == old(trial).given(),
            trial.log().len() == from + i,
            trial.log().take(from) == old(trial).log(),
            passed(script, trial.log().skip(from)),
            S::keeps_contract() ==> scripted(script, old(trial).world()) == scripted(
                script.skip(i as int),
                trial.world(),
            ),
        decreases steps.len() - i,
    {
        let ghost earlier = trial.log();
        proof {
            assert(script.skip(i as int)[0] == steps@[i as int]@);
            assert(script.skip(i as int).drop_first() =~= script.skip(i + 1));
        }
        let outcome = perform(&steps[i], trial);
        proof {
            let log = trial.log();
            let exchanges = log.skip(from);
            assert(log =~= earlier.push(log.last()));
            assert(log.take(from) =~= earlier.take(from));
            assert(exchanges =~= earlier.skip(from).push(log.last()));
            assert(exchanges.drop_last() =~= earlier.skip(from));
            assert(exchanges.last() == log.last());
            assert(script[i as int] == steps@[i as int]@);
        }
        match outcome {
            Ok(()) => {},
            Err(error) => {
                return Err(error);
            },
        }
        i += 1;
    }
    Ok(())
}

/// The answer passes the step.
pub open spec fn passes(step: StepView, exchange: Exchange) -> bool {
    verdict(step, exchange) == Some(Ok::<(), StoreErrorView>(()))
}

/// A batch passes when the store takes it, and one that must be refused passes exactly on the conflict
/// between the expected head and the given one.
pub proof fn append_steps_pass_on_their_answer(
    workflow_id: WorkflowId,
    events: Seq<EventView>,
    expected_seq: u64,
    found: u64,
    message: Seq<char>,
    reply: Result<(), StoreErrorView>,
)
    ensures
        passes(
            StepView::Append { workflow_id, events, expected_seq },
            Exchange::Append { workflow_id, events, expected_seq, reply },
        ) <==> reply is Ok,
        passes(
            StepView::Conflict { workflow_id, events, expected_seq, found, message },
            Exchange::Append { workflow_id, events, expected_seq, reply },
        ) <==> reply == Err::<(), StoreErrorView>(
            StoreErrorView::SequenceConflict { expected: expected_seq, found },
        ),
{
    if let Ok(taken) = reply {
        assert(taken == ());
    }
}

/// A history passes exactly when it holds the events that are asked for, in their order and no others.
/// A store that fails is told by its own failure.
pub proof fn history_steps_pass_on_the_history(
    workflow_id: WorkflowId,
    events: Seq<EventView>,
    message: Seq<char>,
    reply: Result<Seq<EventView>, StoreErrorView>,
)
    ensures
        ({
            let read = Exchange::ReadHistory { workflow_id, reply };
            let none = StepView::NoHistory { workflow_id, message };
            let whole = StepView::History { workflow_id, events, message };
            let long = StepView::LongHistory { workflow_id, events };
            &&& passes(whole, read) <==> reply == Ok::<Seq<EventView>, StoreErrorView>(events)
            &&& passes(none, read) <==> reply is Ok && reply->Ok_0.len() == 0
            &&& (forall|i: int|
                0 <= i < events.len() ==> (#[trigger] events[i]).envelope.seq == i + 1) ==> (passes(
                long,
                read,
            ) <==> reply == Ok::<Seq<EventView>, StoreErrorView>(events))
            &&& reply matches Err(error) ==> verdict(whole, read) == Some(
                Err::<(), StoreErrorView>(error),
            ) && verdict(none, read) == Some(Err::<(), StoreErrorView>(error)) && verdict(
                long,
                read,
            ) == Some(Err::<(), StoreErrorView>(error))
            &&& reply is Ok && reply->Ok_0 != events ==> verdict(whole, read) == Some(
                Err::<(), StoreErrorView>(
                    StoreErrorView::Backend("event store conformance failure: "@ + message),
                ),
            )
        }),
{
    if forall|i: int| 0 <= i < events.len() ==> (#[trigger] events[i]).envelope.seq == i + 1 {
        assert forall|i: int| 0 <= i < events.len() implies sequences(events)[i] == counted_up(
            events.len(),
        )[i] by {
            assert(events[i].envelope.seq == i + 1);
        }
        assert(sequences(events) =~= counted_up(events.len()));
    }
}

/// Runs pass exactly when they are the ones that are asked for, oldest first.
pub proof fn run_steps_pass_on_the_runs(
    workflow_id: WorkflowId,
    runs: Seq<RunSummary>,
    message: Seq<char>,
    reply: Result<Seq<RunSummary>, StoreErrorView>,
)
    ensures
        passes(
            StepView::Runs { workflow_id, runs, message },
            Exchange::ReadRunChain { workflow_id, reply },
        ) <==> reply == Ok::<Seq<RunSummary>, StoreErrorView>(runs),
        passes(
            StepView::NoRuns { workflow_id, message },
            Exchange::ReadRunChain { workflow_id, reply },
        ) <==> reply is Ok && reply->Ok_0.len() == 0,
{
}

/// Active workflows and due timers pass exactly when they are those that are asked for, each as often
/// and in any order.
pub proof fn listing_steps_pass_on_the_same_entries(
    workflows: Seq<WorkflowId>,
    as_of: Timestamp,
    entries: Seq<TimerEntryView>,
    message: Seq<char>,
    ids: Result<Seq<WorkflowId>, StoreErrorView>,
    due: Result<Seq<TimerEntryView>, StoreErrorView>,
)
    ensures
        passes(StepView::Active { workflows, message }, Exchange::ListActive { reply: ids }) <==> ids
            is Ok && ids->Ok_0.to_multiset() == workflows.to_multiset(),
        passes(StepView::NoneActive { message }, Exchange::ListActive { reply: ids }) <==> ids is Ok
            && ids->Ok_0.len() == 0,
        passes(
            StepView::Timers { as_of, entries, message },
            Exchange::ExpiredTimers { as_of, reply: due },
        ) <==> due is Ok && due->Ok_0.to_multiset() == entries.to_multiset(),
        passes(
            StepView::NoTimers { as_of, message },
            Exchange::ExpiredTimers { as_of, reply: due },
        ) <==> due is Ok && due->Ok_0.len() == 0,
{
}

/// Summaries pass exactly when they are of the workflows that are asked for, each as often and in any
/// order; a sole summary passes when there is one, and every part of it that is asked for holds.
pub proof fn summary_steps_pass_on_their_summaries(
    filter: WorkflowFilterView,
    workflows: Seq<WorkflowId>,
    checks: Seq<SummaryCheckView>,
    message: Seq<char>,
    reply: Result<Seq<WorkflowSummaryView>, StoreErrorView>,
)
    ensures
        ({
            let asked = Exchange::Query { filter, reply };
            &&& passes(StepView::NoSummaries { filter, message }, asked) <==> reply is Ok
                && reply->Ok_0.len() == 0
            &&& passes(StepView::Summaries { filter, workflows, message }, asked) <==> reply is Ok
                && reply->Ok_0.map_values(
                |summary: WorkflowSummaryView| summary.workflow_id,
            ).to_multiset() == workflows.to_multiset()
            &&& passes(StepView::SoleSummary { filter, message, checks }, asked) <==> reply is Ok
                && reply->Ok_0.len() == 1 && forall|i: int|
                0 <= i < checks.len() ==> part_holds(
                    (#[trigger] checks[i]).part,
                    reply->Ok_0[0],
                )
        }),
{
    if reply is Ok {
        summaries_pass_when_every_part_holds(checks, reply->Ok_0[0]);
    }
}

proof fn summaries_pass_when_every_part_holds(
    checks: Seq<SummaryCheckView>,
    summary: WorkflowSummaryView,
)
    ensures
        summary_check(checks, summary) is Ok <==> forall|i: int|
            0 <= i < checks.len() ==> part_holds((#[trigger] checks[i]).part, summary),
    decreases checks.len(),
{
    if checks.len() > 0 {
        let rest = checks.drop_last();
        summaries_pass_when_every_part_holds(rest, summary);
        assert(forall|i: int| 0 <= i < rest.len() ==> #[trigger] rest[i] == checks[i]);
        assert(checks.last() == checks[checks.len() - 1]);
        if summary_check(checks, summary) is Ok {
            assert forall|i: int| 0 <= i < checks.len() implies part_holds(
                (#[trigger] checks[i]).part,
                summary,
            ) by {
                if i < rest.len() {
                    assert(part_holds(rest[i].part, summary));
                }
            }
        }
        if forall|i: int| 0 <= i < checks.len() ==> part_holds((#[trigger] checks[i]).part, summary) {
            assert(forall|i: int|
                0 <= i < rest.len() ==> part_holds((#[trigger] rest[i]).part, summary));
            assert(part_holds(checks[checks.len() - 1].part, summary));
        }
    }
}

/// Every part of a summary is compared with the part of the same name.
pub proof fn parts_are_compared_by_name(
    summary: WorkflowSummaryView,
    id: WorkflowId,
    name: Seq<char>,
    status: WorkflowStatus,
    at: Timestamp,
)
    ensures
        part_holds(SummaryPartView::Workflow(id), summary) <==> summary.workflow_id == id,
        part_holds(SummaryPartView::Type(name), summary) <==> summary.workflow_type == name,
        part_holds(SummaryPartView::Status(status), summary) <==> summary.status == status,
        part_holds(SummaryPartView::StartedAt(at), summary) <==> summary.started_at == at,
        part_holds(SummaryPartView::EndedAt(at), summary) <==> summary.ended_at == Some(at),
{
}

/// A step that passed is the one that was asked: a request for another workflow, batch or time than the
/// step's passes nothing.
pub proof fn steps_pass_on_their_own_request(
    workflow_id: WorkflowId,
    other: WorkflowId,
    events: Seq<EventView>,
    batch: Seq<EventView>,
    message: Seq<char>,
    reply: Result<Seq<EventView>, StoreErrorView>,
    taken: Result<(), StoreErrorView>,
    expected_seq: u64,
    head: u64,
    timer_id: TimerIdView,
    timer: TimerIdView,
    fire_at: Timestamp,
    at: Timestamp,
    due: Result<Seq<TimerEntryView>, StoreErrorView>,
    entries: Seq<TimerEntryView>,
    runs: Seq<RunSummary>,
    chain: Result<Seq<RunSummary>, StoreErrorView>,
)
    ensures
        passes(
            StepView::ScheduleTimer { workflow_id, timer_id, fire_at },
            Exchange::ScheduleTimer { workflow_id: other, timer_id: timer, fire_at: at, reply: taken },
        ) ==> other == workflow_id && timer == timer_id && at == fire_at && taken is Ok,
        passes(
            StepView::Timers { as_of: fire_at, entries, message },
            Exchange::ExpiredTimers { as_of: at, reply: due },
        ) ==> at == fire_at,
        passes(
            StepView::Runs { workflow_id, runs, message },
            Exchange::ReadRunChain { workflow_id: other, reply: chain },
        ) ==> other == workflow_id,
        passes(
            StepView::History { workflow_id, events, message },
            Exchange::ReadHistory { workflow_id: other, reply },
        ) ==> other == workflow_id,
        passes(
            StepView::Append { workflow_id, events, expected_seq },
            Exchange::Append {
                workflow_id: other,
                events: batch,
                expected_seq: head,
                reply: taken,
            },
        ) ==> other == workflow_id && batch == events && head == expected_seq,
{
}

/// A long history that does not pass is told by what is wrong first: how many events it has, how they are
/// numbered, or what they are.
pub proof fn long_histories_are_told_by_what_is_wrong(
    history: Seq<EventView>,
    events: Seq<EventView>,
)
    ensures
        ({
            let outcome = long_history_check(history, events);
            let numbered = forall|i: int|
                0 <= i < history.len() ==> (#[trigger] history[i]).envelope.seq == (i + 1) as u64;
            let told = |message: Seq<char>|
                Err::<(), StoreErrorView>(
                    StoreErrorView::Backend("event store conformance failure: "@ + message),
                );
            &&& history.len() != events.len() ==> outcome == told(
                "large history read should return the full appended event count"@
                    + "\n  expected: "@ + decimal(events.len()) + "\n  actual: "@ + decimal(
                    history.len(),
                ),
            )
            &&& history.len() == events.len() && !numbered ==> (outcome matches Err(error) && error
                is Backend)
            &&& history.len() == events.len() && numbered && history != events ==> outcome == told(
                "large history read should round-trip all appended batches"@,
            )
            &&& outcome is Ok ==> history == events && numbered
        }),
{
    let numbered = forall|i: int|
        0 <= i < history.len() ==> (#[trigger] history[i]).envelope.seq == (i + 1) as u64;
    if history.len() == events.len() {
        if numbered {
            assert forall|i: int| 0 <= i < history.len() implies sequences(history)[i]
                == counted_up(events.len())[i] by {
                assert(history[i].envelope.seq == (i + 1) as u64);
            }
            assert(sequences(history) =~= counted_up(events.len()));
        } else {
            let i = choose|i: int|
                0 <= i < history.len() && (#[trigger] history[i]).envelope.seq != (i + 1) as u64;
            assert(sequences(history)[i] != counted_up(events.len())[i]);
        }
    }
}

/// A part of a summary that does not hold is told with what was asked for and what was found, where it is a
/// text or a time.
pub proof fn parts_are_told_with_both_values(
    summary: WorkflowSummaryView,
    message: Seq<char>,
    name: Seq<char>,
    at: Timestamp,
)
    ensures
        part_message(SummaryCheckView { part: SummaryPartView::Type(name), message }, summary)
            == message + "\n  expected: "@ + quoted(name) + "\n  actual: "@ + quoted(
            summary.workflow_type,
        ),
        part_message(SummaryCheckView { part: SummaryPartView::StartedAt(at), message }, summary)
            == message + "\n  expected: "@ + at.label() + "\n  actual: "@
            + summary.started_at.label(),
        summary.ended_at is None ==> part_message(
            SummaryCheckView { part: SummaryPartView::EndedAt(at), message },
            summary,
        ) == message + "\n  expected: "@ + ("Some("@ + at.label() + ")"@) + "\n  actual: "@
            + "None"@,
{
}

} // verus!
