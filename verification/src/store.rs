//! The event store contract and the rules that every store keeps.

use vstd::prelude::*;
use vstd::string::*;

use crate::error::{store_outcome, StoreError, StoreErrorView};
use crate::event::{event_views, Event, EventView};
use crate::ids::{hyphenated, hyphenated_is_injective, RunId, TimerId, TimerIdView, WorkflowId};
use crate::order::{lists, Ranked};
use crate::projection::{
    run_chain, status_of, summary_of, RunSummary, WorkflowFilter, WorkflowFilterView,
    WorkflowStatus, WorkflowSummary, WorkflowSummaryView,
};
use crate::table::Key;
use crate::text::{
    decimal, decimal_text, joined, text_at_most, text_order_total, text_order_transitive,
    text_precedes,
};
use crate::timestamp::{timestamp_order, Timestamp};

verus! {

/// A durable timer row.
#[derive(Debug, PartialEq, Eq)]
pub struct TimerEntry {
    /// Workflow that owns the timer.
    pub workflow_id: WorkflowId,
    /// The timer.
    pub timer_id: TimerId,
    /// When it is due.
    pub fire_at: Timestamp,
}

/// Mathematical value of a [`TimerEntry`].
pub struct TimerEntryView {
    /// Workflow that owns the timer.
    pub workflow_id: WorkflowId,
    /// The timer.
    pub timer_id: TimerIdView,
    /// When it is due.
    pub fire_at: Timestamp,
}

impl View for TimerEntry {
    type V = TimerEntryView;

    open spec fn view(&self) -> TimerEntryView {
        TimerEntryView {
            workflow_id: self.workflow_id,
            timer_id: self.timer_id@,
            fire_at: self.fire_at,
        }
    }
}

impl Clone for TimerEntry {
    fn clone(&self) -> (copy: Self)
        ensures
            copy@ == self@,
    {
        TimerEntry {
            workflow_id: self.workflow_id,
            timer_id: self.timer_id.clone(),
            fire_at: self.fire_at,
        }
    }
}

impl TimerEntryView {
    /// Order of timers: by due time, then by the texts of workflow and timer.
    pub open spec fn listed_before(self, other: Self) -> bool {
        if self.fire_at != other.fire_at {
            self.fire_at.at_most(other.fire_at)
        } else if hyphenated(self.workflow_id.value) != hyphenated(other.workflow_id.value) {
            text_at_most(hyphenated(self.workflow_id.value), hyphenated(other.workflow_id.value))
        } else {
            text_at_most(self.timer_id.text(), other.timer_id.text())
        }
    }
}

impl Ranked for TimerEntry {
    open spec fn at_most(&self, other: &Self) -> bool {
        self@.listed_before(other@)
    }

    fn precedes(&self, other: &Self) -> (precedes: bool) {
        if self.fire_at != other.fire_at {
            return self.fire_at.not_after(&other.fire_at);
        }
        let left = self.workflow_id.to_string();
        let right = other.workflow_id.to_string();
        if left != right {
            return text_precedes(left.as_str(), right.as_str());
        }
        text_precedes(self.timer_id.to_string().as_str(), other.timer_id.to_string().as_str())
    }

    proof fn at_most_total(a: Self, b: Self) {
        timestamp_order(a.fire_at, b.fire_at, b.fire_at);
        text_order_total(hyphenated(a.workflow_id.value), hyphenated(b.workflow_id.value));
        text_order_total(a.timer_id@.text(), b.timer_id@.text());
    }

    proof fn at_most_transitive(a: Self, b: Self, c: Self) {
        timestamp_order(a.fire_at, b.fire_at, c.fire_at);
        timestamp_order(b.fire_at, c.fire_at, a.fire_at);
        timestamp_order(c.fire_at, a.fire_at, b.fire_at);
        let x = hyphenated(a.workflow_id.value);
        let y = hyphenated(b.workflow_id.value);
        let z = hyphenated(c.workflow_id.value);
        if a.fire_at == b.fire_at && b.fire_at == c.fire_at {
            if x == y && y == z {
                text_order_transitive(
                    a.timer_id@.text(),
                    b.timer_id@.text(),
                    c.timer_id@.text(),
                );
            } else if x != y && y != z {
                text_order_transitive(x, y, z);
                if x == z {
                    crate::text::text_order_antisymmetric(x, y);
                }
            }
        }
    }
}

/// Order of workflow identifiers: by their texts.
impl Ranked for WorkflowId {
    open spec fn at_most(&self, other: &Self) -> bool {
        text_at_most(hyphenated(self.value), hyphenated(other.value))
    }

    fn precedes(&self, other: &Self) -> (precedes: bool) {
        text_precedes(self.to_string().as_str(), other.to_string().as_str())
    }

    proof fn at_most_total(a: Self, b: Self) {
        text_order_total(hyphenated(a.value), hyphenated(b.value));
    }

    proof fn at_most_transitive(a: Self, b: Self, c: Self) {
        text_order_transitive(hyphenated(a.value), hyphenated(b.value), hyphenated(c.value));
    }
}

impl WorkflowSummaryView {
    /// Order of summaries: by start, then by the text of the workflow identifier.
    pub open spec fn listed_before(self, other: Self) -> bool {
        if self.started_at != other.started_at {
            self.started_at.at_most(other.started_at)
        } else {
            text_at_most(hyphenated(self.workflow_id.value), hyphenated(other.workflow_id.value))
        }
    }
}

impl Ranked for WorkflowSummary {
    open spec fn at_most(&self, other: &Self) -> bool {
        self@.listed_before(other@)
    }

    fn precedes(&self, other: &Self) -> (precedes: bool) {
        if self.started_at != other.started_at {
            return self.started_at.not_after(&other.started_at);
        }
        text_precedes(
            self.workflow_id.to_string().as_str(),
            other.workflow_id.to_string().as_str(),
        )
    }

    proof fn at_most_total(a: Self, b: Self) {
        timestamp_order(a.started_at, b.started_at, b.started_at);
        text_order_total(hyphenated(a.workflow_id.value), hyphenated(b.workflow_id.value));
    }

    proof fn at_most_transitive(a: Self, b: Self, c: Self) {
        timestamp_order(a.started_at, b.started_at, c.started_at);
        timestamp_order(b.started_at, c.started_at, a.started_at);
        timestamp_order(c.started_at, a.started_at, b.started_at);
        if a.started_at == b.started_at && b.started_at == c.started_at {
            text_order_transitive(
                hyphenated(a.workflow_id.value),
                hyphenated(b.workflow_id.value),
                hyphenated(c.workflow_id.value),
            );
        }
    }
}

impl View for WorkflowId {
    type V = WorkflowId;

    open spec fn view(&self) -> WorkflowId {
        *self
    }
}

impl Key for WorkflowId {
    fn same_key(&self, other: &Self) -> (same: bool) {
        self.value == other.value
    }
}

/// A timer of a workflow.
#[derive(Debug)]
pub struct TimerKey {
    /// Workflow that owns the timer.
    pub workflow_id: WorkflowId,
    /// The timer.
    pub timer_id: TimerId,
}

impl View for TimerKey {
    type V = (WorkflowId, TimerIdView);

    open spec fn view(&self) -> (WorkflowId, TimerIdView) {
        (self.workflow_id, self.timer_id@)
    }
}

impl Key for TimerKey {
    fn same_key(&self, other: &Self) -> (same: bool) {
        self.workflow_id.value == other.workflow_id.value && self.timer_id.same(&other.timer_id)
    }
}

/// A run of a workflow.
#[derive(Clone, Copy, Debug)]
pub struct RunKey {
    /// The workflow.
    pub workflow_id: WorkflowId,
    /// The run.
    pub run_id: RunId,
}

impl View for RunKey {
    type V = (WorkflowId, RunId);

    open spec fn view(&self) -> (WorkflowId, RunId) {
        (self.workflow_id, self.run_id)
    }
}

impl Key for RunKey {
    fn same_key(&self, other: &Self) -> (same: bool) {
        self.workflow_id.value == other.workflow_id.value && self.run_id.value
            == other.run_id.value
    }
}

/// The head of a history: its greatest sequence number, or zero.
pub open spec fn head_of(history: Seq<EventView>) -> u64
    decreases history.len(),
{
    if history.len() == 0 {
        0
    } else {
        let rest = head_of(history.drop_last());
        let seq = history.last().envelope.seq;
        if seq >= rest {
            seq
        } else {
            rest
        }
    }
}

/// The events are numbered from the one behind `head` on, without a gap.
pub open spec fn contiguous(events: Seq<EventView>, head: int) -> bool {
    forall|i: int| 0 <= i < events.len() ==> (#[trigger] events[i]).envelope.seq == head + 1 + i
}

/// The refusal of a batch whose `i`-th event is the first with a wrong number.
pub open spec fn gap_error(events: Seq<EventView>, head: int, i: int) -> StoreErrorView {
    StoreErrorView::Backend(
        "event sequence must be contiguous: expected "@ + decimal((head + 1 + i) as nat)
            + ", got "@ + decimal(events[i].envelope.seq as nat),
    )
}

/// Whether a batch continues a history with the given head: the first event with a wrong number is
/// refused.
pub open spec fn contiguity(events: Seq<EventView>, head: int) -> Result<(), StoreErrorView> {
    if contiguous(events, head) {
        Ok(())
    } else {
        let i = choose|i: int|
            0 <= i < events.len() && (#[trigger] events[i]).envelope.seq != head + 1 + i
                && contiguous(events.take(i), head);
        Err(gap_error(events, head, i))
    }
}

/// Whether a batch may be appended to a history under the expected head.
pub open spec fn append_rule(
    history: Seq<EventView>,
    events: Seq<EventView>,
    expected_seq: u64,
) -> Result<(), StoreErrorView> {
    if head_of(history) != expected_seq {
        Err(
            StoreErrorView::SequenceConflict { expected: expected_seq, found: head_of(history) },
        )
    } else {
        contiguity(events, expected_seq as int)
    }
}

/// The greatest sequence number of a history, or zero.
pub fn history_head(history: &[Event]) -> (head: u64)
    ensures
        head == head_of(event_views(history@)),
{
    let ghost views = event_views(history@);
    let mut head: u64 = 0;
    let mut i: usize = 0;
    assert(views.take(0) =~= Seq::empty());
    while i < history.len()
        invariant
            i <= history.len(),
            views == event_views(history@),
            head == head_of(views.take(i as int)),
        decreases history.len() - i,
    {
        assert(views.take(i + 1).drop_last() =~= views.take(i as int));
        assert(views.take(i + 1).last() == history@[i as int]@);
        let seq = history[i].seq();
        if seq >= head {
            head = seq;
        }
        i += 1;
    }
    assert(views.take(i as int) =~= views);
    head
}

/// Checks that `events` continue a history whose head is `expected_seq`.
pub fn validate_contiguous(events: &[Event], expected_seq: u64) -> (checked: Result<
    (),
    StoreError,
>)
    ensures
        store_outcome(checked) == contiguity(event_views(events@), expected_seq as int),
{
    let ghost views = event_views(events@);
    let mut i: usize = 0;
    while i < events.len()
        invariant
            i <= events.len(),
            views == event_views(events@),
            forall|j: int|
                0 <= j < i ==> (#[trigger] views[j]).envelope.seq == expected_seq + 1 + j,
        decreases events.len() - i,
    {
        let next_seq: u128 = expected_seq as u128 + 1 + i as u128;
        let seq = events[i].seq();
        assert(views[i as int] == events@[i as int]@);
        if seq as u128 != next_seq {
            let mut message = joined(
                "event sequence must be contiguous: expected ",
                decimal_text(next_seq).as_str(),
            );
            message.append(", got ");
            message.append(decimal_text(seq as u128).as_str());
            proof {
                first_gap_is_unique(views, expected_seq as int, i as int);
            }
            return Err(StoreError::Backend(message));
        }
        i += 1;
    }
    Ok(())
}

proof fn first_gap_is_unique(events: Seq<EventView>, head: int, i: int)
    requires
        0 <= i < events.len(),
        events[i].envelope.seq != head + 1 + i,
        forall|j: int| 0 <= j < i ==> (#[trigger] events[j]).envelope.seq == head + 1 + j,
    ensures
        contiguity(events, head) == Err::<(), StoreErrorView>(gap_error(events, head, i)),
{
    assert(contiguous(events.take(i), head));
    let k = choose|k: int|
        0 <= k < events.len() && (#[trigger] events[k]).envelope.seq != head + 1 + k && contiguous(
            events.take(k),
            head,
        );
    if i < k {
        assert(events.take(k)[i] == events[i]);
    }
}

/// The history that a store holds for a workflow: empty for an unknown one.
pub open spec fn history_in(
    histories: Map<WorkflowId, Seq<EventView>>,
    workflow_id: WorkflowId,
) -> Seq<EventView> {
    if histories.contains_key(workflow_id) {
        histories[workflow_id]
    } else {
        Seq::empty()
    }
}

/// The histories after a batch was appended; an empty batch changes nothing.
pub open spec fn appended(
    histories: Map<WorkflowId, Seq<EventView>>,
    workflow_id: WorkflowId,
    events: Seq<EventView>,
) -> Map<WorkflowId, Seq<EventView>> {
    if events.len() == 0 {
        histories
    } else {
        histories.insert(workflow_id, history_in(histories, workflow_id) + events)
    }
}

/// The workflows whose history projects a running status.
pub open spec fn active_workflows(histories: Map<WorkflowId, Seq<EventView>>) -> Map<
    WorkflowId,
    WorkflowId,
> {
    Map::new(
        |id: WorkflowId|
            histories.contains_key(id) && status_of(histories[id]) == WorkflowStatus::Running,
        |id: WorkflowId| id,
    )
}

/// The summaries that a filter selects, by the workflow under which the history is kept.
pub open spec fn selected_summaries(
    histories: Map<WorkflowId, Seq<EventView>>,
    filter: WorkflowFilterView,
) -> Map<WorkflowId, WorkflowSummaryView> {
    Map::new(
        |id: WorkflowId|
            histories.contains_key(id) && summary_of(histories[id]) is Some && filter.matches(
                summary_of(histories[id])->Some_0,
            ),
        |id: WorkflowId| summary_of(histories[id])->Some_0,
    )
}

/// The timers that are due.
pub open spec fn due_timers(
    timers: Map<(WorkflowId, TimerIdView), Timestamp>,
    as_of: Timestamp,
) -> Map<(WorkflowId, TimerIdView), TimerEntryView> {
    Map::new(
        |key: (WorkflowId, TimerIdView)| timers.contains_key(key) && timers[key].at_most(as_of),
        |key: (WorkflowId, TimerIdView)|
            TimerEntryView { workflow_id: key.0, timer_id: key.1, fire_at: timers[key] },
    )
}

/// Values of a list of summaries.
pub open spec fn workflow_summary_views(summaries: Seq<WorkflowSummary>) -> Seq<
    WorkflowSummaryView,
> {
    summaries.map_values(|summary: WorkflowSummary| summary@)
}

/// Values of a list of timers.
pub open spec fn timer_views(timers: Seq<TimerEntry>) -> Seq<TimerEntryView> {
    timers.map_values(|entry: TimerEntry| entry@)
}

/// `found` is what a read returned: the failure of the store, or a value with the given property.
pub open spec fn read_outcome<T>(
    failure: Option<StoreErrorView>,
    found: Result<T, StoreError>,
    holds: spec_fn(T) -> bool,
) -> bool {
    match failure {
        Some(error) => found matches Err(e) && e@ == error,
        None => found matches Ok(value) && holds(value),
    }
}

/// The head of a history that is numbered from one is its length.
pub proof fn numbered_history_head(history: Seq<EventView>)
    requires
        contiguous(history, 0),
    ensures
        head_of(history) == history.len(),
    decreases history.len(),
{
    if history.len() > 0 {
        let rest = history.drop_last();
        assert forall|i: int| 0 <= i < rest.len() implies (#[trigger] rest[i]).envelope.seq == 1
            + i by {
            assert(rest[i] == history[i]);
        }
        numbered_history_head(rest);
        assert(history.last() == history[history.len() - 1]);
    }
}

/// An accepted append is read back behind what the history held, and the histories of other
/// workflows stay as they were.
pub proof fn appended_events_are_read_back(
    histories: Map<WorkflowId, Seq<EventView>>,
    workflow_id: WorkflowId,
    other: WorkflowId,
    events: Seq<EventView>,
)
    ensures
        history_in(appended(histories, workflow_id, events), workflow_id) == history_in(
            histories,
            workflow_id,
        ) + events,
        other != workflow_id ==> history_in(appended(histories, workflow_id, events), other)
            == history_in(histories, other),
{
    assert(history_in(histories, workflow_id) + Seq::<EventView>::empty() =~= history_in(
        histories,
        workflow_id,
    ));
    if events.len() == 0 {
        assert(events =~= Seq::empty());
    }
}

/// A history that is numbered from one without gaps stays so through every accepted append.
pub proof fn accepted_appends_keep_histories_numbered(
    history: Seq<EventView>,
    events: Seq<EventView>,
    expected_seq: u64,
)
    requires
        contiguous(history, 0),
        append_rule(history, events, expected_seq) is Ok,
    ensures
        contiguous(history + events, 0),
        head_of(history + events) == history.len() + events.len(),
{
    numbered_history_head(history);
    assert(contiguous(events, expected_seq as int)) by {
        if !contiguous(events, expected_seq as int) {
            assert(contiguity(events, expected_seq as int) is Err);
        }
    }
    let all = history + events;
    assert forall|i: int| 0 <= i < all.len() implies (#[trigger] all[i]).envelope.seq == 1 + i by {
        if i < history.len() {
            assert(all[i] == history[i]);
        } else {
            assert(all[i] == events[i - history.len()]);
        }
    }
    numbered_history_head(all);
}

/// Of two appends that expect the same head only one is accepted: behind a batch that was accepted
/// the other is answered with a sequence conflict that names the new head.
pub proof fn only_one_writer_wins(
    history: Seq<EventView>,
    winner: Seq<EventView>,
    loser: Seq<EventView>,
    expected_seq: u64,
)
    requires
        contiguous(history, 0),
        append_rule(history, winner, expected_seq) is Ok,
        winner.len() > 0,
    ensures
        append_rule(history + winner, loser, expected_seq) == Err::<(), StoreErrorView>(
            StoreErrorView::SequenceConflict {
                expected: expected_seq,
                found: (expected_seq + winner.len()) as u64,
            },
        ),
{
    numbered_history_head(history);
    accepted_appends_keep_histories_numbered(history, winner, expected_seq);
    assert(head_of(history + winner) == expected_seq + winner.len());
}

/// An empty batch only checks the head, and never changes anything.
pub proof fn empty_batches_only_check_the_head(
    histories: Map<WorkflowId, Seq<EventView>>,
    workflow_id: WorkflowId,
    expected_seq: u64,
)
    ensures
        append_rule(history_in(histories, workflow_id), Seq::empty(), expected_seq) is Ok
            <==> head_of(history_in(histories, workflow_id)) == expected_seq,
        appended(histories, workflow_id, Seq::empty()) == histories,
{
    assert(contiguous(Seq::empty(), expected_seq as int));
}

/// A workflow is listed as active exactly while it has a history whose projected status is running.
pub proof fn active_while_running(
    histories: Map<WorkflowId, Seq<EventView>>,
    workflow_id: WorkflowId,
)
    ensures
        active_workflows(histories).contains_key(workflow_id) <==> histories.contains_key(
            workflow_id,
        ) && status_of(history_in(histories, workflow_id)) == WorkflowStatus::Running,
{
}

/// A timer that is scheduled again is due at its new time only.
pub proof fn rescheduling_replaces_the_fire_time(
    timers: Map<(WorkflowId, TimerIdView), Timestamp>,
    key: (WorkflowId, TimerIdView),
    earlier: Timestamp,
    later: Timestamp,
    as_of: Timestamp,
)
    ensures
        timers.insert(key, earlier).insert(key, later) == timers.insert(key, later),
        due_timers(timers.insert(key, later), as_of).contains_key(key) <==> later.at_most(as_of),
{
    assert(timers.insert(key, earlier).insert(key, later) =~= timers.insert(key, later));
}

/// A timer that is due stays due as time goes on.
pub proof fn due_timers_stay_due(
    timers: Map<(WorkflowId, TimerIdView), Timestamp>,
    key: (WorkflowId, TimerIdView),
    now: Timestamp,
    later: Timestamp,
)
    requires
        due_timers(timers, now).contains_key(key),
        now.at_most(later),
    ensures
        due_timers(timers, later).contains_key(key),
        due_timers(timers, later)[key] == due_timers(timers, now)[key],
{
    timestamp_order(timers[key], now, later);
}

/// A request to an event store.
pub enum StoreCall {
    /// To append a batch.
    Append {
        /// The workflow.
        workflow_id: WorkflowId,
        /// The batch.
        events: Seq<EventView>,
        /// Head that the history is expected to have.
        expected_seq: u64,
    },
    /// For a history.
    ReadHistory {
        /// The workflow.
        workflow_id: WorkflowId,
    },
    /// For the runs of a workflow.
    ReadRunChain {
        /// The workflow.
        workflow_id: WorkflowId,
    },
    /// For the active workflows.
    ListActive,
    /// For summaries.
    Query {
        /// The filter.
        filter: WorkflowFilterView,
    },
    /// To schedule a timer.
    ScheduleTimer {
        /// The workflow.
        workflow_id: WorkflowId,
        /// The timer.
        timer_id: TimerIdView,
        /// When it is due.
        fire_at: Timestamp,
    },
    /// For the timers that are due.
    ExpiredTimers {
        /// At this time.
        as_of: Timestamp,
    },
}

/// The failure that a request meets, if it does.
pub open spec fn failing<C>(failures: Map<C, StoreErrorView>, call: C) -> Option<StoreErrorView> {
    if failures.contains_key(call) {
        Some(failures[call])
    } else {
        None
    }
}

/// Keeper of workflow histories and durable timers. What an implementation holds is open unless it
/// says so.
pub trait EventStore {
    /// The history of every workflow that has one.
    open spec fn histories(&self) -> Map<WorkflowId, Seq<EventView>> {
        arbitrary()
    }

    /// The due time of every scheduled timer.
    open spec fn timers(&self) -> Map<(WorkflowId, TimerIdView), Timestamp> {
        arbitrary()
    }

    /// The requests that the backend fails, with their failures. A request that fails changes
    /// nothing.
    ///
    /// The contracts speak of a store that fails the same requests throughout. Of a backend that
    /// fails now and then they hold of each request on its own, and of several requests only as
    /// long as none of them begins or ceases to fail in between: what is said of a request that was
    /// served once is not said of the next time that it is made.
    open spec fn failures(&self) -> Map<StoreCall, StoreErrorView> {
        arbitrary()
    }

    /// Appends `events` to the history of `workflow_id` if its head is `expected_seq`. A batch is
    /// written as a whole or not at all.
    fn append(&mut self, workflow_id: &WorkflowId, events: &[Event], expected_seq: u64) -> (outcome:
        Result<(), StoreError>)
        ensures
            store_outcome(outcome) == (match failing(
                old(self).failures(),
                StoreCall::Append {
                    workflow_id: *workflow_id,
                    events: event_views(events@),
                    expected_seq,
                },
            ) {
                Some(error) => Err(error),
                None => append_rule(
                    history_in(old(self).histories(), *workflow_id),
                    event_views(events@),
                    expected_seq,
                ),
            }),
            final(self).histories() == (if outcome is Ok {
                appended(old(self).histories(), *workflow_id, event_views(events@))
            } else {
                old(self).histories()
            }),
            final(self).timers() == old(self).timers(),
            final(self).failures() == old(self).failures(),
    ;

    /// The history of `workflow_id`, in sequence order; empty for an unknown workflow.
    fn read_history(&self, workflow_id: &WorkflowId) -> (history: Result<Vec<Event>, StoreError>)
        ensures
            read_outcome(
                failing(self.failures(), StoreCall::ReadHistory { workflow_id: *workflow_id }),
                history,
                |events: Vec<Event>|
                    event_views(events@) == history_in(self.histories(), *workflow_id),
            ),
    ;

    /// The runs of `workflow_id`, oldest first; none for an unknown workflow.
    fn read_run_chain(&self, workflow_id: &WorkflowId) -> (chain: Result<
        Vec<RunSummary>,
        StoreError,
    >)
        ensures
            read_outcome(
                failing(self.failures(), StoreCall::ReadRunChain { workflow_id: *workflow_id }),
                chain,
                |runs: Vec<RunSummary>|
                    runs@ == run_chain(history_in(self.histories(), *workflow_id)),
            ),
    ;

    /// The workflows whose history projects a running status, ordered by their texts.
    fn list_active(&self) -> (active: Result<Vec<WorkflowId>, StoreError>)
        ensures
            read_outcome(
                failing(self.failures(), StoreCall::ListActive),
                active,
                |ids: Vec<WorkflowId>|
                    lists(ids@, active_workflows(self.histories())) && crate::order::in_order(ids@),
            ),
    ;

    /// The summaries that `filter` selects, ordered by start and then by identifier text.
    fn query(&self, filter: &WorkflowFilter) -> (selected: Result<Vec<WorkflowSummary>, StoreError>)
        ensures
            read_outcome(
                failing(self.failures(), StoreCall::Query { filter: filter@ }),
                selected,
                |summaries: Vec<WorkflowSummary>|
                    lists(
                        workflow_summary_views(summaries@),
                        selected_summaries(self.histories(), filter@),
                    ) && crate::order::in_order(summaries@),
            ),
    ;

    /// Schedules a timer, in place of an earlier due time of the same timer.
    fn schedule_timer(
        &mut self,
        workflow_id: &WorkflowId,
        timer_id: &TimerId,
        fire_at: Timestamp,
    ) -> (outcome: Result<(), StoreError>)
        ensures
            store_outcome(outcome) == (match failing(
                old(self).failures(),
                StoreCall::ScheduleTimer {
                    workflow_id: *workflow_id,
                    timer_id: timer_id@,
                    fire_at,
                },
            ) {
                Some(error) => Err::<(), StoreErrorView>(error),
                None => Ok(()),
            }),
            final(self).timers() == (if outcome is Ok {
                old(self).timers().insert((*workflow_id, timer_id@), fire_at)
            } else {
                old(self).timers()
            }),
            final(self).histories() == old(self).histories(),
            final(self).failures() == old(self).failures(),
    ;

    /// The timers that are due at `as_of`, ordered by due time and then by their texts.
    fn expired_timers(&self, as_of: Timestamp) -> (expired: Result<Vec<TimerEntry>, StoreError>)
        ensures
            read_outcome(
                failing(self.failures(), StoreCall::ExpiredTimers { as_of }),
                expired,
                |entries: Vec<TimerEntry>|
                    lists(timer_views(entries@), due_timers(self.timers(), as_of))
                        && crate::order::in_order(entries@),
            ),
    ;
}

/// The head of a history is the greatest number of its events, and zero without events.
pub proof fn heads_are_the_greatest_number(history: Seq<EventView>)
    ensures
        history.len() == 0 ==> head_of(history) == 0,
        history.len() > 0 ==> exists|i: int|
            0 <= i < history.len() && (#[trigger] history[i]).envelope.seq == head_of(history),
        forall|i: int|
            0 <= i < history.len() ==> (#[trigger] history[i]).envelope.seq <= head_of(history),
    decreases history.len(),
{
    if history.len() > 0 {
        let rest = history.drop_last();
        heads_are_the_greatest_number(rest);
        assert(forall|i: int| 0 <= i < rest.len() ==> #[trigger] rest[i] == history[i]);
        assert(history.last() == history[history.len() - 1]);
        assert forall|i: int| 0 <= i < history.len() implies (#[trigger] history[i]).envelope.seq
            <= head_of(history) by {
            if i < rest.len() {
                assert(rest[i] == history[i]);
            }
        }
        if head_of(history) != history.last().envelope.seq {
            let i = choose|i: int|
                0 <= i < rest.len() && (#[trigger] rest[i]).envelope.seq == head_of(rest);
            assert(history[i].envelope.seq == head_of(history));
        }
    }
}

/// A batch is accepted exactly when the writer expects the head that the history has and the batch
/// is numbered on from it without a gap. A writer that expects another head is told of both heads.
pub proof fn batches_are_accepted_behind_the_expected_head(
    history: Seq<EventView>,
    events: Seq<EventView>,
    expected_seq: u64,
)
    ensures
        append_rule(history, events, expected_seq) is Ok <==> head_of(history) == expected_seq
            && forall|i: int|
            0 <= i < events.len() ==> (#[trigger] events[i]).envelope.seq == expected_seq + 1 + i,
        head_of(history) != expected_seq ==> append_rule(history, events, expected_seq) == Err::<
            (),
            StoreErrorView,
        >(StoreErrorView::SequenceConflict { expected: expected_seq, found: head_of(history) }),
{
}

/// A batch with a gap is refused with the number that was expected at its first wrong event, and
/// the number that stands there.
pub proof fn gaps_are_named(
    history: Seq<EventView>,
    events: Seq<EventView>,
    expected_seq: u64,
    i: int,
)
    requires
        head_of(history) == expected_seq,
        0 <= i < events.len(),
        events[i].envelope.seq != expected_seq + 1 + i,
        forall|j: int|
            0 <= j < i ==> (#[trigger] events[j]).envelope.seq == expected_seq + 1 + j,
    ensures
        append_rule(history, events, expected_seq) == Err::<(), StoreErrorView>(
            StoreErrorView::Backend(
                "event sequence must be contiguous: expected "@ + decimal(
                    (expected_seq + 1 + i) as nat,
                ) + ", got "@ + decimal(events[i].envelope.seq as nat),
            ),
        ),
{
    let head = expected_seq as int;
    assert(contiguous(events.take(i), head)) by {
        assert(forall|j: int| 0 <= j < i ==> #[trigger] events.take(i)[j] == events[j]);
    }
    assert(!contiguous(events, head)) by {
        assert(events[i].envelope.seq != head + 1 + i);
    }
    let k = choose|k: int|
        0 <= k < events.len() && (#[trigger] events[k]).envelope.seq != head + 1 + k
            && contiguous(events.take(k), head);
    assert(k >= i);
    if k > i {
        assert(events.take(k)[i] == events[i]);
    }
}

/// A timer is due exactly when it is kept with a time that is no later than the asked one, by its
/// second and then by its nanosecond; it is told with its workflow, its identifier and that time.
pub proof fn timers_are_due_from_their_time_on(
    timers: Map<(WorkflowId, TimerIdView), Timestamp>,
    key: (WorkflowId, TimerIdView),
    as_of: Timestamp,
)
    ensures
        due_timers(timers, as_of).contains_key(key) <==> timers.contains_key(key) && (
        timers[key].seconds() < as_of.seconds() || (timers[key].seconds() == as_of.seconds()
            && timers[key].subsec_nanos() <= as_of.subsec_nanos())),
        due_timers(timers, as_of).contains_key(key) ==> due_timers(timers, as_of)[key].workflow_id
            == key.0 && due_timers(timers, as_of)[key].timer_id == key.1 && due_timers(
            timers,
            as_of,
        )[key].fire_at == timers[key],
{
}

/// Timers are listed by their due time: an earlier one stands before a later one and never behind
/// it. Timers that are due together are listed by the texts of their workflows, and those of one
/// workflow by their own.
pub proof fn timers_are_listed_by_due_time(a: TimerEntryView, b: TimerEntryView)
    ensures
        a.fire_at.seconds() < b.fire_at.seconds() || (a.fire_at.seconds() == b.fire_at.seconds()
            && a.fire_at.subsec_nanos() < b.fire_at.subsec_nanos()) ==> a.listed_before(b)
            && !b.listed_before(a),
        a.fire_at == b.fire_at && a.workflow_id == b.workflow_id ==> (a.listed_before(b)
            <==> text_at_most(a.timer_id.text(), b.timer_id.text())),
        a.fire_at == b.fire_at && a.workflow_id != b.workflow_id ==> (a.listed_before(b)
            <==> text_at_most(
            hyphenated(a.workflow_id.value),
            hyphenated(b.workflow_id.value),
        )),
{
    if hyphenated(a.workflow_id.value) == hyphenated(b.workflow_id.value) {
        hyphenated_is_injective(a.workflow_id.value, b.workflow_id.value);
    }
}

/// Summaries are listed by start time: an earlier start stands before a later one and never behind
/// it, and workflows that started together are listed by the texts of their identifiers.
pub proof fn summaries_are_listed_by_start(a: WorkflowSummaryView, b: WorkflowSummaryView)
    ensures
        a.started_at.seconds() < b.started_at.seconds() || (a.started_at.seconds()
            == b.started_at.seconds() && a.started_at.subsec_nanos()
            < b.started_at.subsec_nanos()) ==> a.listed_before(b) && !b.listed_before(a),
        a.started_at == b.started_at ==> (a.listed_before(b) <==> text_at_most(
            hyphenated(a.workflow_id.value),
            hyphenated(b.workflow_id.value),
        )),
{
}

/// A workflow is found by a query exactly when its history has a start and the filter selects the
/// summary of that history, which is then what the query tells of it.
pub proof fn queries_find_what_the_filter_selects(
    histories: Map<WorkflowId, Seq<EventView>>,
    filter: WorkflowFilterView,
    id: WorkflowId,
)
    ensures
        selected_summaries(histories, filter).contains_key(id) <==> histories.contains_key(id)
            && summary_of(histories[id]) is Some && filter.matches(
            summary_of(histories[id])->Some_0,
        ),
        selected_summaries(histories, filter).contains_key(id) ==> Some(
            selected_summaries(histories, filter)[id],
        ) == summary_of(histories[id]),
{
}

} // verus!
