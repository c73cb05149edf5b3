//! Projections of a workflow history: status, summary, runs and search attributes.

use vstd::prelude::*;
use vstd::string::*;

use crate::attributes::{SearchAttributeValueView, SearchAttributes};
use crate::event::{event_views, Event, EventBody, EventView};
use crate::ids::{RunId, WorkflowId};
use crate::text::{optional_text, same_text};
use crate::timestamp::Timestamp;

verus! {

/// Where a workflow stands.
#[derive(Clone, Copy, Debug, PartialEq, Eq, Structural)]
pub enum WorkflowStatus {
    /// The current run has not ended.
    Running,
    /// The last run ended with a result.
    Completed,
    /// The last run ended with a failure.
    Failed,
    /// The last run was cancelled.
    Cancelled,
    /// The last run exceeded its time limit.
    TimedOut,
    /// The last run ended so that another continues it.
    ContinuedAsNew,
}

/// The status that a lifecycle event brings about; other events leave it unchanged.
pub open spec fn lifecycle_status(body: EventBody) -> Option<WorkflowStatus> {
    match body {
        EventBody::WorkflowStarted { .. } => Some(WorkflowStatus::Running),
        EventBody::WorkflowCompleted { .. } => Some(WorkflowStatus::Completed),
        EventBody::WorkflowFailed { .. } => Some(WorkflowStatus::Failed),
        EventBody::WorkflowCancelled { .. } => Some(WorkflowStatus::Cancelled),
        EventBody::WorkflowTimedOut { .. } => Some(WorkflowStatus::TimedOut),
        EventBody::WorkflowContinuedAsNew { .. } => Some(WorkflowStatus::ContinuedAsNew),
        _ => None,
    }
}

/// The event ends a run.
pub open spec fn is_terminal(body: EventBody) -> bool {
    lifecycle_status(body) matches Some(status) && status != WorkflowStatus::Running
}

/// The status of a history: that of its last lifecycle event, or running.
pub open spec fn status_of(history: Seq<EventView>) -> WorkflowStatus
    decreases history.len(),
{
    if history.len() == 0 {
        WorkflowStatus::Running
    } else {
        match lifecycle_status(history.last().body) {
            Some(status) => status,
            None => status_of(history.drop_last()),
        }
    }
}

/// The first `WorkflowStarted` of a history.
pub open spec fn first_started(history: Seq<EventView>) -> Option<EventView>
    decreases history.len(),
{
    if history.len() == 0 {
        None
    } else if history[0].body is WorkflowStarted {
        Some(history[0])
    } else {
        first_started(history.drop_first())
    }
}

/// When the last terminal event of a history was recorded.
pub open spec fn closed_at(history: Seq<EventView>) -> Option<Timestamp>
    decreases history.len(),
{
    if history.len() == 0 {
        None
    } else if is_terminal(history.last().body) {
        Some(history.last().envelope.recorded_at)
    } else {
        closed_at(history.drop_last())
    }
}

/// The search attributes of a history: later updates replace earlier ones of the same name.
pub open spec fn attributes_of(history: Seq<EventView>) -> Map<Seq<char>, SearchAttributeValueView>
    decreases history.len(),
{
    if history.len() == 0 {
        Map::empty()
    } else {
        let earlier = attributes_of(history.drop_last());
        match history.last().body {
            EventBody::SearchAttributesUpdated { attributes, .. } => earlier.union_prefer_right(
                attributes,
            ),
            _ => earlier,
        }
    }
}

fn lifecycle(event: &Event) -> (status: Option<WorkflowStatus>)
    ensures
        status == lifecycle_status(event@.body),
{
    match event {
        Event::WorkflowStarted { .. } => Some(WorkflowStatus::Running),
        Event::WorkflowCompleted { .. } => Some(WorkflowStatus::Completed),
        Event::WorkflowFailed { .. } => Some(WorkflowStatus::Failed),
        Event::WorkflowCancelled { .. } => Some(WorkflowStatus::Cancelled),
        Event::WorkflowTimedOut { .. } => Some(WorkflowStatus::TimedOut),
        Event::WorkflowContinuedAsNew { .. } => Some(WorkflowStatus::ContinuedAsNew),
        _ => None,
    }
}

fn ends_run(event: &Event) -> (terminal: bool)
    ensures
        terminal == is_terminal(event@.body),
{
    match lifecycle(event) {
        Some(WorkflowStatus::Running) => false,
        Some(_) => true,
        None => false,
    }
}

/// The status of a history.
pub fn status_from_events(history: &[Event]) -> (status: WorkflowStatus)
    ensures
        status == status_of(event_views(history@)),
{
    let ghost views = event_views(history@);
    let mut i: usize = history.len();
    assert(views.take(i as int) =~= views);
    while i > 0
        invariant
            i <= history.len(),
            views == event_views(history@),
            status_of(views) == status_of(views.take(i as int)),
        decreases i,
    {
        assert(views.take(i as int).drop_last() =~= views.take(i - 1));
        assert(views.take(i as int).last() == history@[i - 1]@);
        i -= 1;
        match lifecycle(&history[i]) {
            Some(status) => {
                return status;
            },
            None => {},
        }
    }
    assert(views.take(0) =~= Seq::empty());
    WorkflowStatus::Running
}

/// The first `WorkflowStarted` of a history, if it has one.
pub fn find_started(history: &[Event]) -> (started: Option<&Event>)
    ensures
        match first_started(event_views(history@)) {
            Some(view) => started matches Some(event) && event@ == view
                && view.body is WorkflowStarted,
            None => started is None,
        },
{
    let ghost views = event_views(history@);
    let mut i: usize = 0;
    assert(views.skip(0) =~= views);
    while i < history.len()
        invariant
            i <= history.len(),
            views == event_views(history@),
            first_started(views) == first_started(views.skip(i as int)),
        decreases history.len() - i,
    {
        assert(views.skip(i as int).drop_first() =~= views.skip(i + 1));
        assert(views.skip(i as int)[0] == history@[i as int]@);
        match &history[i] {
            Event::WorkflowStarted { .. } => {
                return Some(&history[i]);
            },
            _ => {},
        }
        i += 1;
    }
    assert(views.skip(i as int) =~= Seq::empty());
    None
}

/// When the last terminal event of a history was recorded.
pub fn terminal_recorded_at(history: &[Event]) -> (recorded_at: Option<Timestamp>)
    ensures
        recorded_at == closed_at(event_views(history@)),
{
    let ghost views = event_views(history@);
    let mut i: usize = history.len();
    assert(views.take(i as int) =~= views);
    while i > 0
        invariant
            i <= history.len(),
            views == event_views(history@),
            closed_at(views) == closed_at(views.take(i as int)),
        decreases i,
    {
        assert(views.take(i as int).drop_last() =~= views.take(i - 1));
        assert(views.take(i as int).last() == history@[i - 1]@);
        i -= 1;
        if ends_run(&history[i]) {
            return Some(history[i].recorded_at());
        }
    }
    assert(views.take(0) =~= Seq::empty());
    None
}

/// The search attributes of a history.
pub fn search_attributes_from_history(history: &[Event]) -> (attributes: SearchAttributes)
    ensures
        attributes@ == attributes_of(event_views(history@)),
{
    let ghost views = event_views(history@);
    let mut attributes = SearchAttributes::new();
    let mut i: usize = 0;
    assert(views.take(0) =~= Seq::empty());
    while i < history.len()
        invariant
            i <= history.len(),
            views == event_views(history@),
            attributes@ == attributes_of(views.take(i as int)),
        decreases history.len() - i,
    {
        assert(views.take(i + 1).drop_last() =~= views.take(i as int));
        assert(views.take(i + 1).last() == history@[i as int]@);
        match &history[i] {
            Event::SearchAttributesUpdated { attributes: updated, .. } => {
                attributes.extend(updated);
            },
            _ => {},
        }
        i += 1;
    }
    assert(views.take(i as int) =~= views);
    attributes
}

/// Summary of a workflow, projected from its history.
#[derive(Debug, PartialEq, Eq)]
pub struct WorkflowSummary {
    /// The workflow.
    pub workflow_id: WorkflowId,
    /// Type with which it was first started.
    pub workflow_type: String,
    /// Where it stands.
    pub status: WorkflowStatus,
    /// When it was first started.
    pub started_at: Timestamp,
    /// When it ended, unless it is running.
    pub ended_at: Option<Timestamp>,
    /// The workflow that started it, where a backend keeps that link.
    pub parent: Option<WorkflowId>,
}

/// Mathematical value of a [`WorkflowSummary`].
pub struct WorkflowSummaryView {
    /// The workflow.
    pub workflow_id: WorkflowId,
    /// Type with which it was first started.
    pub workflow_type: Seq<char>,
    /// Where it stands.
    pub status: WorkflowStatus,
    /// When it was first started.
    pub started_at: Timestamp,
    /// When it ended.
    pub ended_at: Option<Timestamp>,
    /// The workflow that started it.
    pub parent: Option<WorkflowId>,
}

impl View for WorkflowSummary {
    type V = WorkflowSummaryView;

    open spec fn view(&self) -> WorkflowSummaryView {
        WorkflowSummaryView {
            workflow_id: self.workflow_id,
            workflow_type: self.workflow_type@,
            status: self.status,
            started_at: self.started_at,
            ended_at: self.ended_at,
            parent: self.parent,
        }
    }
}

/// The summary of a history: there is none without a `WorkflowStarted`.
pub open spec fn summary_of(history: Seq<EventView>) -> Option<WorkflowSummaryView> {
    match first_started(history) {
        Some(started) => Some(
            WorkflowSummaryView {
                workflow_id: started.envelope.workflow_id,
                workflow_type: started.body->WorkflowStarted_workflow_type,
                status: status_of(history),
                started_at: started.envelope.recorded_at,
                ended_at: if status_of(history) == WorkflowStatus::Running {
                    None
                } else {
                    closed_at(history)
                },
                parent: None,
            },
        ),
        None => None,
    }
}

impl Clone for WorkflowSummary {
    fn clone(&self) -> (copy: Self)
        ensures
            copy@ == self@,
    {
        WorkflowSummary {
            workflow_id: self.workflow_id,
            workflow_type: self.workflow_type.clone(),
            status: self.status,
            started_at: self.started_at,
            ended_at: self.ended_at,
            parent: self.parent,
        }
    }
}

impl WorkflowSummary {
    /// The summary of a history: there is none without a `WorkflowStarted`.
    pub fn from_history(history: &[Event]) -> (summary: Option<Self>)
        ensures
            match summary_of(event_views(history@)) {
                Some(view) => summary matches Some(s) && s@ == view,
                None => summary is None,
            },
    {
        match find_started(history) {
            Some(Event::WorkflowStarted { envelope, workflow_type, .. }) => {
                let status = status_from_events(history);
                let ended_at = if status == WorkflowStatus::Running {
                    None
                } else {
                    terminal_recorded_at(history)
                };
                Some(
                    WorkflowSummary {
                        workflow_id: envelope.workflow_id,
                        workflow_type: workflow_type.clone(),
                        status,
                        started_at: envelope.recorded_at,
                        ended_at,
                        parent: None,
                    },
                )
            },
            _ => None,
        }
    }
}

/// Conditions on workflow summaries; an unset condition holds of every summary.
#[derive(Debug, PartialEq, Eq)]
pub struct WorkflowFilter {
    /// Exact workflow type.
    pub workflow_type: Option<String>,
    /// Exact status.
    pub status: Option<WorkflowStatus>,
    /// Earliest start, inclusive.
    pub started_after: Option<Timestamp>,
    /// Latest start, inclusive.
    pub started_before: Option<Timestamp>,
    /// The workflow that started it.
    pub parent: Option<WorkflowId>,
}

/// Mathematical value of a [`WorkflowFilter`].
pub struct WorkflowFilterView {
    /// Exact workflow type.
    pub workflow_type: Option<Seq<char>>,
    /// Exact status.
    pub status: Option<WorkflowStatus>,
    /// Earliest start, inclusive.
    pub started_after: Option<Timestamp>,
    /// Latest start, inclusive.
    pub started_before: Option<Timestamp>,
    /// The workflow that started it.
    pub parent: Option<WorkflowId>,
}

impl View for WorkflowFilter {
    type V = WorkflowFilterView;

    open spec fn view(&self) -> WorkflowFilterView {
        WorkflowFilterView {
            workflow_type: optional_text(self.workflow_type),
            status: self.status,
            started_after: self.started_after,
            started_before: self.started_before,
            parent: self.parent,
        }
    }
}

impl WorkflowFilterView {
    /// All set conditions hold of the summary.
    pub open spec fn matches(self, summary: WorkflowSummaryView) -> bool {
        &&& self.workflow_type matches Some(workflow_type) ==> summary.workflow_type
            == workflow_type
        &&& self.status matches Some(status) ==> summary.status == status
        &&& self.started_after matches Some(bound) ==> bound.at_most(summary.started_at)
        &&& self.started_before matches Some(bound) ==> summary.started_at.at_most(bound)
        &&& self.parent matches Some(parent) ==> summary.parent == Some(parent)
    }
}

impl Default for WorkflowFilter {
    fn default() -> (filter: Self)
        ensures
            filter@ == (WorkflowFilterView {
                workflow_type: None,
                status: None,
                started_after: None,
                started_before: None,
                parent: None,
            }),
    {
        WorkflowFilter {
            workflow_type: None,
            status: None,
            started_after: None,
            started_before: None,
            parent: None,
        }
    }
}

impl WorkflowFilter {
    /// Whether all set conditions hold of `summary`.
    pub fn matches(&self, summary: &WorkflowSummary) -> (holds: bool)
        ensures
            holds == self@.matches(summary@),
    {
        let type_holds = match &self.workflow_type {
            Some(workflow_type) => same_text(
                workflow_type.as_str(),
                summary.workflow_type.as_str(),
            ),
            None => true,
        };
        let status_holds = match self.status {
            Some(status) => summary.status == status,
            None => true,
        };
        let after_holds = match self.started_after {
            Some(bound) => bound.not_after(&summary.started_at),
            None => true,
        };
        let before_holds = match self.started_before {
            Some(bound) => summary.started_at.not_after(&bound),
            None => true,
        };
        let parent_holds = match (self.parent, summary.parent) {
            (Some(wanted), Some(parent)) => wanted.value == parent.value,
            (Some(_), None) => false,
            (None, _) => true,
        };
        type_holds && status_holds && after_holds && before_holds && parent_holds
    }
}

/// One run of a workflow, projected from its history.
#[derive(Clone, Copy, Debug, PartialEq, Eq, Structural)]
pub struct RunSummary {
    /// The run.
    pub run_id: RunId,
    /// The run that it continues, if any.
    pub parent_run_id: Option<RunId>,
    /// Where the run stands.
    pub status: WorkflowStatus,
    /// When it began.
    pub started_at: Timestamp,
    /// When it ended, unless it is running.
    pub closed_at: Option<Timestamp>,
}

/// The runs of a history, oldest first: every `WorkflowStarted` opens a run, and a terminal event
/// closes the run that was opened last.
pub open spec fn run_chain(history: Seq<EventView>) -> Seq<RunSummary>
    decreases history.len(),
{
    if history.len() == 0 {
        Seq::empty()
    } else {
        let earlier = run_chain(history.drop_last());
        let event = history.last();
        match event.body {
            EventBody::WorkflowStarted { run_id, parent_run_id, .. } => earlier.push(
                RunSummary {
                    run_id,
                    parent_run_id,
                    status: WorkflowStatus::Running,
                    started_at: event.envelope.recorded_at,
                    closed_at: None,
                },
            ),
            _ => if is_terminal(event.body) && earlier.len() > 0 {
                earlier.drop_last().push(
                    RunSummary {
                        status: lifecycle_status(event.body)->Some_0,
                        closed_at: Some(event.envelope.recorded_at),
                        ..earlier.last()
                    },
                )
            } else {
                earlier
            },
        }
    }
}

/// The runs of a history, oldest first.
pub fn run_chain_from_history(history: &[Event]) -> (chain: Vec<RunSummary>)
    ensures
        chain@ == run_chain(event_views(history@)),
{
    let ghost views = event_views(history@);
    let mut chain: Vec<RunSummary> = Vec::new();
    let mut i: usize = 0;
    assert(views.take(0) =~= Seq::empty());
    while i < history.len()
        invariant
            i <= history.len(),
            views == event_views(history@),
            chain@ == run_chain(views.take(i as int)),
        decreases history.len() - i,
    {
        assert(views.take(i + 1).drop_last() =~= views.take(i as int));
        assert(views.take(i + 1).last() == history@[i as int]@);
        match &history[i] {
            Event::WorkflowStarted { envelope, run_id, parent_run_id, .. } => {
                chain.push(
                    RunSummary {
                        run_id: *run_id,
                        parent_run_id: *parent_run_id,
                        status: WorkflowStatus::Running,
                        started_at: envelope.recorded_at,
                        closed_at: None,
                    },
                );
            },
            event => match lifecycle(event) {
                Some(status) => {
                    if chain.len() > 0 {
                        let ghost earlier = chain@;
                        let last = chain.pop().unwrap();
                        chain.push(
                            RunSummary {
                                run_id: last.run_id,
                                parent_run_id: last.parent_run_id,
                                status,
                                started_at: last.started_at,
                                closed_at: Some(event.recorded_at()),
                            },
                        );
                        assert(earlier.last() == last);
                    }
                },
                None => {},
            },
        }
        i += 1;
    }
    assert(views.take(i as int) =~= views);
    chain
}

/// The event updates the search attribute of this name.
pub open spec fn names_attribute(event: EventView, name: Seq<char>) -> bool {
    event.body matches EventBody::SearchAttributesUpdated { attributes, .. }
        && attributes.contains_key(name)
}

/// A search attribute has the value of the last update that names it, whatever updates of other names,
/// and whatever other events, come behind.
pub proof fn attributes_keep_their_last_value(history: Seq<EventView>, name: Seq<char>, last: int)
    requires
        0 <= last < history.len(),
        names_attribute(history[last], name),
        forall|i: int| last < i < history.len() ==> !names_attribute(#[trigger] history[i], name),
    ensures
        attributes_of(history).contains_key(name),
        attributes_of(history)[name]
            == history[last].body->SearchAttributesUpdated_attributes[name],
    decreases history.len(),
{
    if last < history.len() - 1 {
        let earlier = history.drop_last();
        assert(!names_attribute(history[history.len() - 1], name));
        assert(forall|i: int| last <= i < earlier.len() ==> #[trigger] earlier[i] == history[i]);
        attributes_keep_their_last_value(earlier, name, last);
    }
}

/// A name that no update holds is no search attribute of the history.
pub proof fn attributes_come_from_updates(history: Seq<EventView>, name: Seq<char>)
    requires
        forall|i: int| 0 <= i < history.len() ==> !names_attribute(#[trigger] history[i], name),
    ensures
        !attributes_of(history).contains_key(name),
    decreases history.len(),
{
    if history.len() > 0 {
        let earlier = history.drop_last();
        assert(!names_attribute(history[history.len() - 1], name));
        assert(forall|i: int| 0 <= i < earlier.len() ==> #[trigger] earlier[i] == history[i]);
        attributes_come_from_updates(earlier, name);
    }
}

/// The event starts or ends a run.
pub open spec fn turns_status(event: EventView) -> bool {
    ||| event.body is WorkflowStarted
    ||| event.body is WorkflowCompleted
    ||| event.body is WorkflowFailed
    ||| event.body is WorkflowCancelled
    ||| event.body is WorkflowTimedOut
    ||| event.body is WorkflowContinuedAsNew
}

/// The status of a workflow is by the last event that started or ended a run, and running where there
/// is none. A workflow that ended did so when that event was recorded.
pub proof fn status_follows_the_last_turn(history: Seq<EventView>, last: int)
    requires
        -1 <= last < history.len(),
        last >= 0 ==> turns_status(history[last]),
        forall|i: int| last < i < history.len() ==> !turns_status(#[trigger] history[i]),
    ensures
        last < 0 ==> status_of(history) == WorkflowStatus::Running,
        last >= 0 ==> {
            let event = history[last];
            let status = status_of(history);
            &&& event.body is WorkflowStarted <==> status == WorkflowStatus::Running
            &&& event.body is WorkflowCompleted <==> status == WorkflowStatus::Completed
            &&& event.body is WorkflowFailed <==> status == WorkflowStatus::Failed
            &&& event.body is WorkflowCancelled <==> status == WorkflowStatus::Cancelled
            &&& event.body is WorkflowTimedOut <==> status == WorkflowStatus::TimedOut
            &&& event.body is WorkflowContinuedAsNew <==> status == WorkflowStatus::ContinuedAsNew
            &&& status != WorkflowStatus::Running ==> closed_at(history) == Some(
                event.envelope.recorded_at,
            )
        },
    decreases history.len(),
{
    if history.len() > 0 && last < history.len() - 1 {
        let earlier = history.drop_last();
        assert(!turns_status(history[history.len() - 1]));
        assert(forall|i: int| 0 <= i < earlier.len() ==> #[trigger] earlier[i] == history[i]);
        status_follows_the_last_turn(earlier, last);
    }
}

/// A workflow is summarised by its first start: its identifier, its type and when it was started; where
/// it stands is its status, and it has an end exactly where it is not running. Without a start there is
/// no summary.
pub proof fn workflows_are_summarised_by_their_first_start(history: Seq<EventView>, first: int)
    requires
        0 <= first <= history.len(),
        forall|i: int| 0 <= i < first ==> !((#[trigger] history[i]).body is WorkflowStarted),
        first < history.len() ==> history[first].body is WorkflowStarted,
    ensures
        first == history.len() ==> summary_of(history) is None,
        first < history.len() ==> (summary_of(history) matches Some(summary) && {
            &&& summary.workflow_id == history[first].envelope.workflow_id
            &&& history[first].body matches EventBody::WorkflowStarted { workflow_type, .. }
                && summary.workflow_type == workflow_type
            &&& summary.started_at == history[first].envelope.recorded_at
            &&& summary.status == status_of(history)
            &&& summary.ended_at is None <==> summary.status == WorkflowStatus::Running
            &&& summary.ended_at is Some ==> summary.ended_at == closed_at(history)
            &&& summary.parent is None
        }),
    decreases history.len(),
{
    first_start_is_found(history, first);
    ended_histories_have_an_end(history);
}

/// The first start of a history is its first event that starts a run.
pub proof fn first_start_is_found(history: Seq<EventView>, first: int)
    requires
        0 <= first <= history.len(),
        forall|i: int| 0 <= i < first ==> !((#[trigger] history[i]).body is WorkflowStarted),
        first < history.len() ==> history[first].body is WorkflowStarted,
    ensures
        first_started(history) == (if first < history.len() {
            Some(history[first])
        } else {
            None
        }),
    decreases history.len(),
{
    if history.len() > 0 && first > 0 {
        assert(!(history[0].body is WorkflowStarted));
        let rest = history.drop_first();
        assert(forall|i: int| 0 <= i < rest.len() ==> #[trigger] rest[i] == history[i + 1]);
        first_start_is_found(rest, first - 1);
    }
}

proof fn ended_histories_have_an_end(history: Seq<EventView>)
    ensures
        status_of(history) != WorkflowStatus::Running ==> closed_at(history) is Some,
    decreases history.len(),
{
    if history.len() > 0 {
        ended_histories_have_an_end(history.drop_last());
    }
}

/// How many runs a history starts.
pub open spec fn starts_in(history: Seq<EventView>) -> nat
    decreases history.len(),
{
    if history.len() == 0 {
        0
    } else {
        starts_in(history.drop_last()) + (if history.last().body is WorkflowStarted {
            1nat
        } else {
            0nat
        })
    }
}

/// The chain of runs has one for every start, in order: the run of the start at a place stands behind
/// those of the starts before it, under the identifier and the parent that the start recorded, and began
/// when the start was recorded.
pub proof fn every_start_has_its_run(history: Seq<EventView>, place: int)
    requires
        0 <= place < history.len(),
        history[place].body is WorkflowStarted,
    ensures
        run_chain(history).len() == starts_in(history),
        ({
            let position = starts_in(history.take(place)) as int;
            &&& position < run_chain(history).len()
            &&& history[place].body matches EventBody::WorkflowStarted {
                run_id,
                parent_run_id,
                ..
            } && run_chain(history)[position].run_id == run_id && run_chain(
                history,
            )[position].parent_run_id == parent_run_id
            &&& run_chain(history)[position].started_at == history[place].envelope.recorded_at
        }),
    decreases history.len(),
{
    chains_have_as_many_runs_as_starts(history);
    let earlier = history.drop_last();
    chains_have_as_many_runs_as_starts(earlier);
    if place == history.len() - 1 {
        assert(history.take(place) =~= earlier);
    } else {
        assert(earlier[place] == history[place]);
        assert(earlier.take(place) =~= history.take(place));
        every_start_has_its_run(earlier, place);
    }
}

proof fn chains_have_as_many_runs_as_starts(history: Seq<EventView>)
    ensures
        run_chain(history).len() == starts_in(history),
    decreases history.len(),
{
    if history.len() > 0 {
        chains_have_as_many_runs_as_starts(history.drop_last());
    }
}

/// The last run of a chain stands where the workflow stands, and closed when the workflow ended; every
/// other run keeps what it had when the next one started.
pub proof fn last_runs_stand_where_the_workflow_stands(history: Seq<EventView>)
    requires
        run_chain(history).len() > 0,
        first_is_a_start(history),
    ensures
        run_chain(history).last().status == status_of(history),
        run_chain(history).last().closed_at == (if status_of(history) == WorkflowStatus::Running {
            None
        } else {
            closed_at(history)
        }),
    decreases history.len(),
{
    let earlier = history.drop_last();
    if run_chain(earlier).len() > 0 {
        if earlier.len() > 0 {
            assert(earlier[0] == history[0]);
            last_runs_stand_where_the_workflow_stands(earlier);
        }
    } else if earlier.len() > 0 {
        assert(earlier[0] == history[0]);
        first_start_opens_the_chain(earlier);
    }
}

/// The history begins with a start.
pub open spec fn first_is_a_start(history: Seq<EventView>) -> bool {
    history.len() > 0 && history[0].body is WorkflowStarted
}

proof fn first_start_opens_the_chain(history: Seq<EventView>)
    requires
        first_is_a_start(history),
    ensures
        run_chain(history).len() > 0,
    decreases history.len(),
{
    if history.len() > 1 {
        assert(history.drop_last()[0] == history[0]);
        first_start_opens_the_chain(history.drop_last());
    }
}

/// A later start leaves the runs before it as they were.
pub proof fn starts_leave_earlier_runs_alone(history: Seq<EventView>, start: EventView)
    requires
        start.body is WorkflowStarted,
    ensures
        run_chain(history.push(start)).drop_last() == run_chain(history),
        run_chain(history.push(start)).last().status == WorkflowStatus::Running,
        run_chain(history.push(start)).last().closed_at is None,
{
    assert(history.push(start).drop_last() =~= history);
    assert(run_chain(history.push(start)).drop_last() =~= run_chain(history));
}

/// A filter selects by all of its conditions at once, bounds included: exactly the summaries of the
/// type, of the status, started no earlier than the one bound and no later than the other, and of the
/// parent, as far as each is set.
pub proof fn filters_select_by_every_condition(
    filter: WorkflowFilterView,
    summary: WorkflowSummaryView,
)
    ensures
        filter.matches(summary) <==> {
            &&& filter.workflow_type is None || filter.workflow_type == Some(summary.workflow_type)
            &&& filter.status is None || filter.status == Some(summary.status)
            &&& filter.started_after is None || not_before(
                summary.started_at,
                filter.started_after->Some_0,
            )
            &&& filter.started_before is None || not_before(
                filter.started_before->Some_0,
                summary.started_at,
            )
            &&& filter.parent is None || filter.parent == summary.parent
        },
{
}

/// An instant is no earlier than another: it has a later second, or the same and as many nanoseconds.
pub open spec fn not_before(at: Timestamp, bound: Timestamp) -> bool {
    at.seconds() > bound.seconds() || (at.seconds() == bound.seconds() && at.subsec_nanos()
        >= bound.subsec_nanos())
}

/// An end closes the last run with its own status and time and leaves the earlier runs as they were; an
/// event that is neither a start nor an end changes no run.
pub proof fn ends_close_the_last_run(history: Seq<EventView>, event: EventView)
    requires
        !(event.body is WorkflowStarted),
    ensures
        ({
            let before = run_chain(history);
            let after = run_chain(history.push(event));
            &&& after.len() == before.len()
            &&& !turns_status(event) ==> after == before
            &&& turns_status(event) && before.len() > 0 ==> {
                &&& after.drop_last() == before.drop_last()
                &&& after.last().run_id == before.last().run_id
                &&& after.last().parent_run_id == before.last().parent_run_id
                &&& after.last().started_at == before.last().started_at
                &&& after.last().closed_at == Some(event.envelope.recorded_at)
                &&& event.body is WorkflowCompleted <==> after.last().status
                    == WorkflowStatus::Completed
                &&& event.body is WorkflowFailed <==> after.last().status == WorkflowStatus::Failed
                &&& event.body is WorkflowCancelled <==> after.last().status
                    == WorkflowStatus::Cancelled
                &&& event.body is WorkflowTimedOut <==> after.last().status
                    == WorkflowStatus::TimedOut
                &&& event.body is WorkflowContinuedAsNew <==> after.last().status
                    == WorkflowStatus::ContinuedAsNew
            }
        }),
{
    assert(history.push(event).drop_last() =~= history);
    let before = run_chain(history);
    let after = run_chain(history.push(event));
    if before.len() > 0 && after != before {
        assert(after.drop_last() =~= before.drop_last());
    }
}

} // verus!
