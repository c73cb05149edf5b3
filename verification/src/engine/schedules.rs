//! Projected schedules and the changes that are made to them.

use vstd::prelude::*;
use vstd::string::*;

use crate::error::{EngineError, EngineErrorView};
use crate::event::{Event, EventBody, EventEnvelope};
use crate::ids::{hyphenated, RunId, ScheduleId, WorkflowId};
use crate::order::{in_order, items_of, lists, sorted_pairs, without_keys, Keyed, Ranked};
use crate::schedule::{ScheduleConfig, ScheduleConfigView};
use crate::table::{
    keys_distinct, pair_map, pair_map_holds, passed_over, picked, picked_keys_distinct,
    picked_lists, picked_next, Key, Table,
};
use crate::text::{text_at_most, text_order_total, text_order_transitive, text_precedes};
use crate::timestamp::{timestamp_order, Timestamp};

verus! {

/// Workflow whose history holds the durable schedule events.
pub fn schedule_coordinator_workflow_id() -> (id: WorkflowId)
    ensures
        id == coordinator_workflow(),
{
    WorkflowId::new(0x0000_0000_a10a_0000_0000_0000_0000_0004)
}

/// Workflow whose history holds the durable schedule events.
pub open spec fn coordinator_workflow() -> WorkflowId {
    WorkflowId { value: 0x0000_0000_a10a_0000_0000_0000_0000_0004 }
}

/// Run of the schedule coordinator.
pub fn schedule_coordinator_run_id() -> (id: RunId)
    ensures
        id == coordinator_run(),
{
    RunId::new(0x0000_0000_a10a_0000_0000_0000_0000_0005)
}

/// Run of the schedule coordinator.
pub open spec fn coordinator_run() -> RunId {
    RunId { value: 0x0000_0000_a10a_0000_0000_0000_0000_0005 }
}

/// Workflow type of the schedule coordinator.
pub fn schedule_coordinator_workflow_type() -> (workflow_type: &'static str)
    ensures
        workflow_type@ == coordinator_type(),
{
    "aion.schedule_coordinator"
}

/// Workflow type of the schedule coordinator.
pub open spec fn coordinator_type() -> Seq<char> {
    "aion.schedule_coordinator"@
}

/// Envelope of an event that is applied to a projected schedule: it has no place in a history.
pub fn schedule_event_envelope(recorded_at: Timestamp) -> (envelope: EventEnvelope)
    ensures
        envelope == (EventEnvelope { seq: 0, recorded_at, workflow_id: coordinator_workflow() }),
{
    EventEnvelope { seq: 0, recorded_at, workflow_id: schedule_coordinator_workflow_id() }
}

/// State of a schedule as its events project it.
#[derive(Debug, PartialEq, Eq)]
pub struct ScheduleState {
    /// The schedule.
    pub schedule_id: ScheduleId,
    /// Its configuration.
    pub config: ScheduleConfig,
    /// It is paused.
    pub is_paused: bool,
    /// It was deleted.
    pub is_deleted: bool,
    /// When it triggers next, if it does.
    pub next_trigger_at: Option<Timestamp>,
}

/// Mathematical value of a [`ScheduleState`].
pub struct ScheduleStateView {
    /// The schedule.
    pub schedule_id: ScheduleId,
    /// Its configuration.
    pub config: ScheduleConfigView,
    /// It is paused.
    pub is_paused: bool,
    /// It was deleted.
    pub is_deleted: bool,
    /// When it triggers next, if it does.
    pub next_trigger_at: Option<Timestamp>,
}

impl View for ScheduleState {
    type V = ScheduleStateView;

    open spec fn view(&self) -> ScheduleStateView {
        ScheduleStateView {
            schedule_id: self.schedule_id,
            config: self.config@,
            is_paused: self.is_paused,
            is_deleted: self.is_deleted,
            next_trigger_at: self.next_trigger_at,
        }
    }
}

impl Clone for ScheduleState {
    fn clone(&self) -> (copy: Self)
        ensures
            copy@ == self@,
    {
        ScheduleState {
            schedule_id: self.schedule_id,
            config: self.config.clone(),
            is_paused: self.is_paused,
            is_deleted: self.is_deleted,
            next_trigger_at: self.next_trigger_at,
        }
    }
}

impl ScheduleStateView {
    /// The state of a schedule behind a change: it is of that schedule, and paused, resumed or
    /// deleted as the change says.
    pub open spec fn behind(self, schedule_id: ScheduleId, change: ScheduleChange) -> Self {
        ScheduleStateView {
            schedule_id,
            is_paused: match change {
                ScheduleChange::Pause => true,
                ScheduleChange::Resume => false,
                _ => self.is_paused,
            },
            is_deleted: self.is_deleted || change is Delete,
            ..self
        }
    }

    /// Schedules are listed by their next trigger, those without one first, and then by the text of
    /// their identifiers.
    pub open spec fn listed_before(self, other: Self) -> bool {
        if self.next_trigger_at != other.next_trigger_at {
            match (self.next_trigger_at, other.next_trigger_at) {
                (Some(a), Some(b)) => a.at_most(b),
                (None, _) => true,
                (Some(_), None) => false,
            }
        } else {
            text_at_most(hyphenated(self.schedule_id.value), hyphenated(other.schedule_id.value))
        }
    }
}

impl Ranked for ScheduleState {
    open spec fn at_most(&self, other: &Self) -> bool {
        self@.listed_before(other@)
    }

    fn precedes(&self, other: &Self) -> (precedes: bool) {
        match (self.next_trigger_at, other.next_trigger_at) {
            (Some(a), Some(b)) => {
                if a != b {
                    return a.not_after(&b);
                }
            },
            (None, Some(_)) => {
                return true;
            },
            (Some(_), None) => {
                return false;
            },
            (None, None) => {},
        }
        text_precedes(
            self.schedule_id.to_string().as_str(),
            other.schedule_id.to_string().as_str(),
        )
    }

    proof fn at_most_total(a: Self, b: Self) {
        if a.next_trigger_at is Some && b.next_trigger_at is Some {
            timestamp_order(
                a.next_trigger_at->Some_0,
                b.next_trigger_at->Some_0,
                b.next_trigger_at->Some_0,
            );
        }
        text_order_total(hyphenated(a.schedule_id.value), hyphenated(b.schedule_id.value));
    }

    proof fn at_most_transitive(a: Self, b: Self, c: Self) {
        if a.next_trigger_at is Some && b.next_trigger_at is Some && c.next_trigger_at is Some {
            let x = a.next_trigger_at->Some_0;
            let y = b.next_trigger_at->Some_0;
            let z = c.next_trigger_at->Some_0;
            timestamp_order(x, y, z);
            timestamp_order(y, z, x);
            timestamp_order(z, x, y);
        }
        if a.next_trigger_at == b.next_trigger_at && b.next_trigger_at == c.next_trigger_at {
            text_order_transitive(
                hyphenated(a.schedule_id.value),
                hyphenated(b.schedule_id.value),
                hyphenated(c.schedule_id.value),
            );
        }
    }
}

impl View for ScheduleId {
    type V = ScheduleId;

    open spec fn view(&self) -> ScheduleId {
        *self
    }
}

impl Key for ScheduleId {
    fn same_key(&self, other: &Self) -> (same: bool) {
        self.value == other.value
    }
}

/// The schedules that exist: those that were not deleted.
pub open spec fn existing(schedules: Map<ScheduleId, ScheduleStateView>) -> Map<
    ScheduleId,
    ScheduleStateView,
> {
    Map::new(
        |id: ScheduleId| schedules.contains_key(id) && !schedules[id].is_deleted,
        |id: ScheduleId| schedules[id],
    )
}

/// Mathematical values of a list of schedules.
pub open spec fn schedule_views(schedules: Seq<ScheduleState>) -> Seq<ScheduleStateView> {
    schedules.map_values(|state: ScheduleState| state@)
}

/// Every schedule is kept under its own identifier.
pub open spec fn kept_by_id(schedules: Map<ScheduleId, ScheduleStateView>) -> bool {
    forall|id: ScheduleId| #[trigger]
        schedules.contains_key(id) ==> schedules[id].schedule_id == id
}

/// What describing a schedule returns: a schedule that does not exist is not found.
pub open spec fn described(
    schedules: Map<ScheduleId, ScheduleStateView>,
    schedule_id: ScheduleId,
) -> Result<ScheduleStateView, EngineErrorView> {
    if existing(schedules).contains_key(schedule_id) {
        Ok(existing(schedules)[schedule_id])
    } else {
        Err(no_schedule(schedule_id))
    }
}

/// Mathematical value of what describing a schedule returned.
pub open spec fn description_view(state: Result<ScheduleState, EngineError>) -> Result<
    ScheduleStateView,
    EngineErrorView,
> {
    match state {
        Ok(state) => Ok(state@),
        Err(error) => Err(error@),
    }
}

/// Projected schedules by identifier.
#[derive(Debug)]
pub struct ScheduleBook {
    states: Table<ScheduleId, ScheduleState>,
}

impl View for ScheduleBook {
    type V = Map<ScheduleId, ScheduleStateView>;

    closed spec fn view(&self) -> Map<ScheduleId, ScheduleStateView> {
        self.states@.map_values(|state: ScheduleState| state@)
    }
}

/// The refusal of a schedule that does not exist.
pub open spec fn no_schedule(schedule_id: ScheduleId) -> EngineErrorView {
    EngineErrorView::ScheduleNotFound { schedule_id }
}

impl ScheduleBook {
    #[verifier::type_invariant]
    spec fn by_id(self) -> bool {
        forall|id: ScheduleId| #[trigger]
            self.states@.contains_key(id) ==> self.states@[id].schedule_id == id
    }

    /// No schedules.
    pub fn new() -> (book: Self)
        ensures
            book@ == Map::<ScheduleId, ScheduleStateView>::empty(),
    {
        let book = ScheduleBook { states: Table::new() };
        assert(book@ =~= Map::<ScheduleId, ScheduleStateView>::empty());
        book
    }

    /// Keeps the state of a schedule.
    pub fn upsert_state(&mut self, state: ScheduleState)
        ensures
            final(self)@ == old(self)@.insert(state.schedule_id, state@),
            kept_by_id(final(self)@),
    {
        proof {
            use_type_invariant(&*self);
        }
        let mut states: Table<ScheduleId, ScheduleState> = Table::new();
        core::mem::swap(&mut states, &mut self.states);
        let _ = states.insert(state.schedule_id, state);
        self.states = states;
        assert(self@ =~= old(self)@.insert(state.schedule_id, state@));
    }

    fn existing_state(&self, schedule_id: &ScheduleId) -> (state: Option<&ScheduleState>)
        ensures
            match state {
                Some(s) => existing(self@).contains_key(*schedule_id) && s@ == existing(
                    self@,
                )[*schedule_id],
                None => !existing(self@).contains_key(*schedule_id),
            },
    {
        match self.states.get(schedule_id) {
            Some(state) => {
                if state.is_deleted {
                    None
                } else {
                    Some(state)
                }
            },
            None => None,
        }
    }

    /// The existing schedules, in their order, each under its own identifier.
    pub fn list_schedules(&self) -> (schedules: Vec<ScheduleState>)
        ensures
            lists(schedule_views(schedules@), existing(self@)),
            in_order(schedules@),
            kept_by_id(self@),
    {
        proof {
            use_type_invariant(self);
        }
        let entries = self.states.entries();
        let ghost pairs = entries@;
        let ghost wanted = existing(self@);
        let ghost value = |state: ScheduleState| state@;
        let mut found: Vec<Keyed<usize, ScheduleState>> = Vec::new();
        let mut i: usize = 0;
        while i < entries.len()
            invariant
                i <= entries.len(),
                entries@ == pairs,
                keys_distinct(pairs),
                pair_map(pairs) == self.states@,
                wanted == existing(self@),
                value == (|state: ScheduleState| state@),
                picked(pairs, i as int, wanted, value, found@),
            decreases entries.len() - i,
        {
            let ghost earlier = found@;
            proof {
                pair_map_holds(pairs, i as int);
            }
            if entries[i].1.is_deleted {
                proof {
                    passed_over(pairs, i as int, wanted, value, earlier);
                }
            } else {
                found.push(Keyed { key: i, item: entries[i].1.clone() });
                proof {
                    picked_next(pairs, i as int, wanted, value, earlier, found@.last());
                    assert(found@ =~= earlier.push(found@.last()));
                }
            }
            i += 1;
        }
        proof {
            picked_keys_distinct(pairs, i as int, wanted, value, found@);
        }
        let ordered = sorted_pairs(found);
        let schedules = without_keys(ordered);
        proof {
            picked_lists(pairs, wanted, value, found@, ordered@);
            assert(items_of(ordered@).map_values(value) =~= schedule_views(schedules@));
        }
        schedules
    }

    /// One existing schedule.
    pub fn describe_schedule(&self, schedule_id: &ScheduleId) -> (state: Result<
        ScheduleState,
        EngineError,
    >)
        ensures
            description_view(state) == described(self@, *schedule_id),
            kept_by_id(self@),
    {
        proof {
            use_type_invariant(self);
        }
        match self.existing_state(schedule_id) {
            Some(state) => Ok(state.clone()),
            None => Err(EngineError::ScheduleNotFound { schedule_id: *schedule_id }),
        }
    }

    /// Refuses a schedule that does not exist.
    pub fn ensure_schedule_exists(&self, schedule_id: &ScheduleId) -> (exists: Result<
        (),
        EngineError,
    >)
        ensures
            if existing(self@).contains_key(*schedule_id) {
                exists is Ok
            } else {
                exists matches Err(e) && e@ == no_schedule(*schedule_id)
            },
    {
        match self.existing_state(schedule_id) {
            Some(_) => Ok(()),
            None => Err(EngineError::ScheduleNotFound { schedule_id: *schedule_id }),
        }
    }
}

/// A change of an existing schedule.
#[derive(Debug, PartialEq, Eq)]
pub enum ScheduleChange {
    /// It gets another configuration.
    Update(ScheduleConfig),
    /// It is paused.
    Pause,
    /// It is resumed.
    Resume,
    /// It is deleted.
    Delete,
}

/// The event that records a change.
pub open spec fn change_body(change: ScheduleChange, schedule_id: ScheduleId) -> EventBody {
    match change {
        ScheduleChange::Update(config) => EventBody::ScheduleUpdated {
            schedule_id,
            config: config@,
        },
        ScheduleChange::Pause => EventBody::SchedulePaused { schedule_id },
        ScheduleChange::Resume => EventBody::ScheduleResumed { schedule_id },
        ScheduleChange::Delete => EventBody::ScheduleDeleted { schedule_id },
    }
}

/// The schedule is armed behind the change.
pub open spec fn arms(change: ScheduleChange) -> bool {
    change is Update || change is Resume
}

impl ScheduleChange {
    /// Whether the schedule is armed behind the change.
    pub fn arms_schedule(&self) -> (arming: bool)
        ensures
            arming == arms(*self),
    {
        matches!(self, ScheduleChange::Update(_) | ScheduleChange::Resume)
    }
}

/// The event that a change applies to the projected schedule.
pub fn schedule_change_event(
    change: &ScheduleChange,
    schedule_id: ScheduleId,
    recorded_at: Timestamp,
) -> (event: Event)
    ensures
        event@.body == change_body(*change, schedule_id),
        event@.envelope == (EventEnvelope {
            seq: 0,
            recorded_at,
            workflow_id: coordinator_workflow(),
        }),
{
    let envelope = schedule_event_envelope(recorded_at);
    match change {
        ScheduleChange::Update(config) => Event::ScheduleUpdated {
            envelope,
            schedule_id,
            config: config.clone(),
        },
        ScheduleChange::Pause => Event::SchedulePaused { envelope, schedule_id },
        ScheduleChange::Resume => Event::ScheduleResumed { envelope, schedule_id },
        ScheduleChange::Delete => Event::ScheduleDeleted { envelope, schedule_id },
    }
}

/// A schedule exists from the time that its state is kept until it is deleted, and is described as it
/// is kept; any other schedule is not found.
pub proof fn schedules_exist_until_deleted(
    schedules: Map<ScheduleId, ScheduleStateView>,
    schedule_id: ScheduleId,
)
    ensures
        described(schedules, schedule_id) is Ok <==> schedules.contains_key(schedule_id)
            && !schedules[schedule_id].is_deleted,
        described(schedules, schedule_id) matches Ok(state) ==> state == schedules[schedule_id],
        described(schedules, schedule_id) matches Err(error) ==> error
            == (EngineErrorView::ScheduleNotFound { schedule_id }),
        existing(schedules).contains_key(schedule_id) <==> described(schedules, schedule_id) is Ok,
{
}

/// A change does to a schedule what its name says and nothing else: it pauses, resumes or deletes,
/// and a deleted schedule stays deleted.
pub proof fn changes_do_what_they_say(
    state: ScheduleStateView,
    schedule_id: ScheduleId,
    change: ScheduleChange,
)
    ensures
        ({
            let after = state.behind(schedule_id, change);
            &&& change is Pause ==> after.is_paused
            &&& change is Resume ==> !after.is_paused
            &&& change is Update || change is Delete ==> after.is_paused == state.is_paused
            &&& after.is_deleted <==> state.is_deleted || change is Delete
            &&& after.schedule_id == schedule_id
            &&& after.config == state.config
            &&& after.next_trigger_at == state.next_trigger_at
        }),
{
}

/// Only a schedule that was resumed or got another configuration is armed.
pub proof fn resumed_and_updated_schedules_are_armed(config: ScheduleConfig)
    ensures
        arms(ScheduleChange::Resume),
        arms(ScheduleChange::Update(config)),
        !arms(ScheduleChange::Pause),
        !arms(ScheduleChange::Delete),
{
}

/// Schedules are listed by their next trigger: one without a trigger stands before one with, an
/// earlier trigger before a later one, and schedules that trigger together go by the texts of their
/// identifiers.
pub proof fn schedules_are_listed_by_next_trigger(a: ScheduleStateView, b: ScheduleStateView)
    ensures
        a.next_trigger_at is None && b.next_trigger_at is Some ==> a.listed_before(b)
            && !b.listed_before(a),
        a.next_trigger_at matches Some(x) && b.next_trigger_at matches Some(y) && (x.seconds()
            < y.seconds() || (x.seconds() == y.seconds() && x.subsec_nanos() < y.subsec_nanos()))
            ==> a.listed_before(b) && !b.listed_before(a),
        a.next_trigger_at == b.next_trigger_at ==> (a.listed_before(b) <==> text_at_most(
            hyphenated(a.schedule_id.value),
            hyphenated(b.schedule_id.value),
        )),
{
}

} // verus!
