//! Live workflow runs and their supervisors.

use vstd::prelude::*;
use vstd::string::*;

use crate::error::DurabilityError;
use crate::event::{event_views, Event, EventBody};
use crate::ids::{Pid, RunId, TimerId, WorkflowId};
use crate::projection::{status_from_events, status_of, WorkflowStatus};
use crate::recorder::{recorded, Recorder, RecorderView};
use crate::store::EventStore;
use crate::text::same_text;
use crate::timestamp::Timestamp;

verus! {

/// Hash of the contents of a loaded package.
#[derive(Clone, Copy, Debug, PartialEq, Eq)]
pub struct ContentHash {
    /// The hash.
    pub bytes: [u8; 32],
}

/// Whether a run's process is in memory.
#[derive(Clone, Copy, Debug, PartialEq, Eq, Structural)]
pub enum HandleResidency {
    /// The process runs.
    Resident,
    /// The process was suspended.
    Suspended,
}

/// A live workflow run.
#[derive(Debug)]
pub struct WorkflowHandle {
    /// Workflow.
    pub workflow_id: WorkflowId,
    /// Run.
    pub run_id: RunId,
    /// Process of the run.
    pub pid: Pid,
    /// Type of the workflow.
    pub workflow_type: String,
    /// Package version that the run was started from.
    pub loaded_version: ContentHash,
    /// Status that was last projected.
    pub cached_status: WorkflowStatus,
    /// Whether the process is in memory.
    pub residency: HandleResidency,
    /// Writer of the run's history.
    pub recorder: Recorder,
}

/// Mathematical value of a [`WorkflowHandle`].
pub struct HandleView {
    /// Workflow.
    pub workflow_id: WorkflowId,
    /// Run.
    pub run_id: RunId,
    /// Process of the run.
    pub pid: Pid,
    /// Type of the workflow.
    pub workflow_type: Seq<char>,
    /// Package version that the run was started from.
    pub loaded_version: ContentHash,
    /// Status that was last projected.
    pub cached_status: WorkflowStatus,
    /// Whether the process is in memory.
    pub residency: HandleResidency,
    /// Writer of the run's history.
    pub recorder: RecorderView,
}

impl View for WorkflowHandle {
    type V = HandleView;

    open spec fn view(&self) -> HandleView {
        HandleView {
            workflow_id: self.workflow_id,
            run_id: self.run_id,
            pid: self.pid,
            workflow_type: self.workflow_type@,
            loaded_version: self.loaded_version,
            cached_status: self.cached_status,
            residency: self.residency,
            recorder: self.recorder@,
        }
    }
}

/// Mathematical values of a list of handles.
pub open spec fn handle_views(handles: Seq<WorkflowHandle>) -> Seq<HandleView> {
    handles.map_values(|handle: WorkflowHandle| handle@)
}

/// Place of the first handle that has a property; behind the end if none has.
pub open spec fn first_place(
    handles: Seq<HandleView>,
    wanted: spec_fn(HandleView) -> bool,
) -> int
    decreases handles.len(),
{
    if handles.len() == 0 {
        0
    } else if wanted(handles[0]) {
        0
    } else {
        1 + first_place(handles.drop_first(), wanted)
    }
}

/// The first place is where the property first holds.
pub proof fn first_place_is(
    handles: Seq<HandleView>,
    wanted: spec_fn(HandleView) -> bool,
    place: int,
)
    requires
        0 <= place <= handles.len(),
        forall|i: int| 0 <= i < place ==> !wanted(#[trigger] handles[i]),
        place < handles.len() ==> wanted(handles[place]),
    ensures
        first_place(handles, wanted) == place,
    decreases handles.len(),
{
    if handles.len() > 0 && place > 0 {
        assert(!wanted(handles[0]));
        let rest = handles.drop_first();
        assert forall|i: int| 0 <= i < place - 1 implies !wanted(#[trigger] rest[i]) by {
            assert(!wanted(handles[i + 1]));
        }
        first_place_is(rest, wanted, place - 1);
    }
}

/// The first place is within the list, and has the property.
pub proof fn first_place_in_range(handles: Seq<HandleView>, wanted: spec_fn(HandleView) -> bool)
    ensures
        0 <= first_place(handles, wanted) <= handles.len(),
        first_place(handles, wanted) < handles.len() ==> wanted(
            handles[first_place(handles, wanted)],
        ),
    decreases handles.len(),
{
    if handles.len() > 0 && !wanted(handles[0]) {
        first_place_in_range(handles.drop_first(), wanted);
    }
}

/// The handle belongs to the run.
pub open spec fn of_run(id: WorkflowId, run: RunId) -> spec_fn(HandleView) -> bool {
    |handle: HandleView| handle.workflow_id == id && handle.run_id == run
}

/// The handle belongs to the process.
pub open spec fn of_process(pid: Pid) -> spec_fn(HandleView) -> bool {
    |handle: HandleView| handle.pid == pid
}

/// The handle belongs to the workflow.
pub open spec fn of_workflow(id: WorkflowId) -> spec_fn(HandleView) -> bool {
    |handle: HandleView| handle.workflow_id == id
}

/// The handles with one more; a handle of the same run is replaced.
pub open spec fn with_handle(handles: Seq<HandleView>, handle: HandleView) -> Seq<HandleView> {
    let place = first_place(handles, of_run(handle.workflow_id, handle.run_id));
    if place < handles.len() {
        handles.update(place, handle)
    } else {
        handles.push(handle)
    }
}

/// The handles with the cached status of a run brought up to date.
pub open spec fn reconciled(
    handles: Seq<HandleView>,
    id: WorkflowId,
    run: RunId,
    status: WorkflowStatus,
) -> Seq<HandleView> {
    let place = first_place(handles, of_run(id, run));
    if place < handles.len() {
        handles.update(place, HandleView { cached_status: status, ..handles[place] })
    } else {
        handles
    }
}

/// The live runs after a run was made resident.
pub open spec fn resumed(handles: Seq<HandleView>, id: WorkflowId, run: RunId) -> Seq<HandleView> {
    let place = first_place(handles, of_run(id, run));
    if place < handles.len() {
        handles.update(place, HandleView { residency: HandleResidency::Resident, ..handles[place] })
    } else {
        handles
    }
}

/// Every live run's recorder writes the history of the run's own workflow.
pub open spec fn own_recorders(handles: Seq<HandleView>) -> bool {
    forall|i: int|
        0 <= i < handles.len() ==> (#[trigger] handles[i]).recorder.workflow_id
            == handles[i].workflow_id
}

/// The recorder of the live run at a place wrote an event, and nothing else of the runs changed.
pub open spec fn recorded_in<S: EventStore>(
    before: Seq<HandleView>,
    after: Seq<HandleView>,
    place: int,
    store_before: S,
    store_after: S,
    recorded_at: Timestamp,
    body: EventBody,
    outcome: Result<(), DurabilityError>,
) -> bool {
    &&& after == before.update(
        place,
        HandleView { recorder: after[place].recorder, ..before[place] },
    )
    &&& recorded(
        before[place].recorder,
        after[place].recorder,
        store_before,
        store_after,
        recorded_at,
        body,
        outcome,
    )
}

/// The live runs, in the order in which they were registered.
#[derive(Debug)]
pub struct Registry {
    handles: Vec<WorkflowHandle>,
}

impl View for Registry {
    type V = Seq<HandleView>;

    closed spec fn view(&self) -> Seq<HandleView> {
        handle_views(self.handles@)
    }
}

impl Registry {
    /// Every live run's recorder writes the history of the run's own workflow.
    #[verifier::type_invariant]
    pub open spec fn well_formed(self) -> bool {
        own_recorders(self@)
    }

    /// No runs.
    pub fn new() -> (registry: Self)
        ensures
            registry@ == Seq::<HandleView>::empty(),
            own_recorders(registry@),
    {
        let registry = Registry { handles: Vec::new() };
        assert(registry@ =~= Seq::<HandleView>::empty());
        registry
    }

    /// The live runs. Each has a recorder of its own workflow.
    pub fn list(&self) -> (handles: &Vec<WorkflowHandle>)
        ensures
            handle_views(handles@) == self@,
            own_recorders(self@),
    {
        proof {
            use_type_invariant(self);
        }
        &self.handles
    }

    fn place_of_run(&self, id: &WorkflowId, run: &RunId) -> (place: usize)
        ensures
            place == first_place(self@, of_run(*id, *run)),
            place <= self@.len(),
            self@.len() == self.handles@.len(),
    {
        let mut i: usize = 0;
        while i < self.handles.len()
            invariant
                i <= self.handles.len(),
                self@ == handle_views(self.handles@),
                forall|j: int| 0 <= j < i ==> !of_run(*id, *run)(#[trigger] self@[j]),
            decreases self.handles.len() - i,
        {
            if self.handles[i].workflow_id == *id && self.handles[i].run_id == *run {
                proof {
                    assert(of_run(*id, *run)(self@[i as int]));
                    first_place_is(self@, of_run(*id, *run), i as int);
                }
                return i;
            }
            assert(!of_run(*id, *run)(self@[i as int]));
            i += 1;
        }
        proof {
            first_place_is(self@, of_run(*id, *run), i as int);
        }
        i
    }

    /// Place of the first run of a workflow.
    pub fn place_of_workflow(&self, id: &WorkflowId) -> (place: Option<usize>)
        ensures
            match place {
                Some(place) => place < self@.len() && place == first_place(
                    self@,
                    of_workflow(*id),
                ),
                None => first_place(self@, of_workflow(*id)) == self@.len(),
            },
    {
        let mut i: usize = 0;
        while i < self.handles.len()
            invariant
                i <= self.handles.len(),
                self@ == handle_views(self.handles@),
                forall|j: int| 0 <= j < i ==> !of_workflow(*id)(#[trigger] self@[j]),
            decreases self.handles.len() - i,
        {
            if self.handles[i].workflow_id == *id {
                proof {
                    assert(of_workflow(*id)(self@[i as int]));
                    first_place_is(self@, of_workflow(*id), i as int);
                }
                return Some(i);
            }
            assert(!of_workflow(*id)(self@[i as int]));
            i += 1;
        }
        proof {
            first_place_is(self@, of_workflow(*id), i as int);
        }
        None
    }

    /// Place of the first run of a process.
    pub fn place_of_process(&self, pid: Pid) -> (place: Option<usize>)
        ensures
            match place {
                Some(place) => place < self@.len() && place == first_place(self@, of_process(pid)),
                None => first_place(self@, of_process(pid)) == self@.len(),
            },
    {
        let mut i: usize = 0;
        while i < self.handles.len()
            invariant
                i <= self.handles.len(),
                self@ == handle_views(self.handles@),
                forall|j: int| 0 <= j < i ==> !of_process(pid)(#[trigger] self@[j]),
            decreases self.handles.len() - i,
        {
            if self.handles[i].pid == pid {
                proof {
                    assert(of_process(pid)(self@[i as int]));
                    first_place_is(self@, of_process(pid), i as int);
                }
                return Some(i);
            }
            assert(!of_process(pid)(self@[i as int]));
            i += 1;
        }
        proof {
            first_place_is(self@, of_process(pid), i as int);
        }
        None
    }

    /// The handle of a run, if it is live.
    pub fn get(&self, id: &WorkflowId, run: &RunId) -> (handle: Option<&WorkflowHandle>)
        ensures
            ({
                let place = first_place(self@, of_run(*id, *run));
                match handle {
                    Some(h) => place < self@.len() && h@ == self@[place],
                    None => place == self@.len(),
                }
            }),
    {
        let place = self.place_of_run(id, run);
        if place < self.handles.len() {
            Some(&self.handles[place])
        } else {
            None
        }
    }

    /// Registers a run, with a recorder of its own workflow; an earlier handle of the same run is
    /// replaced.
    pub fn insert(&mut self, handle: WorkflowHandle)
        requires
            handle@.recorder.workflow_id == handle@.workflow_id,
        ensures
            final(self)@ == with_handle(old(self)@, handle@),
            own_recorders(final(self)@),
    {
        proof {
            use_type_invariant(&*self);
        }
        let place = self.place_of_run(&handle.workflow_id, &handle.run_id);
        let mut handles: Vec<WorkflowHandle> = Vec::new();
        core::mem::swap(&mut handles, &mut self.handles);
        let ghost before = handles@;
        if place < handles.len() {
            handles.set(place, handle);
            assert(handle_views(handles@) =~= handle_views(before).update(place as int, handle@));
        } else {
            handles.push(handle);
            assert(handle_views(handles@) =~= handle_views(before).push(handle@));
        }
        self.handles = handles;
    }

    /// Makes a run resident; returns it, if it is live.
    pub fn resume(&mut self, id: &WorkflowId, run: &RunId) -> (handle: Option<&WorkflowHandle>)
        ensures
            final(self)@ == resumed(old(self)@, *id, *run),
            ({
                let place = first_place(old(self)@, of_run(*id, *run));
                match handle {
                    Some(h) => place < old(self)@.len() && h@ == final(self)@[place],
                    None => place == old(self)@.len(),
                }
            }),
    {
        proof {
            use_type_invariant(&*self);
        }
        let place = self.place_of_run(id, run);
        if place >= self.handles.len() {
            return None;
        }
        let mut handles: Vec<WorkflowHandle> = Vec::new();
        core::mem::swap(&mut handles, &mut self.handles);
        let ghost before = handles@;
        handles[place].residency = HandleResidency::Resident;
        proof {
            one_run_changes(before, handles@, place as int);
        }
        self.handles = handles;
        Some(&self.handles[place])
    }

    /// Brings the cached status of a run up to date with its history.
    pub fn reconcile(&mut self, id: &WorkflowId, run: &RunId, history: &[Event])
        ensures
            final(self)@ == reconciled(old(self)@, *id, *run, status_of(event_views(history@))),
    {
        proof {
            use_type_invariant(&*self);
        }
        let place = self.place_of_run(id, run);
        if place < self.handles.len() {
            let status = status_from_events(history);
            let mut handles: Vec<WorkflowHandle> = Vec::new();
            core::mem::swap(&mut handles, &mut self.handles);
            let ghost before = handles@;
            handles[place].cached_status = status;
            proof {
                one_run_changes(before, handles@, place as int);
            }
            self.handles = handles;
        }
    }

    /// Records for the run at a place that a timer was started.
    pub fn record_timer_started<S: EventStore>(
        &mut self,
        place: usize,
        store: &mut S,
        recorded_at: Timestamp,
        timer_id: TimerId,
        fire_at: Timestamp,
    ) -> (outcome: Result<(), DurabilityError>)
        requires
            place < old(self)@.len(),
        ensures
            recorded_in(
                old(self)@,
                final(self)@,
                place as int,
                *old(store),
                *final(store),
                recorded_at,
                EventBody::TimerStarted { timer_id: timer_id@, fire_at },
                outcome,
            ),
            own_recorders(final(self)@),
    {
        proof {
            use_type_invariant(&*self);
        }
        let mut handles: Vec<WorkflowHandle> = Vec::new();
        core::mem::swap(&mut handles, &mut self.handles);
        let ghost before = handles@;
        let outcome = handles[place].recorder.record_timer_started(store, recorded_at, timer_id, fire_at);
        proof {
            one_run_changes(before, handles@, place as int);
        }
        self.handles = handles;
        outcome
    }

    /// Records for the run at a place that a timer fired.
    pub fn record_timer_fired<S: EventStore>(
        &mut self,
        place: usize,
        store: &mut S,
        recorded_at: Timestamp,
        timer_id: TimerId,
    ) -> (outcome: Result<(), DurabilityError>)
        requires
            place < old(self)@.len(),
        ensures
            recorded_in(
                old(self)@,
                final(self)@,
                place as int,
                *old(store),
                *final(store),
                recorded_at,
                EventBody::TimerFired { timer_id: timer_id@ },
                outcome,
            ),
            own_recorders(final(self)@),
    {
        proof {
            use_type_invariant(&*self);
        }
        let mut handles: Vec<WorkflowHandle> = Vec::new();
        core::mem::swap(&mut handles, &mut self.handles);
        let ghost before = handles@;
        let outcome = handles[place].recorder.record_timer_fired(store, recorded_at, timer_id);
        proof {
            one_run_changes(before, handles@, place as int);
        }
        self.handles = handles;
        outcome
    }

    /// Records for the run at a place that a timer was cancelled.
    pub fn record_timer_cancelled<S: EventStore>(
        &mut self,
        place: usize,
        store: &mut S,
        recorded_at: Timestamp,
        timer_id: TimerId,
    ) -> (outcome: Result<(), DurabilityError>)
        requires
            place < old(self)@.len(),
        ensures
            recorded_in(
                old(self)@,
                final(self)@,
                place as int,
                *old(store),
                *final(store),
                recorded_at,
                EventBody::TimerCancelled { timer_id: timer_id@ },
                outcome,
            ),
            own_recorders(final(self)@),
    {
        proof {
            use_type_invariant(&*self);
        }
        let mut handles: Vec<WorkflowHandle> = Vec::new();
        core::mem::swap(&mut handles, &mut self.handles);
        let ghost before = handles@;
        let outcome = handles[place].recorder.record_timer_cancelled(store, recorded_at, timer_id);
        proof {
            one_run_changes(before, handles@, place as int);
        }
        self.handles = handles;
        outcome
    }
}

/// Where the run at a place and its recorder stay with their workflow, so do all.
proof fn one_run_changes(
    before: Seq<WorkflowHandle>,
    after: Seq<WorkflowHandle>,
    place: int,
)
    requires
        own_recorders(handle_views(before)),
        0 <= place < before.len(),
        after == before.update(place, after[place]),
        after[place]@.workflow_id == before[place]@.workflow_id,
        after[place]@.recorder.workflow_id == before[place]@.recorder.workflow_id,
    ensures
        handle_views(after) == handle_views(before).update(place, after[place]@),
        own_recorders(handle_views(after)),
{
    assert(handle_views(before)[place].recorder.workflow_id
        == handle_views(before)[place].workflow_id);
    assert(handle_views(after) =~= handle_views(before).update(place, after[place]@));
}

/// Supervisors of workflow types, in the order in which they were made, and the processes under
/// them.
#[derive(Debug)]
pub struct SupervisionTree {
    supervisors: Vec<TypeSupervisor>,
}

/// Supervisor of one workflow type.
#[derive(Debug, PartialEq, Eq)]
pub struct TypeSupervisor {
    /// The workflow type.
    pub workflow_type: String,
    /// Processes under the supervisor.
    pub processes: Vec<Pid>,
}

impl View for TypeSupervisor {
    type V = (Seq<char>, Seq<Pid>);

    open spec fn view(&self) -> (Seq<char>, Seq<Pid>) {
        (self.workflow_type@, self.processes@)
    }
}

impl View for SupervisionTree {
    type V = Seq<(Seq<char>, Seq<Pid>)>;

    closed spec fn view(&self) -> Seq<(Seq<char>, Seq<Pid>)> {
        self.supervisors@.map_values(|supervisor: TypeSupervisor| supervisor@)
    }
}

/// Place of the supervisor of a type; behind the end if there is none.
pub open spec fn supervisor_place(
    tree: Seq<(Seq<char>, Seq<Pid>)>,
    workflow_type: Seq<char>,
) -> int
    decreases tree.len(),
{
    if tree.len() == 0 {
        0
    } else if tree[0].0 == workflow_type {
        0
    } else {
        1 + supervisor_place(tree.drop_first(), workflow_type)
    }
}

/// The tree with a supervisor for a type.
pub open spec fn supervised(
    tree: Seq<(Seq<char>, Seq<Pid>)>,
    workflow_type: Seq<char>,
) -> Seq<(Seq<char>, Seq<Pid>)> {
    if supervisor_place(tree, workflow_type) < tree.len() {
        tree
    } else {
        tree.push((workflow_type, Seq::empty()))
    }
}

/// The tree with one more process under the supervisor of a type.
pub open spec fn with_process(
    tree: Seq<(Seq<char>, Seq<Pid>)>,
    workflow_type: Seq<char>,
    pid: Pid,
) -> Seq<(Seq<char>, Seq<Pid>)> {
    let base = supervised(tree, workflow_type);
    let place = supervisor_place(base, workflow_type);
    base.update(place, (workflow_type, base[place].1.push(pid)))
}

proof fn supervisor_place_is(
    tree: Seq<(Seq<char>, Seq<Pid>)>,
    workflow_type: Seq<char>,
    place: int,
)
    requires
        0 <= place <= tree.len(),
        forall|i: int| 0 <= i < place ==> (#[trigger] tree[i]).0 != workflow_type,
        place < tree.len() ==> tree[place].0 == workflow_type,
    ensures
        supervisor_place(tree, workflow_type) == place,
    decreases tree.len(),
{
    if tree.len() > 0 && place > 0 {
        assert(tree[0].0 != workflow_type);
        let rest = tree.drop_first();
        assert forall|i: int| 0 <= i < place - 1 implies (#[trigger] rest[i]).0
            != workflow_type by {
            assert(tree[i + 1].0 != workflow_type);
        }
        supervisor_place_is(rest, workflow_type, place - 1);
    }
}

impl SupervisionTree {
    /// No supervisors.
    pub fn new() -> (tree: Self)
        ensures
            tree@ == Seq::<(Seq<char>, Seq<Pid>)>::empty(),
    {
        let tree = SupervisionTree { supervisors: Vec::new() };
        assert(tree@ =~= Seq::<(Seq<char>, Seq<Pid>)>::empty());
        tree
    }

    /// Number of supervisors.
    pub fn type_supervisor_count(&self) -> (count: usize)
        ensures
            count == self@.len(),
    {
        self.supervisors.len()
    }

    /// The supervisors.
    pub fn type_supervisors(&self) -> (supervisors: &Vec<TypeSupervisor>)
        ensures
            supervisors@.map_values(|supervisor: TypeSupervisor| supervisor@) == self@,
    {
        &self.supervisors
    }

    /// Makes sure that a type has a supervisor, and returns its place.
    pub fn ensure_type_supervisor(&mut self, workflow_type: &str) -> (place: usize)
        ensures
            final(self)@ == supervised(old(self)@, workflow_type@),
            place == supervisor_place(final(self)@, workflow_type@),
            place < final(self)@.len(),
    {
        let ghost before = self@;
        let mut i: usize = 0;
        while i < self.supervisors.len()
            invariant
                i <= self.supervisors.len(),
                self@ == before,
                self@.len() == self.supervisors@.len(),
                forall|j: int| 0 <= j < i ==> (#[trigger] self@[j]).0 != workflow_type@,
            decreases self.supervisors.len() - i,
        {
            if same_text(self.supervisors[i].workflow_type.as_str(), workflow_type) {
                proof {
                    supervisor_place_is(before, workflow_type@, i as int);
                }
                return i;
            }
            assert(self@[i as int].0 == self.supervisors@[i as int].workflow_type@);
            i += 1;
        }
        proof {
            supervisor_place_is(before, workflow_type@, i as int);
        }
        let fresh = TypeSupervisor {
            workflow_type: workflow_type.to_owned(),
            processes: Vec::new(),
        };
        self.supervisors.push(fresh);
        proof {
            assert(fresh@.1 =~= Seq::empty());
            assert(self@ =~= before.push((workflow_type@, Seq::empty())));
            assert forall|j: int| 0 <= j < i implies (#[trigger] self@[j]).0
                != workflow_type@ by {
                assert(self@[j] == before[j]);
            }
            supervisor_place_is(self@, workflow_type@, i as int);
        }
        i
    }

    /// Places a process under the supervisor of its type.
    pub fn place_workflow(&mut self, workflow_type: &str, pid: Pid)
        ensures
            final(self)@ == with_process(old(self)@, workflow_type@, pid),
    {
        let place = self.ensure_type_supervisor(workflow_type);
        let ghost base = self@;
        let ghost supervisors = self.supervisors@;
        self.supervisors[place].processes.push(pid);
        proof {
            supervisor_at_place(base, workflow_type@);
            assert(base[place as int] == supervisors[place as int]@);
            assert(self@ =~= base.update(
                place as int,
                (workflow_type@, base[place as int].1.push(pid)),
            ));
        }
    }
}

proof fn supervisor_at_place(tree: Seq<(Seq<char>, Seq<Pid>)>, workflow_type: Seq<char>)
    ensures
        0 <= supervisor_place(tree, workflow_type) <= tree.len(),
        supervisor_place(tree, workflow_type) < tree.len() ==> tree[supervisor_place(
            tree,
            workflow_type,
        )].0 == workflow_type,
    decreases tree.len(),
{
    if tree.len() > 0 {
        supervisor_at_place(tree.drop_first(), workflow_type);
    }
}

/// A registered run is live with the handle that was registered, and the handles of other runs stay
/// as they were and where they were. Only a run that was not live takes up another place.
pub proof fn registered_runs_are_live(handles: Seq<HandleView>, handle: HandleView, i: int)
    ensures
        ({
            let after = with_handle(handles, handle);
            let place = first_place(after, of_run(handle.workflow_id, handle.run_id));
            let known = exists|j: int|
                0 <= j < handles.len() && (#[trigger] handles[j]).workflow_id == handle.workflow_id
                    && handles[j].run_id == handle.run_id;
            &&& 0 <= place < after.len()
            &&& after[place] == handle
            &&& after.len() == handles.len() + if known {
                0int
            } else {
                1int
            }
            &&& 0 <= i < handles.len() && (handles[i].workflow_id != handle.workflow_id
                || handles[i].run_id != handle.run_id) ==> after[i] == handles[i]
        }),
{
    let wanted = of_run(handle.workflow_id, handle.run_id);
    let place = first_place(handles, wanted);
    let after = with_handle(handles, handle);
    first_place_in_range(handles, wanted);
    nothing_before_the_first_place(handles, wanted);
    if place < handles.len() {
        assert(handles[place].workflow_id == handle.workflow_id);
    }
    assert(wanted(handle));
    assert forall|j: int| 0 <= j < place implies !wanted(#[trigger] after[j]) by {
        assert(after[j] == handles[j]);
    }
    first_place_is(after, wanted, place);
}

/// Before the first place the property does not hold.
proof fn nothing_before_the_first_place(
    handles: Seq<HandleView>,
    wanted: spec_fn(HandleView) -> bool,
)
    ensures
        forall|i: int|
            0 <= i < first_place(handles, wanted) && i < handles.len() ==> !wanted(
                #[trigger] handles[i],
            ),
    decreases handles.len(),
{
    if handles.len() > 0 && !wanted(handles[0]) {
        let rest = handles.drop_first();
        nothing_before_the_first_place(rest, wanted);
        assert forall|i: int|
            0 <= i < first_place(handles, wanted) && i < handles.len() implies !wanted(
            #[trigger] handles[i],
        ) by {
            if i > 0 {
                assert(rest[i - 1] == handles[i]);
            }
        }
    }
}

/// Bringing a run up to date changes the cached status of that run's handle to the given one, and
/// nothing else of it or of any other handle.
pub proof fn reconciling_changes_one_status(
    handles: Seq<HandleView>,
    id: WorkflowId,
    run: RunId,
    status: WorkflowStatus,
    i: int,
)
    requires
        0 <= i < handles.len(),
        forall|j: int|
            0 <= j < i ==> (#[trigger] handles[j]).workflow_id != id || handles[j].run_id != run,
    ensures
        ({
            let after = reconciled(handles, id, run, status);
            &&& after.len() == handles.len()
            &&& handles[i].workflow_id == id && handles[i].run_id == run ==> after[i] == (
            HandleView { cached_status: status, ..handles[i] })
            &&& handles[i].workflow_id != id || handles[i].run_id != run ==> after[i] == handles[i]
        }),
{
    let wanted = of_run(id, run);
    first_place_in_range(handles, wanted);
    if handles[i].workflow_id == id && handles[i].run_id == run {
        first_place_is(handles, wanted, i);
    }
}

/// Resuming a run makes that run resident, and changes nothing else of it or of any other run.
pub proof fn resuming_changes_one_residency(
    handles: Seq<HandleView>,
    id: WorkflowId,
    run: RunId,
    i: int,
)
    requires
        0 <= i < handles.len(),
        forall|j: int|
            0 <= j < i ==> (#[trigger] handles[j]).workflow_id != id || handles[j].run_id != run,
    ensures
        ({
            let after = resumed(handles, id, run);
            &&& after.len() == handles.len()
            &&& handles[i].workflow_id == id && handles[i].run_id == run ==> after[i] == (
            HandleView { residency: HandleResidency::Resident, ..handles[i] })
            &&& handles[i].workflow_id != id || handles[i].run_id != run ==> after[i] == handles[i]
        }),
{
    let wanted = of_run(id, run);
    first_place_in_range(handles, wanted);
    if handles[i].workflow_id == id && handles[i].run_id == run {
        first_place_is(handles, wanted, i);
    }
}

/// A process is placed last under the supervisor of its type, which is made only where the type has
/// none; the supervisors of other types and their processes stay as they were.
pub proof fn processes_are_supervised_by_their_type(
    tree: Seq<(Seq<char>, Seq<Pid>)>,
    workflow_type: Seq<char>,
    pid: Pid,
    i: int,
)
    ensures
        ({
            let after = with_process(tree, workflow_type, pid);
            let place = supervisor_place(after, workflow_type);
            let known = exists|j: int|
                0 <= j < tree.len() && (#[trigger] tree[j]).0 == workflow_type;
            &&& 0 <= place < after.len()
            &&& after[place].0 == workflow_type
            &&& after.len() == tree.len() + if known {
                0int
            } else {
                1int
            }
            &&& place < tree.len() ==> after[place].1 == tree[place].1.push(pid)
            &&& place == tree.len() ==> after[place].1 == seq![pid]
            &&& 0 <= i < tree.len() && tree[i].0 != workflow_type ==> after[i] == tree[i]
        }),
{
    let base = supervised(tree, workflow_type);
    let place = supervisor_place(base, workflow_type);
    let after = with_process(tree, workflow_type, pid);
    supervisor_at_place(tree, workflow_type);
    nothing_before_the_supervisor(tree, workflow_type);
    let first = supervisor_place(tree, workflow_type);
    if first < tree.len() {
        assert(tree[first].0 == workflow_type);
    } else {
        assert(first == tree.len());
        assert forall|j: int| 0 <= j < first implies (#[trigger] base[j]).0 != workflow_type by {
            assert(base[j] == tree[j]);
        }
        supervisor_place_is(base, workflow_type, first);
        assert(Seq::<Pid>::empty().push(pid) =~= seq![pid]);
    }
    assert(place == first);
    assert forall|j: int| 0 <= j < first implies (#[trigger] after[j]).0 != workflow_type by {
        assert(after[j] == tree[j]);
    }
    supervisor_place_is(after, workflow_type, first);
}

/// Before the supervisor of a type stand those of other types.
proof fn nothing_before_the_supervisor(
    tree: Seq<(Seq<char>, Seq<Pid>)>,
    workflow_type: Seq<char>,
)
    ensures
        forall|i: int|
            0 <= i < supervisor_place(tree, workflow_type) && i < tree.len() ==> (
            #[trigger] tree[i]).0 != workflow_type,
    decreases tree.len(),
{
    if tree.len() > 0 && tree[0].0 != workflow_type {
        let rest = tree.drop_first();
        nothing_before_the_supervisor(rest, workflow_type);
        assert forall|i: int|
            0 <= i < supervisor_place(tree, workflow_type) && i < tree.len() implies (
        #[trigger] tree[i]).0 != workflow_type by {
            if i > 0 {
                assert(rest[i - 1] == tree[i]);
            }
        }
    }
}

/// Where a run records, only the head of its own recorder moves: every other run, and everything else of
/// that run, stays as it was.
pub proof fn recording_changes_one_recorder<S: EventStore>(
    before: Seq<HandleView>,
    after: Seq<HandleView>,
    place: int,
    store_before: S,
    store_after: S,
    recorded_at: Timestamp,
    body: EventBody,
    outcome: Result<(), DurabilityError>,
    i: int,
)
    requires
        recorded_in(before, after, place, store_before, store_after, recorded_at, body, outcome),
        0 <= place < before.len(),
        0 <= i < before.len(),
    ensures
        after.len() == before.len(),
        i != place ==> after[i] == before[i],
        after[place] == (HandleView { recorder: after[place].recorder, ..before[place] }),
        after[place].recorder.workflow_id == before[place].recorder.workflow_id,
        outcome is Ok ==> after[place].recorder.head == before[place].recorder.head + 1,
        outcome is Err ==> after[place] == before[place],
{
    crate::recorder::recorded_events_are_appended(
        before[place].recorder,
        after[place].recorder,
        store_before,
        store_after,
        recorded_at,
        body,
        outcome,
        before[place].recorder.workflow_id,
    );
}

/// A type that is to be supervised has a supervisor behind that. A supervisor is made only where there is
/// none, without processes, and every other one stays as it was and where it was.
pub proof fn supervised_types_have_a_supervisor(
    tree: Seq<(Seq<char>, Seq<Pid>)>,
    workflow_type: Seq<char>,
    i: int,
)
    ensures
        ({
            let after = supervised(tree, workflow_type);
            let known = exists|j: int|
                0 <= j < tree.len() && (#[trigger] tree[j]).0 == workflow_type;
            &&& known ==> after == tree
            &&& !known ==> after.len() == tree.len() + 1 && after.last().0 == workflow_type
                && after.last().1.len() == 0
            &&& 0 <= i < tree.len() ==> after[i] == tree[i]
        }),
{
    supervisor_at_place(tree, workflow_type);
    nothing_before_the_supervisor(tree, workflow_type);
    let place = supervisor_place(tree, workflow_type);
    if place < tree.len() {
        assert(tree[place].0 == workflow_type);
    }
}

} // verus!
