//! Assembly of the engine.

use vstd::prelude::*;
use vstd::string::*;

use crate::engine::api::{engine_outcome, Engine, EngineComponents, EngineView};
use crate::engine::gate::GateView;
use crate::engine::handles::{
    first_place, first_place_in_range, of_run, processes_are_supervised_by_their_type, reconciled,
    registered_runs_are_live, supervised, supervisor_place, with_handle, with_process, ContentHash,
    HandleResidency, HandleView, Registry, SupervisionTree, WorkflowHandle,
};
use crate::engine::schedules::{
    coordinator_run, coordinator_type, coordinator_workflow, schedule_coordinator_run_id,
    schedule_coordinator_workflow_id, schedule_coordinator_workflow_type,
};
use crate::error::{DurabilityErrorView, EngineError, EngineErrorView, StoreErrorView};
use crate::event::{event_views, Event, EventBody, EventEnvelope, EventView};
use crate::ids::{hyphenated, Pid, RunId, WorkflowId};
use crate::memory::InMemoryStore;
use crate::order::{in_order, lists};
use crate::payload::{empty_object, ContentType, Payload, PayloadView};
use crate::projection::{
    find_started, first_start_is_found, first_started, status_from_events, status_of,
};
use crate::recorder::{in_step, next_event, recorder_stays_in_step, Recorder, RecorderView};
use crate::store::{active_workflows, contiguous, failing, history_in, EventStore, StoreCall};
use crate::text::{joined, same_text};
use crate::timestamp::Timestamp;

verus! {

/// Where a workflow package comes from. `P` is the type of loaded packages.
#[derive(Debug, PartialEq, Eq)]
pub enum WorkflowPackageSource<P> {
    /// An archive at this path.
    Path(String),
    /// A package that is loaded already.
    Package(P),
}

impl<P> From<String> for WorkflowPackageSource<P> {
    fn from(path: String) -> (source: Self) {
        WorkflowPackageSource::Path(path)
    }
}

impl<P> vstd::std_specs::convert::FromSpecImpl<String> for WorkflowPackageSource<P> {
    open spec fn obeys_from_spec() -> bool {
        true
    }

    open spec fn from_spec(path: String) -> Self {
        WorkflowPackageSource::Path(path)
    }
}

/// The package of a source. `read` is what loading the archive of a path returned, with the text of
/// its error; a package that is loaded already needs none.
pub fn package_from_source<P>(
    source: WorkflowPackageSource<P>,
    read: Result<P, String>,
) -> (package: Result<P, EngineError>)
    ensures
        match source {
            WorkflowPackageSource::Package(loaded) => package == Ok::<P, EngineError>(loaded),
            WorkflowPackageSource::Path(path) => match read {
                Ok(loaded) => package == Ok::<P, EngineError>(loaded),
                Err(error) => package matches Err(e) && e@ == (EngineErrorView::Load {
                    reason: "failed to load workflow package `"@ + path@ + "`: "@ + error@,
                }),
            },
        },
{
    match source {
        WorkflowPackageSource::Package(loaded) => Ok(loaded),
        WorkflowPackageSource::Path(path) => match read {
            Ok(loaded) => Ok(loaded),
            Err(error) => {
                let mut reason = joined("failed to load workflow package `", path.as_str());
                reason.append("`: ");
                reason.append(error.as_str());
                Err(EngineError::Load { reason })
            },
        },
    }
}

/// The types that the host of an engine chooses.
pub trait EngineHost {
    /// Workflow packages that are loaded already.
    type Package;

    /// Native functions that workflow code can call.
    type NativeFunction;

    /// Readiness and retry policy of signal delivery.
    type SignalDelivery;

    /// Recovery of active workflows.
    type Recovery;

    /// Routing of signals.
    type SignalRouter;

    /// Maker of the routing of signals, for when the runtime is up.
    type SignalRouterFactory;

    /// Dispatch of queries.
    type QueryService;

    /// Publishing of live events.
    type EventPublisher;

    /// Dispatch of activities.
    type ActivityDispatcher;
}

/// How signals are routed.
#[derive(Debug, PartialEq, Eq)]
pub enum SignalRouting<R, F> {
    /// Nothing was supplied.
    Standard,
    /// By this router.
    Router(R),
    /// By a router that is made once the runtime is up.
    Made(F),
}

/// Builder for the embedded workflow engine. `S` and `V` are the stores, `H` is the host.
pub struct EngineBuilder<S, V, H: EngineHost> {
    store: Option<S>,
    visibility_store: Option<V>,
    scheduler_threads: Option<usize>,
    signal_delivery: Option<H::SignalDelivery>,
    workflow_sources: Vec<WorkflowPackageSource<H::Package>>,
    host_nifs: Vec<H::NativeFunction>,
    recovery: Option<H::Recovery>,
    signal_router: Option<H::SignalRouter>,
    signal_router_factory: Option<H::SignalRouterFactory>,
    query_service: Option<H::QueryService>,
    event_publisher: Option<H::EventPublisher>,
    activity_dispatcher: Option<H::ActivityDispatcher>,
    active_registry: Option<Registry>,
}

/// Mathematical value of an [`EngineBuilder`]. What was not supplied is absent.
pub struct BuilderView<S, V, H: EngineHost> {
    /// Event store.
    pub store: Option<S>,
    /// Visibility store.
    pub visibility_store: Option<V>,
    /// Number of scheduler threads.
    pub scheduler_threads: Option<usize>,
    /// Readiness and retry policy of signal delivery.
    pub signal_delivery: Option<H::SignalDelivery>,
    /// Packages to load, in order.
    pub workflow_sources: Seq<WorkflowPackageSource<H::Package>>,
    /// Native functions of the host, in order.
    pub host_nifs: Seq<H::NativeFunction>,
    /// Recovery of active workflows.
    pub recovery: Option<H::Recovery>,
    /// Routing of signals.
    pub signal_router: Option<H::SignalRouter>,
    /// Maker of the routing of signals.
    pub signal_router_factory: Option<H::SignalRouterFactory>,
    /// Dispatch of queries.
    pub query_service: Option<H::QueryService>,
    /// Publishing of live events.
    pub event_publisher: Option<H::EventPublisher>,
    /// Dispatch of activities.
    pub activity_dispatcher: Option<H::ActivityDispatcher>,
    /// Live runs.
    pub active_registry: Option<Seq<HandleView>>,
}

impl<S, V, H: EngineHost> View for EngineBuilder<S, V, H> {
    type V = BuilderView<S, V, H>;

    closed spec fn view(&self) -> BuilderView<S, V, H> {
        BuilderView {
            store: self.store,
            visibility_store: self.visibility_store,
            scheduler_threads: self.scheduler_threads,
            signal_delivery: self.signal_delivery,
            workflow_sources: self.workflow_sources@,
            host_nifs: self.host_nifs@,
            recovery: self.recovery,
            signal_router: self.signal_router,
            signal_router_factory: self.signal_router_factory,
            query_service: self.query_service,
            event_publisher: self.event_publisher,
            activity_dispatcher: self.activity_dispatcher,
            active_registry: match self.active_registry {
                Some(registry) => Some(registry@),
                None => None,
            },
        }
    }
}

/// A builder that was supplied with nothing.
pub open spec fn nothing_supplied<S, V, H: EngineHost>() -> BuilderView<S, V, H> {
    BuilderView {
        store: None,
        visibility_store: None,
        scheduler_threads: None,
        signal_delivery: None,
        workflow_sources: Seq::empty(),
        host_nifs: Seq::empty(),
        recovery: None,
        signal_router: None,
        signal_router_factory: None,
        query_service: None,
        event_publisher: None,
        activity_dispatcher: None,
        active_registry: None,
    }
}

/// A builder that was supplied with a router: a maker that was supplied before is dropped.
pub open spec fn with_router<S, V, H: EngineHost>(
    builder: BuilderView<S, V, H>,
    signal_router: H::SignalRouter,
) -> BuilderView<S, V, H> {
    BuilderView { signal_router: Some(signal_router), signal_router_factory: None, ..builder }
}

/// A builder that was supplied with a maker of the router.
pub open spec fn with_router_factory<S, V, H: EngineHost>(
    builder: BuilderView<S, V, H>,
    factory: H::SignalRouterFactory,
) -> BuilderView<S, V, H> {
    BuilderView { signal_router_factory: Some(factory), ..builder }
}

/// How an engine routes signals: by the maker if there is one, else by the router.
pub open spec fn routing<S, V, H: EngineHost>(builder: BuilderView<S, V, H>) -> SignalRouting<
    H::SignalRouter,
    H::SignalRouterFactory,
> {
    match (builder.signal_router_factory, builder.signal_router) {
        (Some(factory), _) => SignalRouting::Made(factory),
        (None, Some(router)) => SignalRouting::Router(router),
        (None, None) => SignalRouting::Standard,
    }
}

/// Of a router and a maker of one, what was supplied last decides how signals are routed.
pub proof fn last_routing_override_wins<S, V, H: EngineHost>(
    builder: BuilderView<S, V, H>,
    router: H::SignalRouter,
    factory: H::SignalRouterFactory,
)
    ensures
        routing(with_router(builder, router)) == SignalRouting::<
            H::SignalRouter,
            H::SignalRouterFactory,
        >::Router(router),
        routing(with_router_factory(builder, factory)) == SignalRouting::<
            H::SignalRouter,
            H::SignalRouterFactory,
        >::Made(factory),
{
}

/// What an engine is assembled from once the runtime is up. What the host did not supply is absent,
/// and has the runtime's default.
pub struct EnginePlan<S, V, H: EngineHost> {
    /// Event store.
    pub store: S,
    /// Visibility store.
    pub visibility_store: V,
    /// Number of scheduler threads.
    pub scheduler_threads: Option<usize>,
    /// Readiness and retry policy of signal delivery.
    pub signal_delivery: Option<H::SignalDelivery>,
    /// Packages to load, in order.
    pub workflow_sources: Vec<WorkflowPackageSource<H::Package>>,
    /// Native functions of the host, in order.
    pub host_nifs: Vec<H::NativeFunction>,
    /// Recovery of active workflows.
    pub recovery: Option<H::Recovery>,
    /// Routing of signals.
    pub signal_routing: SignalRouting<H::SignalRouter, H::SignalRouterFactory>,
    /// Dispatch of queries.
    pub query_service: Option<H::QueryService>,
    /// Publishing of live events.
    pub event_publisher: Option<H::EventPublisher>,
    /// Dispatch of activities.
    pub activity_dispatcher: Option<H::ActivityDispatcher>,
    /// Live runs.
    pub registry: Registry,
}

/// A plan holds what its builder was supplied with.
pub open spec fn planned<S, V, H: EngineHost>(
    builder: BuilderView<S, V, H>,
    store: S,
    visibility_store: V,
    plan: EnginePlan<S, V, H>,
) -> bool {
    &&& plan.store == store
    &&& plan.visibility_store == visibility_store
    &&& plan.scheduler_threads == builder.scheduler_threads
    &&& plan.signal_delivery == builder.signal_delivery
    &&& plan.workflow_sources@ == builder.workflow_sources
    &&& plan.host_nifs@ == builder.host_nifs
    &&& plan.recovery == builder.recovery
    &&& plan.signal_routing == routing(builder)
    &&& plan.query_service == builder.query_service
    &&& plan.event_publisher == builder.event_publisher
    &&& plan.activity_dispatcher == builder.activity_dispatcher
    &&& plan.registry@ == (match builder.active_registry {
        Some(handles) => handles,
        None => Seq::empty(),
    })
}

impl<S, V, H: EngineHost> Default for EngineBuilder<S, V, H> {
    fn default() -> (builder: Self)
        ensures
            builder@ == nothing_supplied::<S, V, H>(),
    {
        EngineBuilder::new()
    }
}

impl<S, V, H: EngineHost> EngineBuilder<S, V, H> {
    /// A builder with nothing supplied.
    pub fn new() -> (builder: Self)
        ensures
            builder@ == nothing_supplied::<S, V, H>(),
    {
        EngineBuilder {
            store: None,
            visibility_store: None,
            scheduler_threads: None,
            signal_delivery: None,
            workflow_sources: Vec::new(),
            host_nifs: Vec::new(),
            recovery: None,
            signal_router: None,
            signal_router_factory: None,
            query_service: None,
            event_publisher: None,
            activity_dispatcher: None,
            active_registry: None,
        }
    }

    /// Supplies the event store.
    pub fn store(self, store: S) -> (builder: Self)
        ensures
            builder@ == (BuilderView { store: Some(store), ..self@ }),
    {
        EngineBuilder { store: Some(store), ..self }
    }

    /// Supplies a handle to an event store that others hold too.
    pub fn store_arc(self, store: S) -> (builder: Self)
        ensures
            builder@ == (BuilderView { store: Some(store), ..self@ }),
    {
        EngineBuilder { store: Some(store), ..self }
    }

    /// Supplies the visibility store.
    pub fn visibility_store(self, visibility_store: V) -> (builder: Self)
        ensures
            builder@ == (BuilderView { visibility_store: Some(visibility_store), ..self@ }),
    {
        EngineBuilder { visibility_store: Some(visibility_store), ..self }
    }

    /// Supplies a handle to a visibility store that others hold too.
    pub fn visibility_store_arc(self, visibility_store: V) -> (builder: Self)
        ensures
            builder@ == (BuilderView { visibility_store: Some(visibility_store), ..self@ }),
    {
        EngineBuilder { visibility_store: Some(visibility_store), ..self }
    }

    /// Sets the number of scheduler threads.
    pub fn scheduler_threads(self, threads: usize) -> (builder: Self)
        ensures
            builder@ == (BuilderView { scheduler_threads: Some(threads), ..self@ }),
    {
        EngineBuilder { scheduler_threads: Some(threads), ..self }
    }

    /// The number of scheduler threads, if the caller set one.
    pub fn scheduler_thread_count(&self) -> (threads: Option<usize>)
        ensures
            threads == self@.scheduler_threads,
    {
        self.scheduler_threads
    }

    /// Sets the readiness and retry policy of signal delivery.
    pub fn signal_delivery(self, signal_delivery: H::SignalDelivery) -> (builder: Self)
        ensures
            builder@ == (BuilderView { signal_delivery: Some(signal_delivery), ..self@ }),
    {
        EngineBuilder { signal_delivery: Some(signal_delivery), ..self }
    }

    /// Adds one workflow package.
    pub fn load_workflows(self, source: WorkflowPackageSource<H::Package>) -> (builder: Self)
        ensures
            builder@ == (BuilderView {
                workflow_sources: self@.workflow_sources.push(source),
                ..self@
            }),
    {
        let mut builder = self;
        builder.workflow_sources.push(source);
        builder
    }

    /// Adds several workflow packages.
    pub fn load_workflow_sources(
        self,
        sources: Vec<WorkflowPackageSource<H::Package>>,
    ) -> (builder: Self)
        ensures
            builder@ == (BuilderView {
                workflow_sources: self@.workflow_sources + sources@,
                ..self@
            }),
    {
        let mut builder = self;
        let mut sources = sources;
        builder.workflow_sources.append(&mut sources);
        builder
    }

    /// Adds native functions of the host.
    pub fn register_nifs(self, entries: Vec<H::NativeFunction>) -> (builder: Self)
        ensures
            builder@ == (BuilderView { host_nifs: self@.host_nifs + entries@, ..self@ }),
    {
        let mut builder = self;
        let mut entries = entries;
        builder.host_nifs.append(&mut entries);
        builder
    }

    /// Supplies the recovery of active workflows.
    pub fn recovery_seam(self, recovery: H::Recovery) -> (builder: Self)
        ensures
            builder@ == (BuilderView { recovery: Some(recovery), ..self@ }),
    {
        EngineBuilder { recovery: Some(recovery), ..self }
    }

    /// Supplies the routing of signals, in place of a maker that was supplied before.
    pub fn signal_router(self, signal_router: H::SignalRouter) -> (builder: Self)
        ensures
            builder@ == with_router(self@, signal_router),
    {
        EngineBuilder { signal_router: Some(signal_router), signal_router_factory: None, ..self }
    }

    /// Supplies a maker of the routing of signals, which comes before a router.
    pub fn signal_router_factory(self, factory: H::SignalRouterFactory) -> (builder: Self)
        ensures
            builder@ == with_router_factory(self@, factory),
    {
        EngineBuilder { signal_router_factory: Some(factory), ..self }
    }

    /// Supplies the dispatch of queries.
    pub fn query_service(self, query_service: H::QueryService) -> (builder: Self)
        ensures
            builder@ == (BuilderView { query_service: Some(query_service), ..self@ }),
    {
        EngineBuilder { query_service: Some(query_service), ..self }
    }

    /// Supplies the publishing of live events.
    pub fn event_publisher(self, event_publisher: H::EventPublisher) -> (builder: Self)
        ensures
            builder@ == (BuilderView { event_publisher: Some(event_publisher), ..self@ }),
    {
        EngineBuilder { event_publisher: Some(event_publisher), ..self }
    }

    /// Supplies the dispatch of activities. Without one, workflow code that runs an activity gets an
    /// error.
    pub fn activity_dispatcher(self, dispatcher: H::ActivityDispatcher) -> (builder: Self)
        ensures
            builder@ == (BuilderView { activity_dispatcher: Some(dispatcher), ..self@ }),
    {
        EngineBuilder { activity_dispatcher: Some(dispatcher), ..self }
    }

    /// Supplies the registry of live runs.
    pub fn active_registry(self, registry: Registry) -> (builder: Self)
        ensures
            builder@ == (BuilderView { active_registry: Some(registry@), ..self@ }),
    {
        EngineBuilder { active_registry: Some(registry), ..self }
    }

    /// The plan of the engine. Both stores have to be supplied; the event store is missed first.
    pub fn build(self) -> (plan: Result<EnginePlan<S, V, H>, EngineError>)
        ensures
            match (self@.store, self@.visibility_store) {
                (None, _) => plan == Err::<EnginePlan<S, V, H>, EngineError>(
                    EngineError::MissingStore,
                ),
                (Some(_), None) => plan == Err::<EnginePlan<S, V, H>, EngineError>(
                    EngineError::MissingVisibilityStore,
                ),
                (Some(store), Some(visibility_store)) => plan matches Ok(p) && planned(
                    self@,
                    store,
                    visibility_store,
                    p,
                ),
            },
    {
        let store = match self.store {
            Some(store) => store,
            None => {
                return Err(EngineError::MissingStore);
            },
        };
        let visibility_store = match self.visibility_store {
            Some(visibility_store) => visibility_store,
            None => {
                return Err(EngineError::MissingVisibilityStore);
            },
        };
        let registry = match self.active_registry {
            Some(registry) => registry,
            None => Registry::new(),
        };
        let signal_routing = match self.signal_router_factory {
            Some(factory) => SignalRouting::Made(factory),
            None => match self.signal_router {
                Some(router) => SignalRouting::Router(router),
                None => SignalRouting::Standard,
            },
        };
        Ok(
            EnginePlan {
                store,
                visibility_store,
                scheduler_threads: self.scheduler_threads,
                signal_delivery: self.signal_delivery,
                workflow_sources: self.workflow_sources,
                host_nifs: self.host_nifs,
                recovery: self.recovery,
                signal_routing,
                query_service: self.query_service,
                event_publisher: self.event_publisher,
                activity_dispatcher: self.activity_dispatcher,
                registry,
            },
        )
    }
}

impl<S, H: EngineHost> EngineBuilder<S, InMemoryStore, H> {
    /// Supplies a visibility store that is kept in memory and lost with the process.
    pub fn in_memory_visibility(self) -> (builder: Self)
        ensures
            builder@.visibility_store matches Some(rows) && rows.kept_rows() == Map::<
                (WorkflowId, RunId),
                crate::visibility::VisibilityView,
            >::empty(),
            builder@ == (BuilderView { visibility_store: builder@.visibility_store, ..self@ }),
    {
        EngineBuilder { visibility_store: Some(InMemoryStore::new()), ..self }
    }
}

/// The event that starts the schedule coordinator.
pub open spec fn coordinator_started(now: Timestamp) -> EventView {
    EventView {
        envelope: EventEnvelope { seq: 1, recorded_at: now, workflow_id: coordinator_workflow() },
        body: EventBody::WorkflowStarted {
            workflow_type: coordinator_type(),
            input: PayloadView { content_type: ContentType::Json, bytes: empty_object() },
            run_id: coordinator_run(),
            parent_run_id: None,
        },
    }
}

/// The histories with one of the schedule coordinator: it is started, unless it was before.
pub open spec fn bootstrapped(
    histories: Map<WorkflowId, Seq<EventView>>,
    now: Timestamp,
) -> Map<WorkflowId, Seq<EventView>> {
    if history_in(histories, coordinator_workflow()).len() > 0 {
        histories
    } else {
        histories.insert(coordinator_workflow(), seq![coordinator_started(now)])
    }
}

/// What comes of starting the schedule coordinator: its history cannot be read, has begun, or cannot
/// be begun, or it is started.
pub open spec fn bootstrap_outcome(
    histories: Map<WorkflowId, Seq<EventView>>,
    failures: Map<StoreCall, StoreErrorView>,
    now: Timestamp,
) -> Result<(), EngineErrorView> {
    match failing(failures, StoreCall::ReadHistory { workflow_id: coordinator_workflow() }) {
        Some(error) => Err(EngineErrorView::Store(error)),
        None => if history_in(histories, coordinator_workflow()).len() > 0 {
            Ok(())
        } else {
            match failing(
                failures,
                StoreCall::Append {
                    workflow_id: coordinator_workflow(),
                    events: seq![coordinator_started(now)],
                    expected_seq: 0,
                },
            ) {
                Some(error) => Err(EngineErrorView::Durability(DurabilityErrorView::Store(error))),
                None => Ok(()),
            }
        },
    }
}

/// Starts the schedule coordinator, unless its history has begun.
pub fn bootstrap_schedule_coordinator<S: EventStore>(store: &mut S, now: Timestamp) -> (outcome:
    Result<(), EngineError>)
    ensures
        engine_outcome(outcome) == bootstrap_outcome(
            old(store).histories(),
            old(store).failures(),
            now,
        ),
        final(store).histories() == (if outcome is Ok {
            bootstrapped(old(store).histories(), now)
        } else {
            old(store).histories()
        }),
        final(store).timers() == old(store).timers(),
        final(store).failures() == old(store).failures(),
{
    let workflow_id = schedule_coordinator_workflow_id();
    let history = match store.read_history(&workflow_id) {
        Ok(history) => history,
        Err(error) => {
            return Err(EngineError::Store(error));
        },
    };
    if history.len() > 0 {
        return Ok(());
    }
    let fields: Vec<(String, String)> = Vec::new();
    let input = match Payload::from_json(&fields) {
        Ok(input) => input,
        Err(error) => {
            return Err(
                EngineError::Load {
                    reason: joined(
                        "failed to build schedule coordinator input payload: ",
                        error.as_str(),
                    ),
                },
            );
        },
    };
    let mut recorder = Recorder::new(workflow_id);
    let ghost histories = store.histories();
    let ghost body = coordinator_started(now).body;
    proof {
        assert(history_in(histories, workflow_id) =~= Seq::empty());
        recorder_stays_in_step(recorder@, histories, now, body);
        assert(next_event(recorder@, now, body) == coordinator_started(now));
        assert(Seq::empty() + seq![coordinator_started(now)] =~= seq![coordinator_started(now)]);
    }
    match recorder.append_workflow_started(
        store,
        now,
        schedule_coordinator_workflow_type().to_owned(),
        input,
        schedule_coordinator_run_id(),
        None,
    ) {
        Ok(()) => Ok(()),
        Err(error) => Err(EngineError::Durability(error)),
    }
}

/// The workflow type that a history started with; the schedule coordinator needs none.
pub open spec fn started_type(workflow_id: WorkflowId, history: Seq<EventView>) -> Result<
    Seq<char>,
    EngineErrorView,
> {
    match first_started(history) {
        Some(event) => Ok(event.body->WorkflowStarted_workflow_type),
        None => if workflow_id == coordinator_workflow() {
            Ok(coordinator_type())
        } else {
            Err(
                EngineErrorView::Load {
                    reason: "active workflow `"@ + hyphenated(workflow_id.value)
                        + "` has no WorkflowStarted event in durable history"@,
                },
            )
        },
    }
}

/// The workflow type that a history started with.
pub fn started_workflow_type(workflow_id: &WorkflowId, history: &[Event]) -> (workflow_type: Result<
    String,
    EngineError,
>)
    ensures
        match started_type(*workflow_id, event_views(history@)) {
            Ok(view) => workflow_type matches Ok(t) && t@ == view,
            Err(error) => workflow_type matches Err(e) && e@ == error,
        },
{
    match find_started(history) {
        Some(Event::WorkflowStarted { workflow_type, .. }) => {
            return Ok(workflow_type.clone());
        },
        _ => {},
    }
    if *workflow_id == schedule_coordinator_workflow_id() {
        return Ok(schedule_coordinator_workflow_type().to_owned());
    }
    let mut reason = joined("active workflow `", workflow_id.to_string().as_str());
    reason.append("` has no WorkflowStarted event in durable history");
    Err(EngineError::Load { reason })
}

/// The run that a history started with; the schedule coordinator needs none.
pub open spec fn started_run(workflow_id: WorkflowId, history: Seq<EventView>) -> Result<
    RunId,
    EngineErrorView,
> {
    match first_started(history) {
        Some(event) => Ok(event.body->WorkflowStarted_run_id),
        None => if workflow_id == coordinator_workflow() {
            Ok(coordinator_run())
        } else {
            Err(
                EngineErrorView::Load {
                    reason: "active workflow `"@ + hyphenated(workflow_id.value)
                        + "` has no WorkflowStarted run id in durable history"@,
                },
            )
        },
    }
}

/// The run that a history started with.
pub fn started_run_id(workflow_id: &WorkflowId, history: &[Event]) -> (run_id: Result<
    RunId,
    EngineError,
>)
    ensures
        match started_run(*workflow_id, event_views(history@)) {
            Ok(run) => run_id == Ok::<RunId, EngineError>(run),
            Err(error) => run_id matches Err(e) && e@ == error,
        },
{
    match find_started(history) {
        Some(Event::WorkflowStarted { run_id, .. }) => {
            return Ok(*run_id);
        },
        _ => {},
    }
    if *workflow_id == schedule_coordinator_workflow_id() {
        return Ok(schedule_coordinator_run_id());
    }
    let mut reason = joined("active workflow `", workflow_id.to_string().as_str());
    reason.append("` has no WorkflowStarted run id in durable history");
    Err(EngineError::Load { reason })
}

/// How an active workflow was recovered.
#[derive(Clone, Copy, Debug)]
pub enum ActiveWorkflowRecovery {
    /// Its process runs again.
    Resident {
        /// The run.
        run_id: RunId,
        /// Package version that it runs from.
        loaded_version: ContentHash,
        /// Its process.
        pid: Pid,
    },
    /// It is the schedule coordinator, which has no process.
    ScheduleCoordinator {
        /// The run.
        run_id: RunId,
    },
}

/// What recovers active workflows. `L` is the type of the loaded packages.
pub trait ActiveWorkflowRecoverySeam<L> {
    /// What may come back for a workflow of the given type and history: anything, unless an
    /// implementation says so.
    open spec fn may_recover(
        &self,
        workflow_id: WorkflowId,
        workflow_type: Seq<char>,
        history: Seq<EventView>,
        loaded_workflows: &L,
        recovered: Result<ActiveWorkflowRecovery, EngineErrorView>,
    ) -> bool {
        true
    }

    /// Recovers one active workflow from its history.
    fn recover_active_workflow(
        &self,
        workflow_id: &WorkflowId,
        workflow_type: &str,
        history: &[Event],
        loaded_workflows: &L,
    ) -> (recovered: Result<ActiveWorkflowRecovery, EngineError>)
        ensures
            self.may_recover(
                *workflow_id,
                workflow_type@,
                event_views(history@),
                loaded_workflows,
                reply_view(recovered),
            ),
    ;
}

/// The workflow is the schedule coordinator.
pub open spec fn is_coordinator(workflow_id: WorkflowId, workflow_type: Seq<char>) -> bool {
    workflow_id == coordinator_workflow() && workflow_type == coordinator_type()
}

/// Recovers one active workflow: the schedule coordinator from its history alone, any other through
/// the seam.
pub fn recover_active_workflow<L, R: ActiveWorkflowRecoverySeam<L>>(
    recovery: &R,
    workflow_id: &WorkflowId,
    workflow_type: &str,
    history: &[Event],
    loaded_workflows: &L,
) -> (recovered: Result<ActiveWorkflowRecovery, EngineError>)
    ensures
        is_coordinator(*workflow_id, workflow_type@) ==> (match started_run(
            *workflow_id,
            event_views(history@),
        ) {
            Ok(run_id) => recovered == Ok::<ActiveWorkflowRecovery, EngineError>(
                ActiveWorkflowRecovery::ScheduleCoordinator { run_id },
            ),
            Err(error) => recovered matches Err(e) && e@ == error,
        }),
        !is_coordinator(*workflow_id, workflow_type@) ==> recovery.may_recover(
            *workflow_id,
            workflow_type@,
            event_views(history@),
            loaded_workflows,
            reply_view(recovered),
        ),
{
    if *workflow_id == schedule_coordinator_workflow_id() && same_text(
        workflow_type,
        schedule_coordinator_workflow_type(),
    ) {
        return match started_run_id(workflow_id, history) {
            Ok(run_id) => Ok(ActiveWorkflowRecovery::ScheduleCoordinator { run_id }),
            Err(error) => Err(error),
        };
    }
    recovery.recover_active_workflow(workflow_id, workflow_type, history, loaded_workflows)
}

/// Live runs and supervisors while active workflows are recovered.
pub struct RecoveryView {
    /// Live runs.
    pub handles: Seq<HandleView>,
    /// Supervisors of workflow types.
    pub supervisors: Seq<(Seq<char>, Seq<Pid>)>,
}

/// The live run of a recovered workflow: its recorder goes on behind the stored history.
pub open spec fn recovered_handle(
    workflow_id: WorkflowId,
    workflow_type: Seq<char>,
    history: Seq<EventView>,
    run_id: RunId,
    loaded_version: ContentHash,
    pid: Pid,
) -> HandleView {
    HandleView {
        workflow_id,
        run_id,
        pid,
        workflow_type,
        loaded_version,
        cached_status: status_of(history),
        residency: HandleResidency::Resident,
        recorder: RecorderView { workflow_id, head: history.len() as u64, run: Some(run_id) },
    }
}

/// Registering a recovered workflow.
pub open spec fn registered(
    state: RecoveryView,
    workflow_id: WorkflowId,
    workflow_type: Seq<char>,
    history: Seq<EventView>,
    recovered: ActiveWorkflowRecovery,
) -> RecoveryView {
    match recovered {
        ActiveWorkflowRecovery::Resident { run_id, loaded_version, pid } => RecoveryView {
            handles: reconciled(
                with_handle(
                    state.handles,
                    recovered_handle(
                        workflow_id,
                        workflow_type,
                        history,
                        run_id,
                        loaded_version,
                        pid,
                    ),
                ),
                workflow_id,
                run_id,
                status_of(history),
            ),
            supervisors: with_process(state.supervisors, workflow_type, pid),
        },
        ActiveWorkflowRecovery::ScheduleCoordinator { run_id } => RecoveryView {
            handles: reconciled(state.handles, workflow_id, run_id, status_of(history)),
            supervisors: state.supervisors,
        },
    }
}

/// Registers a recovered workflow: its run goes live behind the stored history, and its process
/// under the supervisor of its type.
pub fn register_recovered(
    registry: &mut Registry,
    supervision: &mut SupervisionTree,
    workflow_id: &WorkflowId,
    workflow_type: &str,
    history: &[Event],
    recovered: ActiveWorkflowRecovery,
)
    ensures
        (RecoveryView { handles: final(registry)@, supervisors: final(supervision)@ })
            == registered(
            RecoveryView { handles: old(registry)@, supervisors: old(supervision)@ },
            *workflow_id,
            workflow_type@,
            event_views(history@),
            recovered,
        ),
{
    match recovered {
        ActiveWorkflowRecovery::Resident { run_id, loaded_version, pid } => {
            let recorder = Recorder::resume_at(*workflow_id, history.len() as u64).with_visibility(
                run_id,
            );
            let handle = WorkflowHandle {
                workflow_id: *workflow_id,
                run_id,
                pid,
                workflow_type: workflow_type.to_owned(),
                loaded_version,
                cached_status: status_from_events(history),
                residency: HandleResidency::Resident,
                recorder,
            };
            registry.insert(handle);
            registry.reconcile(workflow_id, &run_id, history);
            supervision.place_workflow(workflow_type, pid);
        },
        ActiveWorkflowRecovery::ScheduleCoordinator { run_id } => {
            registry.reconcile(workflow_id, &run_id, history);
        },
    }
}

/// Mathematical value of what came back for a workflow.
pub open spec fn reply_view(recovered: Result<ActiveWorkflowRecovery, EngineError>) -> Result<
    ActiveWorkflowRecovery,
    EngineErrorView,
> {
    match recovered {
        Ok(found) => Ok(found),
        Err(error) => Err(error@),
    }
}

/// Recovering one active workflow, given what came back for it.
pub open spec fn recovery_step(
    state: RecoveryView,
    workflow_id: WorkflowId,
    history: Result<Seq<EventView>, StoreErrorView>,
    recovered: Result<ActiveWorkflowRecovery, EngineErrorView>,
) -> (RecoveryView, Result<(), EngineErrorView>) {
    match history {
        Err(error) => (state, Err(EngineErrorView::Store(error))),
        Ok(history) => match started_type(workflow_id, history) {
            Err(error) => (state, Err(error)),
            Ok(workflow_type) => {
                let supervised_state = RecoveryView {
                    supervisors: supervised(state.supervisors, workflow_type),
                    ..state
                };
                let outcome = if is_coordinator(workflow_id, workflow_type) {
                    match started_run(workflow_id, history) {
                        Ok(run_id) => Ok(ActiveWorkflowRecovery::ScheduleCoordinator { run_id }),
                        Err(error) => Err(error),
                    }
                } else {
                    recovered
                };
                match outcome {
                    Err(error) => (supervised_state, Err(error)),
                    Ok(found) => (
                        registered(supervised_state, workflow_id, workflow_type, history, found),
                        Ok(()),
                    ),
                }
            },
        },
    }
}

/// What reading a history returns.
pub open spec fn history_read(
    histories: Map<WorkflowId, Seq<EventView>>,
    failures: Map<StoreCall, StoreErrorView>,
    workflow_id: WorkflowId,
) -> Result<Seq<EventView>, StoreErrorView> {
    match failing(failures, StoreCall::ReadHistory { workflow_id }) {
        Some(error) => Err(error),
        None => Ok(history_in(histories, workflow_id)),
    }
}

/// Recovering active workflows one after the other, up to the first failure, given what came back
/// for each.
pub open spec fn recovered_all(
    state: RecoveryView,
    ids: Seq<WorkflowId>,
    histories: Map<WorkflowId, Seq<EventView>>,
    failures: Map<StoreCall, StoreErrorView>,
    replies: Seq<Result<ActiveWorkflowRecovery, EngineErrorView>>,
) -> (RecoveryView, Result<(), EngineErrorView>)
    decreases ids.len(),
{
    if ids.len() == 0 {
        (state, Ok(()))
    } else {
        let (earlier, outcome) = recovered_all(state, ids.drop_last(), histories, failures, replies);
        match outcome {
            Err(error) => (earlier, Err(error)),
            Ok(()) => recovery_step(
                earlier,
                ids.last(),
                history_read(histories, failures, ids.last()),
                replies[ids.len() - 1],
            ),
        }
    }
}

/// A recovery that fails goes no further.
proof fn recovery_stops(
    state: RecoveryView,
    ids: Seq<WorkflowId>,
    histories: Map<WorkflowId, Seq<EventView>>,
    failures: Map<StoreCall, StoreErrorView>,
    replies: Seq<Result<ActiveWorkflowRecovery, EngineErrorView>>,
    done: int,
)
    requires
        0 <= done <= ids.len(),
        recovered_all(state, ids.take(done), histories, failures, replies).1 is Err,
    ensures
        recovered_all(state, ids, histories, failures, replies) == recovered_all(
            state,
            ids.take(done),
            histories,
            failures,
            replies,
        ),
    decreases ids.len(),
{
    if done < ids.len() {
        assert(ids.drop_last().take(done) =~= ids.take(done));
        recovery_stops(state, ids.drop_last(), histories, failures, replies, done);
    } else {
        assert(ids.take(done) =~= ids);
    }
}

/// What came back for later workflows does not matter for earlier ones.
proof fn later_replies_do_not_matter(
    state: RecoveryView,
    ids: Seq<WorkflowId>,
    histories: Map<WorkflowId, Seq<EventView>>,
    failures: Map<StoreCall, StoreErrorView>,
    replies: Seq<Result<ActiveWorkflowRecovery, EngineErrorView>>,
    next: Result<ActiveWorkflowRecovery, EngineErrorView>,
)
    requires
        ids.len() <= replies.len(),
    ensures
        recovered_all(state, ids, histories, failures, replies.push(next)) == recovered_all(
            state,
            ids,
            histories,
            failures,
            replies,
        ),
    decreases ids.len(),
{
    if ids.len() > 0 {
        later_replies_do_not_matter(state, ids.drop_last(), histories, failures, replies, next);
        assert(replies.push(next)[ids.len() - 1] == replies[ids.len() - 1]);
    }
}

/// Every reply is one that the seam may give for the workflow in its place, with the type and the
/// history that are stored for it. Only the schedule coordinator is recovered without asking.
pub open spec fn answered<L, R: ActiveWorkflowRecoverySeam<L>>(
    recovery: &R,
    loaded_workflows: &L,
    ids: Seq<WorkflowId>,
    histories: Map<WorkflowId, Seq<EventView>>,
    failures: Map<StoreCall, StoreErrorView>,
    replies: Seq<Result<ActiveWorkflowRecovery, EngineErrorView>>,
) -> bool {
    forall|i: int|
        0 <= i < ids.len() && i < replies.len() && history_read(
            histories,
            failures,
            ids[i],
        ) is Ok ==> (match started_type(ids[i], history_in(histories, ids[i])) {
            Ok(workflow_type) => is_coordinator(ids[i], workflow_type) || recovery.may_recover(
                ids[i],
                workflow_type,
                history_in(histories, ids[i]),
                loaded_workflows,
                #[trigger] replies[i],
            ),
            Err(_) => true,
        })
}

/// Active workflows were recovered in order, with what the seam gave back for each, up to the first
/// failure.
pub open spec fn repopulated<L, R: ActiveWorkflowRecoverySeam<L>>(
    recovery: &R,
    loaded_workflows: &L,
    before: RecoveryView,
    after: RecoveryView,
    histories: Map<WorkflowId, Seq<EventView>>,
    failures: Map<StoreCall, StoreErrorView>,
    outcome: Result<(), EngineErrorView>,
) -> bool {
    exists|ids: Seq<WorkflowId>, replies: Seq<Result<ActiveWorkflowRecovery, EngineErrorView>>|
        #![trigger recovered_all(before, ids, histories, failures, replies)]
        {
            &&& lists(ids, active_workflows(histories))
            &&& in_order(ids)
            &&& answered(recovery, loaded_workflows, ids, histories, failures, replies)
            &&& replies.len() == ids.len() || (replies.len() < ids.len() && recovered_all(
                before,
                ids.take(replies.len() as int),
                histories,
                failures,
                replies,
            ).1 is Err)
            &&& (after, outcome) == recovered_all(before, ids, histories, failures, replies)
        }
}

/// Recovers the active workflows of a store, in order, up to the first failure.
pub fn repopulate_active_workflows<S: EventStore, L, R: ActiveWorkflowRecoverySeam<L>>(
    store: &S,
    loaded_workflows: &L,
    registry: &mut Registry,
    supervision: &mut SupervisionTree,
    recovery: &R,
) -> (outcome: Result<(), EngineError>)
    ensures
        match failing(store.failures(), StoreCall::ListActive) {
            Some(error) => outcome matches Err(e) && e@ == EngineErrorView::Store(error)
                && final(registry)@ == old(registry)@ && final(supervision)@ == old(supervision)@,
            None => repopulated(
                recovery,
                loaded_workflows,
                RecoveryView { handles: old(registry)@, supervisors: old(supervision)@ },
                RecoveryView { handles: final(registry)@, supervisors: final(supervision)@ },
                store.histories(),
                store.failures(),
                engine_outcome(outcome),
            ),
        },
{
    let ghost before = RecoveryView { handles: registry@, supervisors: supervision@ };
    let ghost histories = store.histories();
    let ghost failures = store.failures();
    let active = match store.list_active() {
        Ok(active) => active,
        Err(error) => {
            return Err(EngineError::Store(error));
        },
    };
    let ghost mut replies: Seq<Result<ActiveWorkflowRecovery, EngineErrorView>> = Seq::empty();
    let mut i: usize = 0;
    proof {
        assert(active@.take(0) =~= Seq::empty());
    }
    while i < active.len()
        invariant
            i <= active.len(),
            before == (RecoveryView { handles: old(registry)@, supervisors: old(supervision)@ }),
            histories == store.histories(),
            failures == store.failures(),
            failing(failures, StoreCall::ListActive) is None,
            lists(active@, active_workflows(histories)),
            in_order(active@),
            replies.len() == i,
            answered(recovery, loaded_workflows, active@, histories, failures, replies),
            recovered_all(before, active@.take(i as int), histories, failures, replies) == (
                RecoveryView { handles: registry@, supervisors: supervision@ },
                Ok::<(), EngineErrorView>(()),
            ),
        decreases active.len() - i,
    {
        let workflow_id = active[i];
        let ghost state = RecoveryView { handles: registry@, supervisors: supervision@ };
        let ghost history_view = history_in(histories, workflow_id);
        proof {
            assert(active@.take(i + 1).drop_last() =~= active@.take(i as int));
            assert(active@.take(i + 1).last() == workflow_id);
        }
        let history = match store.read_history(&workflow_id) {
            Ok(history) => history,
            Err(error) => {
                proof {
                    let reply = Err::<ActiveWorkflowRecovery, EngineErrorView>(EngineErrorView::Store(error@));
                    later_replies_do_not_matter(
                        before,
                        active@.take(i as int),
                        histories,
                        failures,
                        replies,
                        reply,
                    );
                    recovery_stops(before, active@, histories, failures, replies.push(reply), i + 1);
                    assert(answered(
                        recovery,
                        loaded_workflows,
                        active@,
                        histories,
                        failures,
                        replies.push(reply),
                    ));
                }
                return Err(EngineError::Store(error));
            },
        };
        let workflow_type = match started_workflow_type(&workflow_id, history.as_slice()) {
            Ok(workflow_type) => workflow_type,
            Err(error) => {
                proof {
                    let reply = Err::<ActiveWorkflowRecovery, EngineErrorView>(error@);
                    later_replies_do_not_matter(
                        before,
                        active@.take(i as int),
                        histories,
                        failures,
                        replies,
                        reply,
                    );
                    recovery_stops(before, active@, histories, failures, replies.push(reply), i + 1);
                    assert(answered(
                        recovery,
                        loaded_workflows,
                        active@,
                        histories,
                        failures,
                        replies.push(reply),
                    ));
                }
                return Err(error);
            },
        };
        let _ = supervision.ensure_type_supervisor(workflow_type.as_str());
        let recovered = recover_active_workflow(
            recovery,
            &workflow_id,
            workflow_type.as_str(),
            history.as_slice(),
            loaded_workflows,
        );
        let ghost reply = reply_view(recovered);
        proof {
            later_replies_do_not_matter(
                before,
                active@.take(i as int),
                histories,
                failures,
                replies,
                reply,
            );
            assert(answered(
                recovery,
                loaded_workflows,
                active@,
                histories,
                failures,
                replies.push(reply),
            ));
        }
        match recovered {
            Ok(found) => {
                register_recovered(
                    registry,
                    supervision,
                    &workflow_id,
                    workflow_type.as_str(),
                    history.as_slice(),
                    found,
                );
            },
            Err(error) => {
                proof {
                    recovery_stops(before, active@, histories, failures, replies.push(reply), i + 1);
                }
                return Err(error);
            },
        }
        proof {
            replies = replies.push(reply);
        }
        i += 1;
    }
    proof {
        assert(active@.take(i as int) =~= active@);
        assert(recovered_all(before, active@, histories, failures, replies).1 is Ok);
    }
    Ok(())
}

/// An engine was assembled over the histories with the schedule coordinator's: the active workflows
/// are live, and the writer of the coordinator's history goes on behind what is stored.
pub open spec fn assembled<S: EventStore, V, L, R: ActiveWorkflowRecoverySeam<L>>(
    recovery: &R,
    loaded_workflows: &L,
    before: EnginePlanView<S, V>,
    now: Timestamp,
    engine: Result<EngineView<S, V, L>, EngineErrorView>,
) -> bool {
    let histories = bootstrapped(before.store.histories(), now);
    exists|after: RecoveryView, outcome: Result<(), EngineErrorView>| #[trigger]
        repopulated(
            recovery,
            loaded_workflows,
            RecoveryView { handles: before.handles, supervisors: Seq::empty() },
            after,
            histories,
            before.store.failures(),
            outcome,
        ) && match outcome {
            Err(error) => engine == Err::<EngineView<S, V, L>, EngineErrorView>(error),
            Ok(()) => {
                &&& engine matches Ok(view) && view.store.histories() == histories
                    && view.store.timers() == before.store.timers()
                    && view.store.failures() == before.store.failures()
                    && view.visibility_store == before.visibility_store && view.loaded_workflows
                    == *loaded_workflows && view.handles
                    == after.handles && view.supervisors == after.supervisors
                    && view.schedules == Map::<
                    crate::ids::ScheduleId,
                    crate::engine::schedules::ScheduleStateView,
                >::empty() && view.gate == (GateView { shutting_down: false, active: 0 })
                    && view.recorder == (RecorderView {
                    workflow_id: coordinator_workflow(),
                    head: history_in(histories, coordinator_workflow()).len() as u64,
                    run: None,
                })
            },
        }
}

/// The parts of a plan that assembling an engine depends on.
pub struct EnginePlanView<S, V> {
    /// Event store.
    pub store: S,
    /// Visibility store.
    pub visibility_store: V,
    /// Live runs.
    pub handles: Seq<HandleView>,
}

/// Mathematical value of what assembling returns.
pub open spec fn assembly_view<S: EventStore, V, L>(
    engine: Result<Engine<S, V, L>, EngineError>,
) -> Result<EngineView<S, V, L>, EngineErrorView> {
    match engine {
        Ok(engine) => Ok(engine@),
        Err(error) => Err(error@),
    }
}

impl<S: EventStore, V, H: EngineHost> EnginePlan<S, V, H> {
    /// Assembles the engine: the schedule coordinator is started if it was not, the active workflows
    /// are recovered, and the coordinator's writer is brought in step. The coordinator's history is
    /// read twice, and a store that fails only the second reading fails the assembly too; the contract
    /// leaves it out, as it speaks of stores that fail the same requests throughout.
    pub fn assemble<L, R: ActiveWorkflowRecoverySeam<L>>(
        self,
        now: Timestamp,
        loaded_workflows: L,
        recovery: &R,
    ) -> (engine: Result<Engine<S, V, L>, EngineError>)
        ensures
            match bootstrap_outcome(self.store.histories(), self.store.failures(), now) {
                Err(error) => assembly_view(engine) == Err::<
                    EngineView<S, V, L>,
                    EngineErrorView,
                >(error),
                Ok(()) => match failing(self.store.failures(), StoreCall::ListActive) {
                    Some(error) => assembly_view(engine) == Err::<
                        EngineView<S, V, L>,
                        EngineErrorView,
                    >(EngineErrorView::Store(error)),
                    None => assembled(
                        recovery,
                        &loaded_workflows,
                        EnginePlanView {
                            store: self.store,
                            visibility_store: self.visibility_store,
                            handles: self.registry@,
                        },
                        now,
                        assembly_view(engine),
                    ),
                },
            },
    {
        let mut store = self.store;
        let mut registry = self.registry;
        match bootstrap_schedule_coordinator(&mut store, now) {
            Ok(()) => {},
            Err(error) => {
                return Err(error);
            },
        }
        let ghost histories = store.histories();
        let mut supervision = SupervisionTree::new();
        let ghost before = RecoveryView { handles: registry@, supervisors: Seq::empty() };
        let recovered = repopulate_active_workflows(
            &store,
            &loaded_workflows,
            &mut registry,
            &mut supervision,
            recovery,
        );
        let ghost after = RecoveryView { handles: registry@, supervisors: supervision@ };
        assert(failing(store.failures(), StoreCall::ListActive) is None ==> repopulated(
            recovery,
            &loaded_workflows,
            before,
            after,
            histories,
            store.failures(),
            engine_outcome(recovered),
        ));
        match recovered {
            Ok(()) => {},
            Err(error) => {
                return Err(error);
            },
        }
        let mut engine = Engine::new(
            EngineComponents {
                store,
                visibility_store: self.visibility_store,
                loaded_workflows,
                registry,
                supervision,
            },
        );
        match engine.catchup_schedule_coordinator() {
            Ok(()) => Ok(engine),
            Err(error) => Err(error),
        }
    }
}

/// Starting the schedule coordinator again changes nothing: a rebuilt engine finds its history as it
/// was left.
pub proof fn bootstrapping_is_idempotent(
    histories: Map<WorkflowId, Seq<EventView>>,
    now: Timestamp,
    later: Timestamp,
)
    ensures
        bootstrapped(bootstrapped(histories, now), later) == bootstrapped(histories, now),
        history_in(bootstrapped(histories, now), coordinator_workflow()).len() > 0,
{
}

/// In an empty store the schedule coordinator is the only active workflow.
pub proof fn empty_store_has_only_the_coordinator(now: Timestamp, id: WorkflowId)
    ensures
        active_workflows(bootstrapped(Map::empty(), now)).contains_key(id) <==> id
            == coordinator_workflow(),
{
    let histories = bootstrapped(Map::empty(), now);
    assert(histories[coordinator_workflow()].last() == coordinator_started(now));
}

/// A workflow that was recovered is live with a recorder that is in step with its stored history.
pub proof fn recovered_recorder_is_in_step(
    histories: Map<WorkflowId, Seq<EventView>>,
    workflow_id: WorkflowId,
    workflow_type: Seq<char>,
    run_id: RunId,
    loaded_version: ContentHash,
    pid: Pid,
)
    requires
        contiguous(history_in(histories, workflow_id), 0),
        history_in(histories, workflow_id).len() <= u64::MAX,
    ensures
        in_step(
            recovered_handle(
                workflow_id,
                workflow_type,
                history_in(histories, workflow_id),
                run_id,
                loaded_version,
                pid,
            ).recorder,
            histories,
        ),
{
}

/// An active workflow is recovered as the type and the run of its first start. The coordinator is known
/// without one, and any other workflow without a start is refused.
pub proof fn workflows_recover_as_they_started(
    workflow_id: WorkflowId,
    history: Seq<EventView>,
    first: int,
)
    requires
        0 <= first <= history.len(),
        forall|i: int| 0 <= i < first ==> !((#[trigger] history[i]).body is WorkflowStarted),
        first < history.len() ==> history[first].body is WorkflowStarted,
    ensures
        first < history.len() ==> (history[first].body matches EventBody::WorkflowStarted {
            workflow_type,
            run_id,
            ..
        } && started_type(workflow_id, history) == Ok::<Seq<char>, EngineErrorView>(workflow_type)
            && started_run(workflow_id, history) == Ok::<RunId, EngineErrorView>(run_id)),
        first == history.len() && workflow_id == coordinator_workflow() ==> started_type(
            workflow_id,
            history,
        ) == Ok::<Seq<char>, EngineErrorView>("aion.schedule_coordinator"@) && started_run(
            workflow_id,
            history,
        ) == Ok::<RunId, EngineErrorView>(coordinator_run()),
        first == history.len() && workflow_id != coordinator_workflow() ==> (started_type(
            workflow_id,
            history,
        ) matches Err(error) && error is Load) && (started_run(workflow_id, history) matches Err(
            error,
        ) && error is Load),
{
    first_start_is_found(history, first);
}

/// Bootstrapping starts the coordinator where it has no history, with one start of its own run and
/// type, and leaves every other history, and a coordinator that has one, as it was.
pub proof fn bootstrapping_starts_the_coordinator(
    histories: Map<WorkflowId, Seq<EventView>>,
    now: Timestamp,
    other: WorkflowId,
)
    ensures
        ({
            let after = bootstrapped(histories, now);
            let before = history_in(histories, coordinator_workflow());
            let history = history_in(after, coordinator_workflow());
            &&& before.len() > 0 ==> history == before
            &&& before.len() == 0 ==> {
                &&& history.len() == 1
                &&& history[0].envelope.seq == 1
                &&& history[0].envelope.recorded_at == now
                &&& history[0].envelope.workflow_id == coordinator_workflow()
                &&& history[0].body matches EventBody::WorkflowStarted {
                    workflow_type,
                    input,
                    run_id,
                    parent_run_id,
                } && workflow_type == "aion.schedule_coordinator"@ && run_id == coordinator_run()
                    && parent_run_id is None && input.content_type == ContentType::Json
                    && input.bytes == seq![123u8, 125u8]
            }
            &&& other != coordinator_workflow() ==> history_in(after, other) == history_in(
                histories,
                other,
            )
        }),
{
}

/// Bootstrapping fails exactly where the coordinator's history cannot be read, or has to be started and
/// cannot be written.
pub proof fn bootstrapping_fails_with_the_store(
    histories: Map<WorkflowId, Seq<EventView>>,
    failures: Map<StoreCall, StoreErrorView>,
    now: Timestamp,
)
    ensures
        ({
            let outcome = bootstrap_outcome(histories, failures, now);
            let unread = failing(
                failures,
                StoreCall::ReadHistory { workflow_id: coordinator_workflow() },
            );
            let unwritten = failing(
                failures,
                StoreCall::Append {
                    workflow_id: coordinator_workflow(),
                    events: seq![coordinator_started(now)],
                    expected_seq: 0,
                },
            );
            let known = history_in(histories, coordinator_workflow()).len() > 0;
            &&& outcome is Ok <==> unread is None && (known || unwritten is None)
            &&& unread is Some ==> outcome == Err::<(), EngineErrorView>(
                EngineErrorView::Store(unread->Some_0),
            )
            &&& unread is None && outcome is Err ==> outcome == Err::<(), EngineErrorView>(
                EngineErrorView::Durability(DurabilityErrorView::Store(unwritten->Some_0)),
            )
        }),
{
}

/// A workflow that was recovered in a process is live in that process, resident, with the status that
/// its history projects and a recorder behind the last event of that history, and the process stands
/// last under the supervisor of its type. Runs of other workflows stay as they were.
pub proof fn recovered_workflows_are_live(
    state: RecoveryView,
    workflow_id: WorkflowId,
    workflow_type: Seq<char>,
    history: Seq<EventView>,
    run_id: RunId,
    loaded_version: ContentHash,
    pid: Pid,
    i: int,
)
    ensures
        ({
            let after = registered(
                state,
                workflow_id,
                workflow_type,
                history,
                ActiveWorkflowRecovery::Resident { run_id, loaded_version, pid },
            );
            let place = first_place(after.handles, of_run(workflow_id, run_id));
            let supervisor = supervisor_place(after.supervisors, workflow_type);
            &&& 0 <= place < after.handles.len()
            &&& after.handles[place].workflow_id == workflow_id
            &&& after.handles[place].run_id == run_id
            &&& after.handles[place].pid == pid
            &&& after.handles[place].workflow_type == workflow_type
            &&& after.handles[place].loaded_version == loaded_version
            &&& after.handles[place].cached_status == status_of(history)
            &&& after.handles[place].residency == HandleResidency::Resident
            &&& after.handles[place].recorder.workflow_id == workflow_id
            &&& after.handles[place].recorder.run == Some(run_id)
            &&& history.len() <= u64::MAX ==> after.handles[place].recorder.head == history.len()
            &&& 0 <= i < state.handles.len() && state.handles[i].workflow_id != workflow_id
                ==> after.handles[i] == state.handles[i]
            &&& 0 <= supervisor < after.supervisors.len()
            &&& after.supervisors[supervisor].0 == workflow_type
            &&& after.supervisors[supervisor].1.last() == pid
        }),
{
    let handle = recovered_handle(workflow_id, workflow_type, history, run_id, loaded_version, pid);
    let wanted = of_run(workflow_id, run_id);
    let with = with_handle(state.handles, handle);
    registered_runs_are_live(state.handles, handle, i);
    let place = first_place(with, wanted);
    let after = reconciled(with, workflow_id, run_id, status_of(history));
    assert(after =~= with);
    assert(after == with);
    processes_are_supervised_by_their_type(state.supervisors, workflow_type, pid, 0);
}

/// The coordinator is recovered without a process: only its cached status is brought up to date.
pub proof fn the_coordinator_needs_no_process(
    state: RecoveryView,
    workflow_id: WorkflowId,
    workflow_type: Seq<char>,
    history: Seq<EventView>,
    run_id: RunId,
)
    ensures
        ({
            let after = registered(
                state,
                workflow_id,
                workflow_type,
                history,
                ActiveWorkflowRecovery::ScheduleCoordinator { run_id },
            );
            &&& after.supervisors == state.supervisors
            &&& after.handles.len() == state.handles.len()
            &&& forall|i: int|
                0 <= i < state.handles.len() && (state.handles[i].workflow_id != workflow_id
                    || state.handles[i].run_id != run_id) ==> #[trigger] after.handles[i]
                    == state.handles[i]
        }),
{
    first_place_in_range(state.handles, of_run(workflow_id, run_id));
}

/// The recovery of a workflow fails where its history cannot be read or does not start it, and where
/// the recovery seam fails it; it then adds no live run. The coordinator is recovered by the engine
/// itself, whatever the seam says.
pub proof fn failed_recoveries_add_no_run(
    state: RecoveryView,
    workflow_id: WorkflowId,
    history: Seq<EventView>,
    failure: StoreErrorView,
    recovered: Result<ActiveWorkflowRecovery, EngineErrorView>,
    other: Result<ActiveWorkflowRecovery, EngineErrorView>,
)
    ensures
        recovery_step(state, workflow_id, Err(failure), recovered) == (
            state,
            Err::<(), EngineErrorView>(EngineErrorView::Store(failure)),
        ),
        ({
            let (after, outcome) = recovery_step(state, workflow_id, Ok(history), recovered);
            let named = started_type(workflow_id, history);
            let coordinating = workflow_id == coordinator_workflow() && named == Ok::<
                Seq<char>,
                EngineErrorView,
            >("aion.schedule_coordinator"@);
            &&& outcome is Err ==> after.handles == state.handles
            &&& named matches Err(error) ==> outcome == Err::<(), EngineErrorView>(error) && after
                == state
            &&& named is Ok && !coordinating ==> (outcome is Ok <==> recovered is Ok)
            &&& named is Ok && !coordinating && recovered is Err ==> outcome->Err_0
                == recovered->Err_0
            &&& coordinating ==> recovery_step(state, workflow_id, Ok(history), recovered)
                == recovery_step(state, workflow_id, Ok(history), other)
        }),
{
}

/// Workflows are recovered one behind the other, up to the first that fails, whose failure is told.
pub proof fn recovery_stops_at_the_first_failure(
    state: RecoveryView,
    ids: Seq<WorkflowId>,
    id: WorkflowId,
    histories: Map<WorkflowId, Seq<EventView>>,
    failures: Map<StoreCall, StoreErrorView>,
    replies: Seq<Result<ActiveWorkflowRecovery, EngineErrorView>>,
)
    ensures
        ({
            let earlier = recovered_all(state, ids, histories, failures, replies);
            let done = recovered_all(state, ids.push(id), histories, failures, replies);
            let failure = failing(failures, StoreCall::ReadHistory { workflow_id: id });
            &&& earlier.1 is Err ==> done == earlier
            &&& earlier.1 is Ok && failure is Some ==> done == (
                earlier.0,
                Err::<(), EngineErrorView>(EngineErrorView::Store(failure->Some_0)),
            )
            &&& earlier.1 is Ok && failure is None ==> done == recovery_step(
                earlier.0,
                id,
                Ok(history_in(histories, id)),
                replies[ids.len() as int],
            )
        }),
{
    assert(ids.push(id).drop_last() =~= ids);
}

/// An engine that was assembled is open, with nothing under way and no schedule projected yet. Its store
/// holds what it held, with the coordinator started, and its coordinator's recorder stands behind the
/// last event of the coordinator's history.
pub proof fn assembled_engines_are_open<S: EventStore, V, L, R: ActiveWorkflowRecoverySeam<L>>(
    recovery: &R,
    loaded_workflows: &L,
    before: EnginePlanView<S, V>,
    now: Timestamp,
    engine: EngineView<S, V, L>,
    other: WorkflowId,
)
    requires
        assembled(recovery, loaded_workflows, before, now, Ok(engine)),
        history_in(before.store.histories(), coordinator_workflow()).len() <= u64::MAX,
    ensures
        !engine.gate.shutting_down,
        engine.gate.active == 0,
        engine.schedules == Map::<
            crate::ids::ScheduleId,
            crate::engine::schedules::ScheduleStateView,
        >::empty(),
        history_in(engine.store.histories(), coordinator_workflow()).len() > 0,
        other != coordinator_workflow() ==> history_in(engine.store.histories(), other)
            == history_in(before.store.histories(), other),
        engine.store.timers() == before.store.timers(),
        engine.recorder.workflow_id == coordinator_workflow(),
        engine.recorder.head == history_in(engine.store.histories(), coordinator_workflow()).len(),
        engine.visibility_store == before.visibility_store,
        engine.loaded_workflows == *loaded_workflows,
        repopulated(
            recovery,
            loaded_workflows,
            RecoveryView { handles: before.handles, supervisors: Seq::empty() },
            RecoveryView { handles: engine.handles, supervisors: engine.supervisors },
            engine.store.histories(),
            before.store.failures(),
            Ok(()),
        ),
{
    bootstrapping_starts_the_coordinator(before.store.histories(), now, other);
}

/// Every active workflow that the recovery seam recovered in a process is live in it behind a recovery
/// that succeeds, whatever was recovered before and behind it.
pub proof fn every_recovered_workflow_is_live(
    state: RecoveryView,
    ids: Seq<WorkflowId>,
    histories: Map<WorkflowId, Seq<EventView>>,
    failures: Map<StoreCall, StoreErrorView>,
    replies: Seq<Result<ActiveWorkflowRecovery, EngineErrorView>>,
    k: int,
    run_id: RunId,
    loaded_version: ContentHash,
    pid: Pid,
)
    requires
        ids.no_duplicates(),
        recovered_all(state, ids, histories, failures, replies).1 is Ok,
        0 <= k < ids.len(),
        ids[k] != coordinator_workflow(),
        replies[k] == Ok::<ActiveWorkflowRecovery, EngineErrorView>(
            ActiveWorkflowRecovery::Resident { run_id, loaded_version, pid },
        ),
    ensures
        ({
            let after = recovered_all(state, ids, histories, failures, replies).0;
            exists|i: int|
                0 <= i < after.handles.len() && (#[trigger] after.handles[i]).workflow_id == ids[k]
                    && after.handles[i].run_id == run_id && after.handles[i].pid == pid
                    && after.handles[i].residency == HandleResidency::Resident
                    && after.handles[i].cached_status == status_of(history_in(histories, ids[k]))
        }),
    decreases ids.len(),
{
    let earlier = recovered_all(state, ids.drop_last(), histories, failures, replies).0;
    let after = recovered_all(state, ids, histories, failures, replies).0;
    let id = ids.last();
    let history = history_in(histories, id);
    let workflow_type = started_type(id, history)->Ok_0;
    let base = RecoveryView { supervisors: supervised(earlier.supervisors, workflow_type), ..earlier };
    if k == ids.len() - 1 {
        recovered_workflows_are_live(
            base,
            id,
            workflow_type,
            history,
            run_id,
            loaded_version,
            pid,
            0,
        );
        let place = first_place(after.handles, of_run(id, run_id));
        assert(after.handles[place].workflow_id == ids[k]);
    } else {
        let rest = ids.drop_last();
        assert(rest[k] == ids[k]);
        assert(rest.no_duplicates());
        every_recovered_workflow_is_live(
            state,
            rest,
            histories,
            failures,
            replies,
            k,
            run_id,
            loaded_version,
            pid,
        );
        let i = choose|i: int|
            0 <= i < earlier.handles.len() && (#[trigger] earlier.handles[i]).workflow_id == ids[k]
                && earlier.handles[i].run_id == run_id && earlier.handles[i].pid == pid
                && earlier.handles[i].residency == HandleResidency::Resident
                && earlier.handles[i].cached_status == status_of(history_in(histories, ids[k]));
        assert(ids[k] != ids[ids.len() - 1]);
        if is_coordinator(id, workflow_type) {
            the_coordinator_needs_no_process(
                base,
                id,
                workflow_type,
                history,
                started_run(id, history)->Ok_0,
            );
            assert(after.handles[i] == earlier.handles[i]);
        } else {
            match replies[ids.len() - 1]->Ok_0 {
                ActiveWorkflowRecovery::Resident {
                    run_id: other_run,
                    loaded_version: other_version,
                    pid: other_pid,
                } => {
                    recovered_workflows_are_live(
                        base,
                        id,
                        workflow_type,
                        history,
                        other_run,
                        other_version,
                        other_pid,
                        i,
                    );
                    assert(after.handles[i] == earlier.handles[i]);
                    registering_keeps_the_places(
                        earlier.handles,
                        recovered_handle(
                            id,
                            workflow_type,
                            history,
                            other_run,
                            other_version,
                            other_pid,
                        ),
                    );
                },
                ActiveWorkflowRecovery::ScheduleCoordinator { run_id: other_run } => {
                    the_coordinator_needs_no_process(base, id, workflow_type, history, other_run);
                    assert(after.handles[i] == earlier.handles[i]);
                },
            }
        }
    }
}

/// Registering a run takes no place away.
proof fn registering_keeps_the_places(handles: Seq<HandleView>, handle: HandleView)
    ensures
        reconciled(
            with_handle(handles, handle),
            handle.workflow_id,
            handle.run_id,
            handle.cached_status,
        ).len() >= handles.len(),
{
    let wanted = of_run(handle.workflow_id, handle.run_id);
    first_place_in_range(handles, wanted);
    first_place_in_range(with_handle(handles, handle), wanted);
}

/// A builder holds nothing until it is supplied with something.
pub proof fn builders_start_empty<S, V, H: EngineHost>()
    ensures
        ({
            let builder = nothing_supplied::<S, V, H>();
            &&& builder.store is None
            &&& builder.visibility_store is None
            &&& builder.scheduler_threads is None
            &&& builder.signal_delivery is None
            &&& builder.workflow_sources.len() == 0
            &&& builder.host_nifs.len() == 0
            &&& builder.recovery is None
            &&& builder.query_service is None
            &&& builder.event_publisher is None
            &&& builder.activity_dispatcher is None
            &&& builder.active_registry is None
            &&& routing(builder) is Standard
        }),
{
}

/// A plan passes on everything that its builder was supplied with, and makes up nothing.
pub proof fn plans_pass_on_what_was_supplied<S, V, H: EngineHost>(
    builder: BuilderView<S, V, H>,
    store: S,
    visibility_store: V,
    plan: EnginePlan<S, V, H>,
)
    requires
        planned(builder, store, visibility_store, plan),
    ensures
        plan.store == store,
        plan.visibility_store == visibility_store,
        plan.scheduler_threads == builder.scheduler_threads,
        plan.signal_delivery == builder.signal_delivery,
        plan.workflow_sources@ == builder.workflow_sources,
        plan.host_nifs@ == builder.host_nifs,
        plan.recovery == builder.recovery,
        plan.query_service == builder.query_service,
        plan.event_publisher == builder.event_publisher,
        plan.activity_dispatcher == builder.activity_dispatcher,
        builder.active_registry matches Some(handles) ==> plan.registry@ == handles,
        builder.active_registry is None ==> plan.registry@.len() == 0,
        builder.signal_router_factory matches Some(factory) ==> plan.signal_routing
            == SignalRouting::<H::SignalRouter, H::SignalRouterFactory>::Made(factory),
        builder.signal_router_factory is None ==> (builder.signal_router matches Some(router)
            ==> plan.signal_routing == SignalRouting::<
            H::SignalRouter,
            H::SignalRouterFactory,
        >::Router(router)),
{
}

/// An engine that could not be assembled failed with the failure of recovering its active workflows.
pub proof fn failed_assemblies_tell_the_recovery<S: EventStore, V, L, R: ActiveWorkflowRecoverySeam<L>>(
    recovery: &R,
    loaded_workflows: &L,
    before: EnginePlanView<S, V>,
    now: Timestamp,
    error: EngineErrorView,
)
    requires
        assembled(recovery, loaded_workflows, before, now, Err(error)),
    ensures
        exists|after: RecoveryView| #[trigger]
            repopulated(
                recovery,
                loaded_workflows,
                RecoveryView { handles: before.handles, supervisors: Seq::empty() },
                after,
                bootstrapped(before.store.histories(), now),
                before.store.failures(),
                Err(error),
            ),
{
}

/// Every reply that a recovery went by is one that the seam may give of that workflow, by its type, its
/// history and the loaded packages.
pub proof fn recoveries_go_by_the_seam<L, R: ActiveWorkflowRecoverySeam<L>>(
    recovery: &R,
    loaded_workflows: &L,
    ids: Seq<WorkflowId>,
    histories: Map<WorkflowId, Seq<EventView>>,
    failures: Map<StoreCall, StoreErrorView>,
    replies: Seq<Result<ActiveWorkflowRecovery, EngineErrorView>>,
    i: int,
)
    requires
        answered(recovery, loaded_workflows, ids, histories, failures, replies),
        0 <= i < ids.len(),
        i < replies.len(),
        failing(failures, StoreCall::ReadHistory { workflow_id: ids[i] }) is None,
        ids[i] != coordinator_workflow(),
        started_type(ids[i], history_in(histories, ids[i])) is Ok,
    ensures
        recovery.may_recover(
            ids[i],
            started_type(ids[i], history_in(histories, ids[i]))->Ok_0,
            history_in(histories, ids[i]),
            loaded_workflows,
            replies[i],
        ),
{
}

} // verus!
