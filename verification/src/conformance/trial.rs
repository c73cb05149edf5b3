//! A store that is put to the test, and the log of what it was asked and answered.

use vstd::prelude::*;

use crate::error::{store_outcome, StoreError, StoreErrorView};
use crate::event::{event_views, Event, EventView};
use crate::ids::{TimerId, TimerIdView, WorkflowId};
use crate::order::lists;
use crate::projection::{
    run_chain, RunSummary, WorkflowFilter, WorkflowFilterView, WorkflowSummary, WorkflowSummaryView,
};
use crate::store::{
    active_workflows, append_rule, appended, due_timers, failing, history_in, selected_summaries,
    timer_views, workflow_summary_views, EventStore, StoreCall, TimerEntry, TimerEntryView,
};
use crate::timestamp::Timestamp;

verus! {

/// What a store was asked, and what it answered.
#[allow(inconsistent_fields)]
pub enum Exchange {
    /// To append a batch.
    Append {
        /// The workflow.
        workflow_id: WorkflowId,
        /// The batch.
        events: Seq<EventView>,
        /// Head that the history is expected to have.
        expected_seq: u64,
        /// The answer.
        reply: Result<(), StoreErrorView>,
    },
    /// To append two batches at the same time.
    AppendBoth {
        /// The workflow.
        workflow_id: WorkflowId,
        /// One batch.
        first: Seq<EventView>,
        /// The other batch.
        second: Seq<EventView>,
        /// Head that both expect.
        expected_seq: u64,
        /// The answers, in the order of the batches.
        replies: (Result<(), StoreErrorView>, Result<(), StoreErrorView>),
    },
    /// For a history.
    ReadHistory {
        /// The workflow.
        workflow_id: WorkflowId,
        /// The answer.
        reply: Result<Seq<EventView>, StoreErrorView>,
    },
    /// For the runs of a workflow.
    ReadRunChain {
        /// The workflow.
        workflow_id: WorkflowId,
        /// The answer.
        reply: Result<Seq<RunSummary>, StoreErrorView>,
    },
    /// For the active workflows.
    ListActive {
        /// The answer.
        reply: Result<Seq<WorkflowId>, StoreErrorView>,
    },
    /// For summaries.
    Query {
        /// The filter.
        filter: WorkflowFilterView,
        /// The answer.
        reply: Result<Seq<WorkflowSummaryView>, StoreErrorView>,
    },
    /// To schedule a timer.
    ScheduleTimer {
        /// The workflow.
        workflow_id: WorkflowId,
        /// The timer.
        timer_id: TimerIdView,
        /// When it is due.
        fire_at: Timestamp,
        /// The answer.
        reply: Result<(), StoreErrorView>,
    },
    /// For the timers that are due.
    ExpiredTimers {
        /// At this time.
        as_of: Timestamp,
        /// The answer.
        reply: Result<Seq<TimerEntryView>, StoreErrorView>,
    },
}

/// What a store holds.
#[verifier::ext_equal]
pub struct World {
    /// The history of every workflow that has one.
    pub histories: Map<WorkflowId, Seq<EventView>>,
    /// The due time of every scheduled timer.
    pub timers: Map<(WorkflowId, TimerIdView), Timestamp>,
    /// The requests that fail, with their failures.
    pub failures: Map<StoreCall, StoreErrorView>,
}

/// A store that holds nothing, and works.
pub open spec fn empty_world() -> World {
    World { histories: Map::empty(), timers: Map::empty(), failures: Map::empty() }
}

/// The store fails no request.
pub open spec fn healthy(world: World) -> bool {
    world.failures == Map::<StoreCall, StoreErrorView>::empty()
}

/// What appending a batch is answered.
pub open spec fn append_reply(
    world: World,
    workflow_id: WorkflowId,
    events: Seq<EventView>,
    expected_seq: u64,
) -> Result<(), StoreErrorView> {
    match failing(
        world.failures,
        StoreCall::Append { workflow_id, events, expected_seq },
    ) {
        Some(error) => Err(error),
        None => append_rule(history_in(world.histories, workflow_id), events, expected_seq),
    }
}

/// What a store holds once a batch was appended, or refused.
pub open spec fn after_append(
    world: World,
    workflow_id: WorkflowId,
    events: Seq<EventView>,
    expected_seq: u64,
) -> World {
    if append_reply(world, workflow_id, events, expected_seq) is Ok {
        World { histories: appended(world.histories, workflow_id, events), ..world }
    } else {
        world
    }
}

/// Two batches were appended one after the other.
pub open spec fn one_after_the_other(
    before: World,
    workflow_id: WorkflowId,
    one: Seq<EventView>,
    other: Seq<EventView>,
    expected_seq: u64,
    replies: (Result<(), StoreErrorView>, Result<(), StoreErrorView>),
    after: World,
) -> bool {
    let between = after_append(before, workflow_id, one, expected_seq);
    &&& replies.0 == append_reply(before, workflow_id, one, expected_seq)
    &&& replies.1 == append_reply(between, workflow_id, other, expected_seq)
    &&& after == after_append(between, workflow_id, other, expected_seq)
}

/// A reading request is answered with a value that is right, or with the failure of the store.
pub open spec fn read_rightly<T>(
    failure: Option<StoreErrorView>,
    reply: Result<T, StoreErrorView>,
    right: spec_fn(T) -> bool,
) -> bool {
    match failure {
        Some(error) => reply == Err::<T, StoreErrorView>(error),
        None => reply matches Ok(value) && right(value),
    }
}

/// The exchange is one that the contract of event stores admits. Of two appends at the same time,
/// either comes first.
pub open spec fn keeps(before: World, exchange: Exchange, after: World) -> bool {
    match exchange {
        Exchange::Append { workflow_id, events, expected_seq, reply } => {
            &&& reply == append_reply(before, workflow_id, events, expected_seq)
            &&& after == after_append(before, workflow_id, events, expected_seq)
        },
        Exchange::AppendBoth { workflow_id, first, second, expected_seq, replies } => {
            ||| one_after_the_other(
                before,
                workflow_id,
                first,
                second,
                expected_seq,
                replies,
                after,
            )
            ||| one_after_the_other(
                before,
                workflow_id,
                second,
                first,
                expected_seq,
                (replies.1, replies.0),
                after,
            )
        },
        Exchange::ReadHistory { workflow_id, reply } => after == before && read_rightly(
            failing(before.failures, StoreCall::ReadHistory { workflow_id }),
            reply,
            |events: Seq<EventView>| events == history_in(before.histories, workflow_id),
        ),
        Exchange::ReadRunChain { workflow_id, reply } => after == before && read_rightly(
            failing(before.failures, StoreCall::ReadRunChain { workflow_id }),
            reply,
            |runs: Seq<RunSummary>| runs == run_chain(history_in(before.histories, workflow_id)),
        ),
        Exchange::ListActive { reply } => after == before && read_rightly(
            failing(before.failures, StoreCall::ListActive),
            reply,
            |ids: Seq<WorkflowId>| lists(ids, active_workflows(before.histories)),
        ),
        Exchange::Query { filter, reply } => after == before && read_rightly(
            failing(before.failures, StoreCall::Query { filter }),
            reply,
            |summaries: Seq<WorkflowSummaryView>|
                lists(summaries, selected_summaries(before.histories, filter)),
        ),
        Exchange::ScheduleTimer { workflow_id, timer_id, fire_at, reply } => match failing(
            before.failures,
            StoreCall::ScheduleTimer { workflow_id, timer_id, fire_at },
        ) {
            Some(error) => reply == Err::<(), StoreErrorView>(error) && after == before,
            None => reply == Ok::<(), StoreErrorView>(()) && after == (World {
                timers: before.timers.insert((workflow_id, timer_id), fire_at),
                ..before
            }),
        },
        Exchange::ExpiredTimers { as_of, reply } => after == before && read_rightly(
            failing(before.failures, StoreCall::ExpiredTimers { as_of }),
            reply,
            |entries: Seq<TimerEntryView>| lists(entries, due_timers(before.timers, as_of)),
        ),
    }
}

/// Mathematical value of a history that was read.
pub open spec fn history_reply(reply: Result<Vec<Event>, StoreError>) -> Result<
    Seq<EventView>,
    StoreErrorView,
> {
    match reply {
        Ok(events) => Ok(event_views(events@)),
        Err(error) => Err(error@),
    }
}

/// Mathematical value of runs that were read.
pub open spec fn runs_reply(reply: Result<Vec<RunSummary>, StoreError>) -> Result<
    Seq<RunSummary>,
    StoreErrorView,
> {
    match reply {
        Ok(runs) => Ok(runs@),
        Err(error) => Err(error@),
    }
}

/// Mathematical value of workflows that were listed.
pub open spec fn workflows_reply(reply: Result<Vec<WorkflowId>, StoreError>) -> Result<
    Seq<WorkflowId>,
    StoreErrorView,
> {
    match reply {
        Ok(ids) => Ok(ids@),
        Err(error) => Err(error@),
    }
}

/// Mathematical value of summaries that were listed.
pub open spec fn summaries_reply(reply: Result<Vec<WorkflowSummary>, StoreError>) -> Result<
    Seq<WorkflowSummaryView>,
    StoreErrorView,
> {
    match reply {
        Ok(summaries) => Ok(workflow_summary_views(summaries@)),
        Err(error) => Err(error@),
    }
}

/// Mathematical value of timers that were listed.
pub open spec fn timers_reply(reply: Result<Vec<TimerEntry>, StoreError>) -> Result<
    Seq<TimerEntryView>,
    StoreErrorView,
> {
    match reply {
        Ok(entries) => Ok(timer_views(entries@)),
        Err(error) => Err(error@),
    }
}

/// A store that is put to the test. Nothing is promised of what it answers, unless an
/// implementation says that it keeps the contract of event stores.
pub trait StoreUnderTest: Sized {
    /// The store keeps the contract of event stores.
    open spec fn keeps_contract() -> bool {
        false
    }

    /// What the store holds. It is open unless an implementation says so.
    open spec fn world(&self) -> World {
        arbitrary()
    }

    /// Appends a batch behind the expected head.
    fn append(&mut self, workflow_id: &WorkflowId, events: &[Event], expected_seq: u64) -> (reply:
        Result<(), StoreError>)
        ensures
            Self::keeps_contract() ==> keeps(
                old(self).world(),
                Exchange::Append {
                    workflow_id: *workflow_id,
                    events: event_views(events@),
                    expected_seq,
                    reply: store_outcome(reply),
                },
                final(self).world(),
            ),
    ;

    /// Appends two batches behind the same head, at the same time if the store can.
    fn append_both(
        &mut self,
        workflow_id: &WorkflowId,
        first: &[Event],
        second: &[Event],
        expected_seq: u64,
    ) -> (replies: (Result<(), StoreError>, Result<(), StoreError>))
        ensures
            Self::keeps_contract() ==> keeps(
                old(self).world(),
                Exchange::AppendBoth {
                    workflow_id: *workflow_id,
                    first: event_views(first@),
                    second: event_views(second@),
                    expected_seq,
                    replies: (store_outcome(replies.0), store_outcome(replies.1)),
                },
                final(self).world(),
            ),
    ;

    /// Reads a history.
    fn read_history(&self, workflow_id: &WorkflowId) -> (reply: Result<Vec<Event>, StoreError>)
        ensures
            Self::keeps_contract() ==> keeps(
                self.world(),
                Exchange::ReadHistory { workflow_id: *workflow_id, reply: history_reply(reply) },
                self.world(),
            ),
    ;

    /// Reads the runs of a workflow.
    fn read_run_chain(&self, workflow_id: &WorkflowId) -> (reply: Result<
        Vec<RunSummary>,
        StoreError,
    >)
        ensures
            Self::keeps_contract() ==> keeps(
                self.world(),
                Exchange::ReadRunChain { workflow_id: *workflow_id, reply: runs_reply(reply) },
                self.world(),
            ),
    ;

    /// Lists the active workflows.
    fn list_active(&self) -> (reply: Result<Vec<WorkflowId>, StoreError>)
        ensures
            Self::keeps_contract() ==> keeps(
                self.world(),
                Exchange::ListActive { reply: workflows_reply(reply) },
                self.world(),
            ),
    ;

    /// Lists the summaries that a filter selects.
    fn query(&self, filter: &WorkflowFilter) -> (reply: Result<Vec<WorkflowSummary>, StoreError>)
        ensures
            Self::keeps_contract() ==> keeps(
                self.world(),
                Exchange::Query { filter: filter@, reply: summaries_reply(reply) },
                self.world(),
            ),
    ;

    /// Schedules a timer.
    fn schedule_timer(
        &mut self,
        workflow_id: &WorkflowId,
        timer_id: &TimerId,
        fire_at: Timestamp,
    ) -> (reply: Result<(), StoreError>)
        ensures
            Self::keeps_contract() ==> keeps(
                old(self).world(),
                Exchange::ScheduleTimer {
                    workflow_id: *workflow_id,
                    timer_id: timer_id@,
                    fire_at,
                    reply: store_outcome(reply),
                },
                final(self).world(),
            ),
    ;

    /// Lists the timers that are due.
    fn expired_timers(&self, as_of: Timestamp) -> (reply: Result<Vec<TimerEntry>, StoreError>)
        ensures
            Self::keeps_contract() ==> keeps(
                self.world(),
                Exchange::ExpiredTimers { as_of, reply: timers_reply(reply) },
                self.world(),
            ),
    ;
}

/// An event store can be put to the test, and keeps its contract. Two appends at the same time are
/// made one after the other.
impl<S: EventStore> StoreUnderTest for S {
    open spec fn keeps_contract() -> bool {
        true
    }

    open spec fn world(&self) -> World {
        World { histories: self.histories(), timers: self.timers(), failures: self.failures() }
    }

    fn append(&mut self, workflow_id: &WorkflowId, events: &[Event], expected_seq: u64) -> (reply:
        Result<(), StoreError>) {
        EventStore::append(self, workflow_id, events, expected_seq)
    }

    fn append_both(
        &mut self,
        workflow_id: &WorkflowId,
        first: &[Event],
        second: &[Event],
        expected_seq: u64,
    ) -> (replies: (Result<(), StoreError>, Result<(), StoreError>)) {
        let one = EventStore::append(self, workflow_id, first, expected_seq);
        let other = EventStore::append(self, workflow_id, second, expected_seq);
        (one, other)
    }

    fn read_history(&self, workflow_id: &WorkflowId) -> (reply: Result<Vec<Event>, StoreError>) {
        EventStore::read_history(self, workflow_id)
    }

    fn read_run_chain(&self, workflow_id: &WorkflowId) -> (reply: Result<
        Vec<RunSummary>,
        StoreError,
    >) {
        EventStore::read_run_chain(self, workflow_id)
    }

    fn list_active(&self) -> (reply: Result<Vec<WorkflowId>, StoreError>) {
        EventStore::list_active(self)
    }

    fn query(&self, filter: &WorkflowFilter) -> (reply: Result<Vec<WorkflowSummary>, StoreError>) {
        EventStore::query(self, filter)
    }

    fn schedule_timer(
        &mut self,
        workflow_id: &WorkflowId,
        timer_id: &TimerId,
        fire_at: Timestamp,
    ) -> (reply: Result<(), StoreError>) {
        EventStore::schedule_timer(self, workflow_id, timer_id, fire_at)
    }

    fn expired_timers(&self, as_of: Timestamp) -> (reply: Result<Vec<TimerEntry>, StoreError>) {
        EventStore::expired_timers(self, as_of)
    }
}

/// A store under test together with the log of its exchanges. Requests can be made through the trial
/// only, and each goes into the log.
pub struct Trial<S> {
    store: S,
    given: Ghost<S>,
    log: Ghost<Seq<Exchange>>,
}

impl<S: StoreUnderTest> Trial<S> {
    /// The exchanges so far, in order.
    pub closed spec fn log(&self) -> Seq<Exchange> {
        self.log@
    }

    /// The store as it was given.
    pub closed spec fn given(&self) -> S {
        self.given@
    }

    /// What the store holds.
    pub closed spec fn world(&self) -> World {
        self.store.world()
    }

    /// A trial of a store, before its first exchange.
    pub fn new(store: S) -> (trial: Self)
        ensures
            trial.given() == store,
            trial.world() == store.world(),
            trial.log() == Seq::<Exchange>::empty(),
    {
        Trial { given: Ghost(store), store, log: Ghost(Seq::empty()) }
    }

    /// Asks the store to append a batch.
    pub fn append(
        &mut self,
        workflow_id: &WorkflowId,
        events: &[Event],
        expected_seq: u64,
    ) -> (reply: Result<(), StoreError>)
        ensures
            asked(
                *old(self),
                *final(self),
                Exchange::Append {
                    workflow_id: *workflow_id,
                    events: event_views(events@),
                    expected_seq,
                    reply: store_outcome(reply),
                },
            ),
    {
        let reply = self.store.append(workflow_id, events, expected_seq);
        proof {
            self.log@ = self.log@.push(
                Exchange::Append {
                    workflow_id: *workflow_id,
                    events: event_views(events@),
                    expected_seq,
                    reply: store_outcome(reply),
                },
            );
        }
        reply
    }

    /// Asks the store to append two batches at the same time.
    pub fn append_both(
        &mut self,
        workflow_id: &WorkflowId,
        first: &[Event],
        second: &[Event],
        expected_seq: u64,
    ) -> (replies: (Result<(), StoreError>, Result<(), StoreError>))
        ensures
            asked(
                *old(self),
                *final(self),
                Exchange::AppendBoth {
                    workflow_id: *workflow_id,
                    first: event_views(first@),
                    second: event_views(second@),
                    expected_seq,
                    replies: (store_outcome(replies.0), store_outcome(replies.1)),
                },
            ),
    {
        let replies = self.store.append_both(workflow_id, first, second, expected_seq);
        proof {
            self.log@ = self.log@.push(
                Exchange::AppendBoth {
                    workflow_id: *workflow_id,
                    first: event_views(first@),
                    second: event_views(second@),
                    expected_seq,
                    replies: (store_outcome(replies.0), store_outcome(replies.1)),
                },
            );
        }
        replies
    }

    /// Asks the store for a history.
    pub fn read_history(&mut self, workflow_id: &WorkflowId) -> (reply: Result<
        Vec<Event>,
        StoreError,
    >)
        ensures
            asked(
                *old(self),
                *final(self),
                Exchange::ReadHistory { workflow_id: *workflow_id, reply: history_reply(reply) },
            ),
    {
        let reply = self.store.read_history(workflow_id);
        proof {
            self.log@ = self.log@.push(
                Exchange::ReadHistory { workflow_id: *workflow_id, reply: history_reply(reply) },
            );
        }
        reply
    }

    /// Asks the store for the runs of a workflow.
    pub fn read_run_chain(&mut self, workflow_id: &WorkflowId) -> (reply: Result<
        Vec<RunSummary>,
        StoreError,
    >)
        ensures
            asked(
                *old(self),
                *final(self),
                Exchange::ReadRunChain { workflow_id: *workflow_id, reply: runs_reply(reply) },
            ),
    {
        let reply = self.store.read_run_chain(workflow_id);
        proof {
            self.log@ = self.log@.push(
                Exchange::ReadRunChain { workflow_id: *workflow_id, reply: runs_reply(reply) },
            );
        }
        reply
    }

    /// Asks the store for the active workflows.
    pub fn list_active(&mut self) -> (reply: Result<Vec<WorkflowId>, StoreError>)
        ensures
            asked(
                *old(self),
                *final(self),
                Exchange::ListActive { reply: workflows_reply(reply) },
            ),
    {
        let reply = self.store.list_active();
        proof {
            self.log@ = self.log@.push(Exchange::ListActive { reply: workflows_reply(reply) });
        }
        reply
    }

    /// Asks the store for summaries.
    pub fn query(&mut self, filter: &WorkflowFilter) -> (reply: Result<
        Vec<WorkflowSummary>,
        StoreError,
    >)
        ensures
            asked(
                *old(self),
                *final(self),
                Exchange::Query { filter: filter@, reply: summaries_reply(reply) },
            ),
    {
        let reply = self.store.query(filter);
        proof {
            self.log@ = self.log@.push(
                Exchange::Query { filter: filter@, reply: summaries_reply(reply) },
            );
        }
        reply
    }

    /// Asks the store to schedule a timer.
    pub fn schedule_timer(
        &mut self,
        workflow_id: &WorkflowId,
        timer_id: &TimerId,
        fire_at: Timestamp,
    ) -> (reply: Result<(), StoreError>)
        ensures
            asked(
                *old(self),
                *final(self),
                Exchange::ScheduleTimer {
                    workflow_id: *workflow_id,
                    timer_id: timer_id@,
                    fire_at,
                    reply: store_outcome(reply),
                },
            ),
    {
        let reply = self.store.schedule_timer(workflow_id, timer_id, fire_at);
        proof {
            self.log@ = self.log@.push(
                Exchange::ScheduleTimer {
                    workflow_id: *workflow_id,
                    timer_id: timer_id@,
                    fire_at,
                    reply: store_outcome(reply),
                },
            );
        }
        reply
    }

    /// Asks the store for the timers that are due.
    pub fn expired_timers(&mut self, as_of: Timestamp) -> (reply: Result<
        Vec<TimerEntry>,
        StoreError,
    >)
        ensures
            asked(
                *old(self),
                *final(self),
                Exchange::ExpiredTimers { as_of, reply: timers_reply(reply) },
            ),
    {
        let reply = self.store.expired_timers(as_of);
        proof {
            self.log@ = self.log@.push(
                Exchange::ExpiredTimers { as_of, reply: timers_reply(reply) },
            );
        }
        reply
    }
}

/// One exchange was had with the store: it is in the log, and a store that keeps its contract
/// answered by it.
pub open spec fn asked<S: StoreUnderTest>(
    before: Trial<S>,
    after: Trial<S>,
    exchange: Exchange,
) -> bool {
    &&& after.given() == before.given()
    &&& after.log() == before.log().push(exchange)
    &&& S::keeps_contract() ==> keeps(before.world(), exchange, after.world())
}

} // verus!
