//! In-memory store: the reference for what durable backends do.

use vstd::prelude::*;

use crate::error::{StoreError, StoreErrorView};
use crate::event::{clone_events, event_views, Event, EventView};
use crate::ids::{RunId, TimerId, TimerIdView, WorkflowId};
use crate::order::{items_of, sorted_pairs, without_keys, Keyed, Ranked};
use crate::projection::{
    run_chain_from_history, status_from_events, RunSummary, WorkflowFilter, WorkflowStatus,
    WorkflowSummary,
};
use crate::store::{
    active_workflows, appended, contiguous, due_timers, head_of, history_head, history_in,
    numbered_history_head, selected_summaries, timer_views, validate_contiguous, workflow_summary_views, EventStore,
    RunKey, StoreCall, TimerEntry, TimerKey,
};
use crate::table::{
    keys_distinct, pair_map, pair_map_holds, passed_over, picked, picked_keys_distinct,
    picked_lists, picked_next, Table,
};
use crate::timestamp::Timestamp;
use crate::visibility::{
    listing, rows_keyed, selected_rows, summary_views, ListWorkflowsFilter, VisibilityCall,
    VisibilityRecord, VisibilityStore, VisibilityView,
};

verus! {

/// Store that keeps everything in memory and loses it with the process.
#[derive(Debug)]
pub struct InMemoryStore {
    histories: Table<WorkflowId, Vec<Event>>,
    timers: Table<TimerKey, Timestamp>,
    visibility: Table<RunKey, VisibilityRecord>,
}

/// The events of every history.
pub open spec fn histories_of(table: Map<WorkflowId, Vec<Event>>) -> Map<
    WorkflowId,
    Seq<EventView>,
> {
    table.map_values(|events: Vec<Event>| event_views(events@))
}

/// Every history is numbered from one on, without a gap.
pub open spec fn numbered(histories: Map<WorkflowId, Seq<EventView>>) -> bool {
    forall|id: WorkflowId| #[trigger]
        histories.contains_key(id) ==> contiguous(histories[id], 0) && histories[id].len() > 0
}

impl InMemoryStore {
    #[verifier::type_invariant]
    spec fn well_formed(self) -> bool {
        &&& numbered(histories_of(self.histories@))
        &&& rows_keyed(rows_of(self.visibility@))
    }

    /// The history of every workflow that has one.
    pub closed spec fn kept_histories(&self) -> Map<WorkflowId, Seq<EventView>> {
        histories_of(self.histories@)
    }

    /// The due time of every scheduled timer.
    pub closed spec fn kept_timers(&self) -> Map<(WorkflowId, TimerIdView), Timestamp> {
        self.timers@
    }

    /// The visibility rows by workflow and run.
    pub closed spec fn kept_rows(&self) -> Map<(WorkflowId, RunId), VisibilityView> {
        rows_of(self.visibility@)
    }

    /// An empty store.
    pub fn new() -> (store: Self)
        ensures
            store.kept_histories() == Map::<WorkflowId, Seq<EventView>>::empty(),
            store.kept_timers() == Map::<(WorkflowId, TimerIdView), Timestamp>::empty(),
            store.kept_rows() == Map::<(WorkflowId, RunId), VisibilityView>::empty(),
    {
        let store = InMemoryStore {
            histories: Table::new(),
            timers: Table::new(),
            visibility: Table::new(),
        };
        assert(histories_of(store.histories@) =~= Map::empty());
        assert(rows_of(store.visibility@) =~= Map::empty());
        store
    }
}

impl Default for InMemoryStore {
    fn default() -> (store: Self)
        ensures
            store.kept_histories() == Map::<WorkflowId, Seq<EventView>>::empty(),
            store.kept_timers() == Map::<(WorkflowId, TimerIdView), Timestamp>::empty(),
            store.kept_rows() == Map::<(WorkflowId, RunId), VisibilityView>::empty(),
    {
        InMemoryStore::new()
    }
}

impl EventStore for InMemoryStore {
    open spec fn histories(&self) -> Map<WorkflowId, Seq<EventView>> {
        self.kept_histories()
    }

    open spec fn timers(&self) -> Map<(WorkflowId, TimerIdView), Timestamp> {
        self.kept_timers()
    }

    open spec fn failures(&self) -> Map<StoreCall, StoreErrorView> {
        Map::empty()
    }

    fn append(&mut self, workflow_id: &WorkflowId, events: &[Event], expected_seq: u64) -> (outcome:
        Result<(), StoreError>)
        ensures
            final(self).kept_rows() == old(self).kept_rows(),
    {
        proof {
            use_type_invariant(&*self);
        }
        let ghost before = self.histories@;
        let ghost history = history_in(histories_of(before), *workflow_id);
        let ghost batch = event_views(events@);
        let current_head = match self.histories.get(workflow_id) {
            Some(stored) => history_head(stored.as_slice()),
            None => 0,
        };
        assert(current_head == head_of(history));
        if current_head != expected_seq {
            return Err(
                StoreError::SequenceConflict { expected: expected_seq, found: current_head },
            );
        }
        match validate_contiguous(events, expected_seq) {
            Ok(()) => {},
            Err(error) => {
                return Err(error);
            },
        }
        if events.len() == 0 {
            return Ok(());
        }
        let mut table: Table<WorkflowId, Vec<Event>> = Table::new();
        proof {
            assert(histories_of(table@) =~= Map::empty());
        }
        core::mem::swap(&mut table, &mut self.histories);
        let mut stored = match table.remove(workflow_id) {
            Some(stored) => stored,
            None => Vec::new(),
        };
        let ghost stored_before = stored@;
        assert(event_views(stored_before) =~= history);
        let mut copies = clone_events(events);
        let ghost copied = copies@;
        stored.append(&mut copies);
        assert(event_views(stored@) =~= history + batch) by {
            assert(stored@ =~= stored_before + copied);
            assert(event_views(stored_before + copied) =~= event_views(stored_before)
                + event_views(copied));
        }
        let ghost grown = stored;
        let _ = table.insert(*workflow_id, stored);
        proof {
            assert(table@ =~= before.insert(*workflow_id, grown));
            let after = histories_of(table@);
            assert(after =~= appended(histories_of(before), *workflow_id, batch));
            assert(numbered(after)) by {
                assert(head_of(history) == history.len()) by {
                    assert(history.len() == stored_before.len());
                    numbered_history_head(history);
                }
                assert forall|id: WorkflowId| #[trigger] after.contains_key(id) implies contiguous(
                    after[id],
                    0,
                ) && after[id].len() > 0 by {
                    if id == *workflow_id {
                        let all = history + batch;
                        assert forall|i: int| 0 <= i < all.len() implies (
                        #[trigger] all[i]).envelope.seq == 1 + i by {
                            if i < history.len() {
                                assert(all[i] == history[i]);
                                assert(histories_of(before).contains_key(*workflow_id));
                            } else {
                                assert(all[i] == batch[i - history.len()]);
                            }
                        }
                    } else {
                        assert(histories_of(before).contains_key(id));
                    }
                }
            }
        }
        self.histories = table;
        Ok(())
    }

    fn read_history(&self, workflow_id: &WorkflowId) -> (history: Result<Vec<Event>, StoreError>)
        ensures
            history matches Ok(events) && contiguous(event_views(events@), 0),
    {
        proof {
            use_type_invariant(self);
        }
        match self.histories.get(workflow_id) {
            Some(stored) => {
                assert(histories_of(self.histories@).contains_key(*workflow_id));
                Ok(clone_events(stored.as_slice()))
            },
            None => {
                let empty: Vec<Event> = Vec::new();
                assert(event_views(empty@) =~= Seq::empty());
                Ok(empty)
            },
        }
    }

    fn read_run_chain(&self, workflow_id: &WorkflowId) -> (chain: Result<
        Vec<RunSummary>,
        StoreError,
    >) {
        match self.histories.get(workflow_id) {
            Some(stored) => Ok(run_chain_from_history(stored.as_slice())),
            None => Ok(Vec::new()),
        }
    }

    fn list_active(&self) -> (active: Result<Vec<WorkflowId>, StoreError>) {
        let entries = self.histories.entries();
        let ghost pairs = entries@;
        let ghost wanted = active_workflows(self.kept_histories());
        let ghost value = |id: WorkflowId| id;
        let mut found: Vec<Keyed<usize, WorkflowId>> = Vec::new();
        let mut i: usize = 0;
        while i < entries.len()
            invariant
                i <= entries.len(),
                entries@ == pairs,
                keys_distinct(pairs),
                pair_map(pairs) == self.histories@,
                wanted == active_workflows(self.kept_histories()),
                value == (|id: WorkflowId| id),
                picked(pairs, i as int, wanted, value, found@),
            decreases entries.len() - i,
        {
            let ghost earlier = found@;
            proof {
                pair_map_holds(pairs, i as int);
            }
            match status_from_events(entries[i].1.as_slice()) {
                WorkflowStatus::Running => {
                    found.push(Keyed { key: i, item: entries[i].0 });
                    proof {
                        picked_next(pairs, i as int, wanted, value, earlier, found@.last());
                        assert(found@ =~= earlier.push(found@.last()));
                    }
                },
                _ => {
                    proof {
                        passed_over(pairs, i as int, wanted, value, earlier);
                    }
                },
            }
            i += 1;
        }
        proof {
            picked_keys_distinct(pairs, i as int, wanted, value, found@);
        }
        let ordered = sorted_pairs(found);
        proof {
            picked_lists(pairs, wanted, value, found@, ordered@);
            assert(items_of(ordered@).map_values(value) =~= items_of(ordered@));
        }
        Ok(without_keys(ordered))
    }

    fn query(&self, filter: &WorkflowFilter) -> (selected: Result<
        Vec<WorkflowSummary>,
        StoreError,
    >) {
        let entries = self.histories.entries();
        let ghost pairs = entries@;
        let ghost wanted = selected_summaries(self.kept_histories(), filter@);
        let ghost value = |summary: WorkflowSummary| summary@;
        let mut found: Vec<Keyed<usize, WorkflowSummary>> = Vec::new();
        let mut i: usize = 0;
        while i < entries.len()
            invariant
                i <= entries.len(),
                entries@ == pairs,
                keys_distinct(pairs),
                pair_map(pairs) == self.histories@,
                wanted == selected_summaries(self.kept_histories(), filter@),
                value == (|summary: WorkflowSummary| summary@),
                picked(pairs, i as int, wanted, value, found@),
            decreases entries.len() - i,
        {
            let ghost earlier = found@;
            proof {
                pair_map_holds(pairs, i as int);
            }
            let summary = WorkflowSummary::from_history(entries[i].1.as_slice());
            let selected = match &summary {
                Some(summary) => filter.matches(summary),
                None => false,
            };
            match summary {
                Some(summary) if selected => {
                    found.push(Keyed { key: i, item: summary });
                    proof {
                        picked_next(pairs, i as int, wanted, value, earlier, found@.last());
                        assert(found@ =~= earlier.push(found@.last()));
                    }
                },
                _ => {
                    proof {
                        passed_over(pairs, i as int, wanted, value, earlier);
                    }
                },
            }
            i += 1;
        }
        proof {
            picked_keys_distinct(pairs, i as int, wanted, value, found@);
        }
        let ordered = sorted_pairs(found);
        let summaries = without_keys(ordered);
        proof {
            picked_lists(pairs, wanted, value, found@, ordered@);
            assert(items_of(ordered@).map_values(value) =~= workflow_summary_views(summaries@));
        }
        Ok(summaries)
    }

    fn schedule_timer(
        &mut self,
        workflow_id: &WorkflowId,
        timer_id: &TimerId,
        fire_at: Timestamp,
    ) -> (outcome: Result<(), StoreError>)
        ensures
            final(self).kept_rows() == old(self).kept_rows(),
    {
        proof {
            use_type_invariant(&*self);
        }
        let mut timers: Table<TimerKey, Timestamp> = Table::new();
        core::mem::swap(&mut timers, &mut self.timers);
        let _ = timers.insert(
            TimerKey { workflow_id: *workflow_id, timer_id: timer_id.clone() },
            fire_at,
        );
        self.timers = timers;
        Ok(())
    }

    fn expired_timers(&self, as_of: Timestamp) -> (expired: Result<Vec<TimerEntry>, StoreError>) {
        let entries = self.timers.entries();
        let ghost pairs = entries@;
        let ghost wanted = due_timers(self.kept_timers(), as_of);
        let ghost value = |entry: TimerEntry| entry@;
        let mut found: Vec<Keyed<usize, TimerEntry>> = Vec::new();
        let mut i: usize = 0;
        while i < entries.len()
            invariant
                i <= entries.len(),
                entries@ == pairs,
                keys_distinct(pairs),
                pair_map(pairs) == self.timers@,
                wanted == due_timers(self.kept_timers(), as_of),
                value == (|entry: TimerEntry| entry@),
                picked(pairs, i as int, wanted, value, found@),
            decreases entries.len() - i,
        {
            let ghost earlier = found@;
            proof {
                pair_map_holds(pairs, i as int);
            }
            if entries[i].1.not_after(&as_of) {
                found.push(
                    Keyed {
                        key: i,
                        item: TimerEntry {
                            workflow_id: entries[i].0.workflow_id,
                            timer_id: entries[i].0.timer_id.clone(),
                            fire_at: entries[i].1,
                        },
                    },
                );
                proof {
                    picked_next(pairs, i as int, wanted, value, earlier, found@.last());
                    assert(found@ =~= earlier.push(found@.last()));
                }
            } else {
                proof {
                    passed_over(pairs, i as int, wanted, value, earlier);
                }
            }
            i += 1;
        }
        proof {
            picked_keys_distinct(pairs, i as int, wanted, value, found@);
        }
        let ordered = sorted_pairs(found);
        let timers = without_keys(ordered);
        proof {
            picked_lists(pairs, wanted, value, found@, ordered@);
            assert(items_of(ordered@).map_values(value) =~= timer_views(timers@));
        }
        Ok(timers)
    }
}

/// The value of every row.
pub open spec fn rows_of(table: Map<(WorkflowId, RunId), VisibilityRecord>) -> Map<
    (WorkflowId, RunId),
    VisibilityView,
> {
    table.map_values(|record: VisibilityRecord| record@)
}

impl InMemoryStore {
    /// The selected summaries in listing order, before pagination.
    fn select(&self, filter: &ListWorkflowsFilter) -> (summaries: Vec<
        crate::visibility::WorkflowSummary,
    >)
        ensures
            listing(summary_views(summaries@), self.kept_rows(), filter@),
    {
        let entries = self.visibility.entries();
        let ghost pairs = entries@;
        let ghost wanted = selected_rows(self.kept_rows(), filter@);
        let ghost value = |summary: crate::visibility::WorkflowSummary| summary@;
        let mut found: Vec<Keyed<usize, crate::visibility::WorkflowSummary>> = Vec::new();
        let mut i: usize = 0;
        while i < entries.len()
            invariant
                i <= entries.len(),
                entries@ == pairs,
                keys_distinct(pairs),
                pair_map(pairs) == self.visibility@,
                wanted == selected_rows(self.kept_rows(), filter@),
                value == (|summary: crate::visibility::WorkflowSummary| summary@),
                picked(pairs, i as int, wanted, value, found@),
            decreases entries.len() - i,
        {
            let ghost earlier = found@;
            proof {
                pair_map_holds(pairs, i as int);
            }
            let summary = crate::visibility::WorkflowSummary::from(entries[i].1.clone());
            if filter.matches(&summary) {
                found.push(Keyed { key: i, item: summary });
                proof {
                    picked_next(pairs, i as int, wanted, value, earlier, found@.last());
                    assert(found@ =~= earlier.push(found@.last()));
                }
            } else {
                proof {
                    passed_over(pairs, i as int, wanted, value, earlier);
                }
            }
            i += 1;
        }
        proof {
            picked_keys_distinct(pairs, i as int, wanted, value, found@);
        }
        let ordered = sorted_pairs(found);
        let summaries = without_keys(ordered);
        proof {
            picked_lists(pairs, wanted, value, found@, ordered@);
            let views = summary_views(summaries@);
            assert(items_of(ordered@).map_values(value) =~= views);
            assert forall|a: int, b: int|
                #![trigger views[a], views[b]]
                0 <= a < b < views.len() implies views[a].listed_before(views[b]) by {
                assert(ordered@[a].at_most(&ordered@[b]));
            }
        }
        summaries
    }
}

impl VisibilityStore for InMemoryStore {
    open spec fn rows(&self) -> Map<(WorkflowId, RunId), VisibilityView> {
        self.kept_rows()
    }

    open spec fn visibility_failures(&self) -> Map<VisibilityCall, StoreErrorView> {
        Map::empty()
    }

    fn record_visibility(&mut self, record: VisibilityRecord) -> (outcome: Result<(), StoreError>)
        ensures
            final(self).kept_histories() == old(self).kept_histories(),
            final(self).kept_timers() == old(self).kept_timers(),
    {
        proof {
            use_type_invariant(&*self);
        }
        let ghost before = self.visibility@;
        let mut rows: Table<RunKey, VisibilityRecord> = Table::new();
        core::mem::swap(&mut rows, &mut self.visibility);
        let key = RunKey { workflow_id: record.workflow_id, run_id: record.run_id };
        let _ = rows.insert(key, record);
        assert(rows_of(rows@) =~= rows_of(before).insert(key@, record@));
        self.visibility = rows;
        Ok(())
    }

    fn list_workflows(&self, filter: &ListWorkflowsFilter) -> (listed: Result<
        Vec<crate::visibility::WorkflowSummary>,
        StoreError,
    >) {
        proof {
            use_type_invariant(self);
        }
        let mut summaries = self.select(filter);
        let ghost all = summary_views(summaries@);
        match filter.offset {
            Some(offset) => {
                let offset: usize = offset as usize;
                summaries = if offset <= summaries.len() {
                    summaries.split_off(offset)
                } else {
                    Vec::new()
                };
            },
            None => {},
        }
        match filter.limit {
            Some(limit) => {
                summaries.truncate(limit as usize);
            },
            None => {},
        }
        proof {
            assert(listing(all, self.rows(), filter@));
            assert(summary_views(summaries@) =~= filter@.page(all));
        }
        Ok(summaries)
    }

    fn count_workflows(&self, filter: &ListWorkflowsFilter) -> (counted: Result<u64, StoreError>) {
        let summaries = self.select(filter);
        proof {
            crate::order::listing_length(
                summary_views(summaries@),
                selected_rows(self.kept_rows(), filter@),
            );
        }
        Ok(summaries.len() as u64)
    }
}

} // verus!
