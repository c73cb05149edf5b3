use std::cell::Cell;

use aion::conformance::expect::{
    contract_error, expect, expect_contains_exactly, expect_count, expect_empty, expect_numbers,
};
use aion::conformance::fixtures::{
    payload, recorded_at, workflow_completed, workflow_started_at, IdSource,
};
use aion::conformance::scenarios::{
    append_and_read_history_round_trip, concurrent_appends_on_same_expected_sequence_has_one_winner,
    large_history_round_trip, query_applies_all_filters, run_event_store_suite, run_scenarios,
};
use aion::conformance::trial::{StoreUnderTest, Trial};
use aion::error::StoreError;
use aion::event::Event;
use aion::ids::{TimerId, WorkflowId};
use aion::memory::InMemoryStore;
use aion::projection::{RunSummary, WorkflowFilter, WorkflowSummary};
use aion::store::{EventStore, TimerEntry};
use aion::timestamp::Timestamp;

/// A store that takes writes and loses them.
struct ForgetfulStore;

impl StoreUnderTest for ForgetfulStore {
    fn append(&mut self, _: &WorkflowId, _: &[Event], _: u64) -> Result<(), StoreError> {
        Ok(())
    }

    fn append_both(
        &mut self,
        _: &WorkflowId,
        _: &[Event],
        _: &[Event],
        _: u64,
    ) -> (Result<(), StoreError>, Result<(), StoreError>) {
        (Ok(()), Ok(()))
    }

    fn read_history(&self, _: &WorkflowId) -> Result<Vec<Event>, StoreError> {
        Ok(Vec::new())
    }

    fn read_run_chain(&self, _: &WorkflowId) -> Result<Vec<RunSummary>, StoreError> {
        Ok(Vec::new())
    }

    fn list_active(&self) -> Result<Vec<WorkflowId>, StoreError> {
        Ok(Vec::new())
    }

    fn query(&self, _: &WorkflowFilter) -> Result<Vec<WorkflowSummary>, StoreError> {
        Ok(Vec::new())
    }

    fn schedule_timer(
        &mut self,
        _: &WorkflowId,
        _: &TimerId,
        _: Timestamp,
    ) -> Result<(), StoreError> {
        Ok(())
    }

    fn expired_timers(&self, _: Timestamp) -> Result<Vec<TimerEntry>, StoreError> {
        Ok(Vec::new())
    }
}

#[test]
fn the_memory_store_passes_the_suite() {
    assert_eq!(run_event_store_suite(InMemoryStore::new), Ok(()));
}

#[test]
fn a_store_that_loses_writes_fails_the_suite() {
    assert!(matches!(
        run_event_store_suite(|| ForgetfulStore),
        Err(StoreError::Backend(_))
    ));
    let mut ids = IdSource::new();
    assert_eq!(
        append_and_read_history_round_trip(&mut Trial::new(ForgetfulStore), &mut ids),
        Err(contract_error(
            "read_history should round-trip appended events in ascending sequence order"
        ))
    );
    assert_eq!(
        large_history_round_trip(&mut Trial::new(ForgetfulStore), &mut ids),
        Err(contract_error(
            "large history read should return the full appended event count\n  expected: 125\n  actual: 0"
        ))
    );
    assert_eq!(
        concurrent_appends_on_same_expected_sequence_has_one_winner(
            &mut Trial::new(ForgetfulStore),
            &mut ids
        ),
        Err(contract_error(
            "concurrent appends with the same expected_seq should have exactly one winner\n  expected: 1\n  actual: 2"
        ))
    );
}

#[test]
fn every_scenario_runs_on_a_store_of_its_own() {
    let made = Cell::new(0);
    let make = || {
        made.set(made.get() + 1);
        InMemoryStore::new()
    };
    let report = run_scenarios(&make);
    assert_eq!(report.outcome, Ok(()));
    assert_eq!(report.trials.len(), 12);
    assert_eq!(made.get(), 12);
}

#[test]
fn the_suite_stops_at_the_first_failure() {
    let report = run_scenarios(&|| ForgetfulStore);
    assert_eq!(report.trials.len(), 1);
    assert!(report.outcome.is_err());
}

#[test]
fn a_surplus_workflow_is_found() {
    let mut store = InMemoryStore::new();
    let surplus = WorkflowId::new(u128::MAX);
    let started = workflow_started_at(1, &surplus, "checkout", 1).unwrap();
    EventStore::append(&mut store, &surplus, &[started], 0).unwrap();
    assert_eq!(
        query_applies_all_filters(&mut Trial::new(store), &mut IdSource::new()),
        Err(contract_error(
            "default query filter should match every workflow with a start event"
        ))
    );
}

#[test]
fn fixtures_out_of_range_are_refused() {
    let id = WorkflowId::new(1);
    assert_eq!(
        recorded_at(i64::MIN),
        Err(contract_error("test timestamp should be representable"))
    );
    assert_eq!(
        workflow_completed(u64::MAX, &id),
        Err(StoreError::Backend(String::from(
            "event sequence out of timestamp range: out of range integral type conversion attempted"
        )))
    );
}

#[test]
fn identifiers_of_one_source_differ() {
    let mut ids = IdSource::new();
    let first = ids.workflow_id();
    let second = ids.workflow_id();
    assert_ne!(first, second);
}

#[test]
fn checks_name_their_mismatch() {
    assert_eq!(expect(true, "fine"), Ok(()));
    assert_eq!(expect(false, "broken"), Err(contract_error("broken")));
    assert_eq!(expect_empty(&Vec::<u8>::new(), "must be empty"), Ok(()));
    assert!(expect_empty(&vec![1u8], "must be empty").is_err());
    assert_eq!(
        expect_numbers(&vec![1, 2], &vec![1, 3, 10], "numbers"),
        Err(contract_error("numbers\n  expected: [1, 3, 10]\n  actual: [1, 2]"))
    );
    assert_eq!(
        expect_numbers(&vec![], &vec![7], "numbers"),
        Err(contract_error("numbers\n  expected: [7]\n  actual: []"))
    );
    assert_eq!(expect_count(1, 1, "count"), Ok(()));
    assert_eq!(
        expect_count(2, 1, "count"),
        Err(contract_error("count\n  expected: 1\n  actual: 2"))
    );
    let (a, b) = (WorkflowId::new(1), WorkflowId::new(2));
    assert_eq!(expect_contains_exactly(vec![b, a], &vec![a, b], "ids"), Ok(()));
    assert!(expect_contains_exactly(vec![b, b], &vec![a, b], "ids").is_err());
}

#[test]
fn fixtures_hold_their_values() {
    assert_eq!(
        recorded_at(10).unwrap(),
        Timestamp::from_timestamp(1_700_000_010, 0).unwrap()
    );
    assert_eq!(
        payload("large").unwrap().bytes(),
        &b"{\"label\":\"large\"}".to_vec()
    );
}

/// A store whose summaries are not those that it keeps.
struct MisreportingStore {
    kept: InMemoryStore,
    misreport: fn(&mut WorkflowSummary),
}

impl EventStore for MisreportingStore {
    fn append(&mut self, id: &WorkflowId, events: &[Event], head: u64) -> Result<(), StoreError> {
        EventStore::append(&mut self.kept, id, events, head)
    }

    fn read_history(&self, id: &WorkflowId) -> Result<Vec<Event>, StoreError> {
        EventStore::read_history(&self.kept, id)
    }

    fn read_run_chain(&self, id: &WorkflowId) -> Result<Vec<RunSummary>, StoreError> {
        EventStore::read_run_chain(&self.kept, id)
    }

    fn list_active(&self) -> Result<Vec<WorkflowId>, StoreError> {
        EventStore::list_active(&self.kept)
    }

    fn query(&self, filter: &WorkflowFilter) -> Result<Vec<WorkflowSummary>, StoreError> {
        let mut summaries = EventStore::query(&self.kept, filter)?;
        summaries.iter_mut().for_each(self.misreport);
        Ok(summaries)
    }

    fn schedule_timer(
        &mut self,
        id: &WorkflowId,
        timer: &TimerId,
        fire_at: Timestamp,
    ) -> Result<(), StoreError> {
        EventStore::schedule_timer(&mut self.kept, id, timer, fire_at)
    }

    fn expired_timers(&self, as_of: Timestamp) -> Result<Vec<TimerEntry>, StoreError> {
        EventStore::expired_timers(&self.kept, as_of)
    }
}

fn misreported(misreport: fn(&mut WorkflowSummary)) -> Result<(), StoreError> {
    let store = MisreportingStore {
        kept: InMemoryStore::new(),
        misreport,
    };
    query_applies_all_filters(&mut Trial::new(store), &mut IdSource::new())
}

#[test]
fn misreported_summaries_are_named_with_both_values() {
    assert_eq!(misreported(|_| {}), Ok(()));
    assert_eq!(
        misreported(|summary| summary.workflow_type = String::from("a \"b\"")),
        Err(contract_error(
            "query summary should preserve workflow type\n  expected: \"checkout\"\n  actual: \"a \\\"b\\\"\""
        ))
    );
    assert_eq!(
        misreported(|summary| summary.started_at = recorded_at(-1).unwrap()),
        Err(contract_error(
            "query summary should use WorkflowStarted recorded_at as started_at\n  expected: 2023-11-14T22:13:30Z\n  actual: 2023-11-14T22:13:19Z"
        ))
    );
    assert_eq!(
        misreported(|summary| summary.ended_at = None),
        Err(contract_error(
            "query summary should use terminal event recorded_at as ended_at\n  expected: Some(2023-11-14T22:13:31Z)\n  actual: None"
        ))
    );
}
