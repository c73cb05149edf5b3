use std::sync::Arc;

use aion::attributes::{FloatBits, SearchAttributeValue, SearchAttributes};
use aion::ids::{RunId, WorkflowId};
use aion::memory::InMemoryStore;
use aion::projection::WorkflowStatus;
use aion::timestamp::{Span, Timestamp};
use aion::visibility::{
    ListWorkflowsFilter, SearchAttributePredicate, VisibilityRecord, VisibilityStore,
    WorkflowSummary,
};

fn epoch_plus(seconds: i64) -> Timestamp {
    Timestamp::from_timestamp(seconds, 0).unwrap()
}

fn plus(instant: Timestamp, seconds: u64) -> Timestamp {
    instant.after(Span::from_secs(seconds)).unwrap()
}

#[test]
fn visibility_store_is_object_safe() {
    let _: Option<Arc<dyn VisibilityStore>> = None;
}

#[test]
fn default_filter_matches_all_workflows() {
    let summary = workflow_summary();

    assert!(ListWorkflowsFilter::default().matches(&summary));
}

#[test]
fn mismatched_typed_search_attribute_predicates_do_not_match() {
    let summary = workflow_summary();

    let greater_than_string = SearchAttributePredicate::GreaterThan {
        name: String::from("customer"),
        value: SearchAttributeValue::String(String::from("a")),
    };
    let contains_non_keyword_list = SearchAttributePredicate::Contains {
        name: String::from("attempts"),
        keyword: String::from("vip"),
    };

    assert!(
        !ListWorkflowsFilter {
            search_attributes: vec![greater_than_string],
            ..ListWorkflowsFilter::default()
        }
        .matches(&summary)
    );
    assert!(
        !ListWorkflowsFilter {
            search_attributes: vec![contains_non_keyword_list],
            ..ListWorkflowsFilter::default()
        }
        .matches(&summary)
    );
}

#[test]
fn search_attribute_predicates_match_supported_typed_operations() {
    let summary = workflow_summary();

    assert!(
        SearchAttributePredicate::Equals {
            name: String::from("customer"),
            value: SearchAttributeValue::String(String::from("cust-1")),
        }
        .matches(&summary)
    );
    assert!(
        SearchAttributePredicate::GreaterThan {
            name: String::from("attempts"),
            value: SearchAttributeValue::Int(2),
        }
        .matches(&summary)
    );
    assert!(
        SearchAttributePredicate::LessThan {
            name: String::from("attempts"),
            value: SearchAttributeValue::Int(4),
        }
        .matches(&summary)
    );
    assert!(
        SearchAttributePredicate::Contains {
            name: String::from("tags"),
            keyword: String::from("vip"),
        }
        .matches(&summary)
    );
}

#[test]
fn workflow_type_filter_matches_exact_type_and_rejects_mismatch() {
    let summary = workflow_summary();

    let matching = ListWorkflowsFilter {
        workflow_type: Some(String::from("example")),
        ..ListWorkflowsFilter::default()
    };
    let non_matching = ListWorkflowsFilter {
        workflow_type: Some(String::from("other")),
        ..ListWorkflowsFilter::default()
    };

    assert!(matching.matches(&summary));
    assert!(!non_matching.matches(&summary));
}

#[test]
fn status_filter_matches_exact_status_and_rejects_mismatch() {
    let summary = workflow_summary();

    let matching = ListWorkflowsFilter {
        status: Some(WorkflowStatus::Running),
        ..ListWorkflowsFilter::default()
    };
    let non_matching = ListWorkflowsFilter {
        status: Some(WorkflowStatus::Completed),
        ..ListWorkflowsFilter::default()
    };

    assert!(matching.matches(&summary));
    assert!(!non_matching.matches(&summary));
}

#[test]
fn started_after_filter_matches_boundary_and_rejects_earlier() {
    let summary = workflow_summary();
    let start = summary.start_time;

    let at_boundary = ListWorkflowsFilter {
        started_after: Some(start),
        ..ListWorkflowsFilter::default()
    };
    let after_start = ListWorkflowsFilter {
        started_after: Some(plus(start, 1)),
        ..ListWorkflowsFilter::default()
    };

    assert!(at_boundary.matches(&summary));
    assert!(!after_start.matches(&summary));
}

#[test]
fn started_before_filter_matches_boundary_and_rejects_later() {
    let summary = workflow_summary();
    let start = summary.start_time;

    let at_boundary = ListWorkflowsFilter {
        started_before: Some(start),
        ..ListWorkflowsFilter::default()
    };
    let before_start = ListWorkflowsFilter {
        started_before: Some(epoch_plus(start.timestamp() - 1)),
        ..ListWorkflowsFilter::default()
    };

    assert!(at_boundary.matches(&summary));
    assert!(!before_start.matches(&summary));
}

#[test]
fn closed_after_filter_does_not_match_running_workflows() {
    let summary = workflow_summary();
    assert!(summary.close_time.is_none());

    let filter = ListWorkflowsFilter {
        closed_after: Some(Timestamp::unix_epoch()),
        ..ListWorkflowsFilter::default()
    };
    assert!(!filter.matches(&summary));
}

#[test]
fn closed_after_filter_matches_closed_workflow_at_boundary() {
    let close_time = epoch_plus(3600);
    let summary = closed_workflow_summary(close_time);

    let at_boundary = ListWorkflowsFilter {
        closed_after: Some(close_time),
        ..ListWorkflowsFilter::default()
    };
    let after_close = ListWorkflowsFilter {
        closed_after: Some(plus(close_time, 1)),
        ..ListWorkflowsFilter::default()
    };

    assert!(at_boundary.matches(&summary));
    assert!(!after_close.matches(&summary));
}

#[test]
fn closed_before_filter_does_not_match_running_workflows() {
    let summary = workflow_summary();

    let filter = ListWorkflowsFilter {
        closed_before: Some(epoch_plus(24 * 3600)),
        ..ListWorkflowsFilter::default()
    };
    assert!(!filter.matches(&summary));
}

#[test]
fn closed_before_filter_matches_closed_workflow_at_boundary() {
    let close_time = epoch_plus(3600);
    let summary = closed_workflow_summary(close_time);

    let at_boundary = ListWorkflowsFilter {
        closed_before: Some(close_time),
        ..ListWorkflowsFilter::default()
    };
    let before_close = ListWorkflowsFilter {
        closed_before: Some(epoch_plus(3600 - 1)),
        ..ListWorkflowsFilter::default()
    };

    assert!(at_boundary.matches(&summary));
    assert!(!before_close.matches(&summary));
}

#[test]
fn combined_filters_require_all_predicates_to_match() {
    let close_time = epoch_plus(3600);
    let summary = closed_workflow_summary(close_time);

    let all_match = ListWorkflowsFilter {
        workflow_type: Some(String::from("example")),
        status: Some(WorkflowStatus::Completed),
        started_before: Some(plus(summary.start_time, 1)),
        closed_after: Some(epoch_plus(3600 - 1)),
        ..ListWorkflowsFilter::default()
    };
    assert!(all_match.matches(&summary));

    let one_mismatches = ListWorkflowsFilter {
        workflow_type: Some(String::from("example")),
        status: Some(WorkflowStatus::Failed),
        started_before: Some(plus(summary.start_time, 1)),
        closed_after: Some(epoch_plus(3600 - 1)),
        ..ListWorkflowsFilter::default()
    };
    assert!(!one_mismatches.matches(&summary));
}

fn workflow_summary() -> WorkflowSummary {
    let mut search_attributes = SearchAttributes::new();
    search_attributes.insert(
        String::from("customer"),
        SearchAttributeValue::String(String::from("cust-1")),
    );
    search_attributes.insert(String::from("attempts"), SearchAttributeValue::Int(3));
    search_attributes.insert(
        String::from("tags"),
        SearchAttributeValue::KeywordList(vec![String::from("vip"), String::from("west")]),
    );

    WorkflowSummary {
        workflow_id: WorkflowId::new(uuid::Uuid::new_v4().as_u128()),
        run_id: RunId::new(uuid::Uuid::new_v4().as_u128()),
        workflow_type: String::from("example"),
        status: WorkflowStatus::Running,
        start_time: Timestamp::unix_epoch(),
        close_time: None,
        search_attributes,
    }
}

fn closed_workflow_summary(close_time: Timestamp) -> WorkflowSummary {
    WorkflowSummary {
        status: WorkflowStatus::Completed,
        close_time: Some(close_time),
        ..workflow_summary()
    }
}

fn record(workflow: u128, run: u128, start: i64) -> VisibilityRecord {
    VisibilityRecord {
        workflow_id: WorkflowId::new(workflow),
        run_id: RunId::new(run),
        workflow_type: String::from("example"),
        status: WorkflowStatus::Running,
        start_time: epoch_plus(start),
        close_time: None,
        search_attributes: SearchAttributes::new(),
    }
}

#[test]
fn rows_are_listed_in_order_and_paged() {
    let mut store = InMemoryStore::new();
    store.record_visibility(record(3, 1, 10)).unwrap();
    store.record_visibility(record(2, 1, 10)).unwrap();
    store.record_visibility(record(1, 1, 10)).unwrap();
    store.record_visibility(record(9, 9, 5)).unwrap();

    let keys = |summaries: Vec<WorkflowSummary>| -> Vec<(u128, u128)> {
        summaries
            .iter()
            .map(|summary| (summary.workflow_id.value, summary.run_id.value))
            .collect()
    };
    let all = store
        .list_workflows(&ListWorkflowsFilter::default())
        .unwrap();
    assert_eq!(keys(all), vec![(9, 9), (1, 1), (2, 1), (3, 1)]);

    let page = ListWorkflowsFilter {
        offset: Some(1),
        limit: Some(2),
        ..ListWorkflowsFilter::default()
    };
    assert_eq!(keys(store.list_workflows(&page).unwrap()), vec![(1, 1), (2, 1)]);
    // Counting ignores the page.
    assert_eq!(store.count_workflows(&page).unwrap(), 4);

    let past_the_end = ListWorkflowsFilter {
        offset: Some(7),
        ..ListWorkflowsFilter::default()
    };
    assert!(store.list_workflows(&past_the_end).unwrap().is_empty());
}

#[test]
fn a_row_replaces_the_earlier_row_of_its_run() {
    let mut store = InMemoryStore::new();
    store.record_visibility(record(1, 1, 10)).unwrap();
    store
        .record_visibility(VisibilityRecord {
            status: WorkflowStatus::Completed,
            close_time: Some(epoch_plus(20)),
            ..record(1, 1, 10)
        })
        .unwrap();
    let rows = store
        .list_workflows(&ListWorkflowsFilter::default())
        .unwrap();
    assert_eq!(rows.len(), 1);
    assert_eq!(rows[0].status, WorkflowStatus::Completed);
    assert_eq!(rows[0].close_time, Some(epoch_plus(20)));
}

#[test]
fn summaries_keep_the_fields_of_their_record() {
    let summary = WorkflowSummary::from(record(4, 5, 6));
    assert_eq!(summary.workflow_id, WorkflowId::new(4));
    assert_eq!(summary.run_id, RunId::new(5));
    assert_eq!(summary.start_time, epoch_plus(6));
    assert_eq!(summary.workflow_type, "example");
}

#[test]
fn float_and_datetime_attributes_are_ordered() {
    let mut summary = workflow_summary();
    summary.search_attributes.insert(
        String::from("score"),
        SearchAttributeValue::Float(FloatBits::from_bits((-1.5f64).to_bits())),
    );
    summary.search_attributes.insert(
        String::from("seen"),
        SearchAttributeValue::Datetime(epoch_plus(100)),
    );
    let score_above = |bound: f64| SearchAttributePredicate::GreaterThan {
        name: String::from("score"),
        value: SearchAttributeValue::Float(FloatBits::from_bits(bound.to_bits())),
    };
    assert!(score_above(-2.0).matches(&summary));
    assert!(!score_above(-1.5).matches(&summary));
    assert!(!score_above(0.0).matches(&summary));
    assert!(!score_above(f64::NAN).matches(&summary));
    assert!(
        SearchAttributePredicate::LessThan {
            name: String::from("seen"),
            value: SearchAttributeValue::Datetime(epoch_plus(101)),
        }
        .matches(&summary)
    );
    // A missing attribute never matches.
    assert!(
        !SearchAttributePredicate::LessThan {
            name: String::from("absent"),
            value: SearchAttributeValue::Int(1),
        }
        .matches(&summary)
    );
}

#[test]
fn float_comparison_agrees_with_ieee() {
    let samples = [
        0.0f64,
        -0.0,
        1.0,
        -1.0,
        1.5,
        f64::MIN_POSITIVE,
        -f64::MIN_POSITIVE,
        f64::MAX,
        f64::MIN,
        f64::INFINITY,
        f64::NEG_INFINITY,
        f64::NAN,
    ];
    for left in samples {
        for right in samples {
            let a = FloatBits::from_bits(left.to_bits());
            let b = FloatBits::from_bits(right.to_bits());
            assert_eq!(a.less_than(&b), left < right, "{left} < {right}");
            assert_eq!(a.equals(&b), left == right, "{left} == {right}");
        }
    }
}

#[test]
fn rows_that_tie_are_listed_by_run() {
    let mut forth = InMemoryStore::new();
    let mut back = InMemoryStore::new();
    for run in 1..5 {
        forth.record_visibility(record(7, run, 10)).unwrap();
        back.record_visibility(record(7, 5 - run, 10)).unwrap();
    }
    let page = ListWorkflowsFilter {
        offset: Some(1),
        limit: Some(2),
        ..ListWorkflowsFilter::default()
    };
    let listed = forth.list_workflows(&page).unwrap();
    assert_eq!(listed, back.list_workflows(&page).unwrap());
    let runs: Vec<u128> = listed.iter().map(|row| row.run_id.value).collect();
    assert_eq!(runs, vec![2, 3]);
}
